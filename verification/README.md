# datum_connect

Public tunnels to services on this machine, run through the Datum cloud.

- `src/` is the library. Its rules are stated in contracts and proved with Verus: the tunnel
  operations on a project's control plane, the handling of sessions and rejected tokens, the
  agent and its requests, the choice of updates, the traffic shown for each tunnel, and what the
  command line and the desktop views show.
- `app/` is the program around it: files, HTTP, the control plane's API, the agent's server, the
  command line and the views. It performs the requests that the library asks for and hands the
  replies back.
- `tests/` run the library on concrete values.

The library calls the crates `url`, `serde_json`, `data-encoding`, `chrono`, `rand`, `semver` and
`z32` for work that is theirs. Each such call stands in one small function whose doc comment says
what is relied on.

Operations that take several requests (creating a tunnel, refreshing a session, stopping the
agent) are values with a `request` or an action and a `step` that takes the reply.
`src/tunnels/plane.rs` models a control plane that carries out every request, and states what a
whole run of each operation leaves behind.
