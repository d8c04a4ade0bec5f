//! The dialog in which a tunnel is made or changed.
use crate::project_control_plane::{message_looks_like_quota, speaks_of_quota};
use crate::state::{host_port, TcpProxyData};
use crate::text::{
    ascii_lower, cat3, decimal, has_prefix, has_text, last_index_of, opt_view, rsplit_once,
    starts_with, string_of, to_ascii_lower, trim, trimmed, chars_of,
};
use crate::tunnels::{normalized, TunnelSummary};
use vstd::prelude::*;

verus! {

/// The text begins with `http://` or `https://`, in capitals or not. Only ASCII letters have the
/// letters of these schemes as their small form, so no other capitals matter.
pub open spec fn has_http_scheme(t: Seq<char>) -> bool {
    has_prefix(ascii_lower(t), "https://"@) || has_prefix(ascii_lower(t), "http://"@)
}

/// An address without surrounding whitespace and without the scheme of HTTP.
pub open spec fn without_scheme(s: Seq<char>) -> Seq<char> {
    let t = trimmed(s);
    if has_prefix(ascii_lower(t), "https://"@) {
        trimmed(t.skip(8))
    } else if has_prefix(ascii_lower(t), "http://"@) {
        trimmed(t.skip(7))
    } else {
        t
    }
}

fn trimmed_from(s: &str, from: usize) -> (r: String)
    requires
        from <= s@.len(),
    ensures
        r@ == trimmed(s@.skip(from as int)),
{
    let v = chars_of(s);
    let rest = string_of(&v, from, v.len());
    assert(rest@ =~= s@.skip(from as int));
    trim(rest.as_str())
}

/// An address without the scheme of HTTP.
pub fn strip_http_scheme(s: &str) -> (r: String)
    ensures
        r@ == without_scheme(s@),
{
    let t = trim(s);
    let lower = to_ascii_lower(t.as_str());
    proof {
        reveal_strlit("https://");
        reveal_strlit("http://");
    }
    if starts_with(lower.as_str(), "https://") {
        trimmed_from(t.as_str(), 8)
    } else if starts_with(lower.as_str(), "http://") {
        trimmed_from(t.as_str(), 7)
    } else {
        t
    }
}

/// The note on an address with a scheme.
pub const SCHEME_NOTE: &'static str =
    "Do not include http:// or https:// — use host:port only (e.g. 127.0.0.1:5173).";

/// What is wrong with an address: it has a scheme, or it is no `host:port`. Nothing is wrong with an
/// empty one as long as it is not sent.
pub open spec fn address_problem(s: Seq<char>) -> Option<Seq<char>> {
    let t = trimmed(s);
    if t.len() == 0 {
        None
    } else if has_http_scheme(t) {
        Some(SCHEME_NOTE@)
    } else if host_port(t) is Some {
        None
    } else {
        Some(
            "Invalid address: "@ + (if last_index_of(t, ':') < 0 {
                "missing port"@
            } else {
                "invalid port"@
            }) + ". Use host:port (e.g. 127.0.0.1:5173)."@,
        )
    }
}

/// What is wrong with an address, if anything.
pub fn validate_tunnel_address(s: &str) -> (r: Option<String>)
    ensures
        opt_view(r) == address_problem(s@),
{
    let t = trim(s);
    if t.as_str().is_empty() {
        return None;
    }
    let lower = to_ascii_lower(t.as_str());
    if starts_with(lower.as_str(), "http://") || starts_with(lower.as_str(), "https://") {
        return Some(SCHEME_NOTE.to_owned());
    }
    match TcpProxyData::from_host_port_str(t.as_str()) {
        Some(_) => None,
        None => {
            let reason = match rsplit_once(t.as_str(), ':') {
                None => "missing port",
                Some(_) => "invalid port",
            };
            Some(cat3("Invalid address: ", reason, ". Use host:port (e.g. 127.0.0.1:5173)."))
        },
    }
}

/// The fields of the dialog.
#[derive(Debug)]
pub struct TunnelForm {
    pub label: String,
    pub address: String,
}

/// The fields when the dialog is opened or closed: those of the tunnel that is changed, else empty
/// ones.
pub fn form_for(open: bool, initial: &Option<TunnelSummary>) -> (r: TunnelForm)
    ensures
        match *initial {
            Some(t) if open => r.label == t.label && r.address@ == without_scheme(t.endpoint@),
            _ => r.label@.len() == 0 && r.address@.len() == 0,
        },
{
    if open {
        if let Some(t) = initial {
            return TunnelForm {
                label: t.label.clone(),
                address: strip_http_scheme(t.endpoint.as_str()),
            };
        }
    }
    TunnelForm { label: String::new(), address: String::new() }
}

/// How the dialog shows that saving failed.
#[derive(Debug)]
pub enum SaveNotice {
    Quiet,
    /// The quota for tunnels is used up.
    QuotaReached,
    /// Another failure, under a title.
    Failed { title: String, text: String },
}

/// What the dialog shows.
#[derive(Debug)]
pub struct DialogView {
    pub title: String,
    pub submit_text: String,
    pub address_error: Option<String>,
    /// Whether the notice is shown that the quota is used up, before anything is sent.
    pub create_blocked: bool,
    pub submit_disabled: bool,
    pub notice: SaveNotice,
}

/// The title of the dialog.
pub open spec fn dialog_title(is_edit: bool) -> Seq<char> {
    if is_edit {
        "Edit tunnel"@
    } else {
        "Add a tunnel"@
    }
}

/// The text of the button that sends.
pub open spec fn submit_text(is_edit: bool, pending: bool) -> Seq<char> {
    match (is_edit, pending) {
        (true, true) => "Saving…"@,
        (true, false) => "Save changes"@,
        (false, true) => "Creating…"@,
        (false, false) => "Create tunnel"@,
    }
}

/// A new tunnel cannot be made: the quota is known to be used up.
pub open spec fn blocked(is_edit: bool, quota_exhausted: Option<bool>) -> bool {
    !is_edit && quota_exhausted == Some(true)
}

/// Nothing can be sent: something is being sent, the address is missing or wrong, or the quota is
/// used up.
pub open spec fn cannot_submit(
    is_edit: bool,
    pending: bool,
    address: Seq<char>,
    quota_exhausted: Option<bool>,
) -> bool {
    pending || trimmed(address).len() == 0 || address_problem(address) is Some || blocked(
        is_edit,
        quota_exhausted,
    )
}

/// What the dialog shows.
pub fn dialog(
    is_edit: bool,
    pending: bool,
    form: &TunnelForm,
    quota_exhausted: Option<bool>,
    save_error: &Option<String>,
) -> (r: DialogView)
    ensures
        r.title@ == dialog_title(is_edit),
        r.submit_text@ == submit_text(is_edit, pending),
        opt_view(r.address_error) == address_problem(form.address@),
        r.create_blocked == blocked(is_edit, quota_exhausted),
        r.submit_disabled == cannot_submit(is_edit, pending, form.address@, quota_exhausted),
        match *save_error {
            None => r.notice is Quiet,
            Some(e) => if !is_edit && speaks_of_quota(e@) {
                r.notice is QuotaReached
            } else {
                r.notice matches SaveNotice::Failed { title, text } && text@ == e@ && title@ == (
                if is_edit {
                    "Couldn't update tunnel"@
                } else {
                    "Couldn't create tunnel"@
                })
            },
        },
{
    let title = if is_edit {
        "Edit tunnel"
    } else {
        "Add a tunnel"
    };
    let text = if is_edit {
        if pending {
            "Saving…"
        } else {
            "Save changes"
        }
    } else if pending {
        "Creating…"
    } else {
        "Create tunnel"
    };
    let address_error = validate_tunnel_address(form.address.as_str());
    let create_blocked = !is_edit && match quota_exhausted {
        Some(e) => e,
        None => false,
    };
    let address = trim(form.address.as_str());
    let submit_disabled = pending || address.as_str().is_empty() || address_error.is_some()
        || create_blocked;
    let notice = match save_error {
        None => SaveNotice::Quiet,
        Some(e) => {
            if !is_edit && message_looks_like_quota(e.as_str()) {
                SaveNotice::QuotaReached
            } else {
                let title = if is_edit {
                    "Couldn't update tunnel"
                } else {
                    "Couldn't create tunnel"
                };
                SaveNotice::Failed { title: title.to_owned(), text: e.clone() }
            }
        },
    };
    DialogView {
        title: title.to_owned(),
        submit_text: text.to_owned(),
        address_error,
        create_blocked,
        submit_disabled,
        notice,
    }
}

/// What the button that sends does.
#[derive(Debug)]
pub enum Submit {
    Nothing,
    Create { label: String, address: String },
    Update { id: String, label: String, address: String },
}

/// What the button that sends does: nothing where nothing can be sent, else the tunnel is changed
/// or made with the fields, trimmed.
pub fn submit(
    initial: &Option<TunnelSummary>,
    pending: bool,
    form: &TunnelForm,
    quota_exhausted: Option<bool>,
) -> (r: Submit)
    ensures
        ({
            let disabled = cannot_submit(
                initial is Some,
                pending,
                form.address@,
                quota_exhausted,
            );
            match r {
                Submit::Nothing => disabled,
                Submit::Create { label, address } => !disabled && initial is None && label@
                    == trimmed(form.label@) && address@ == trimmed(form.address@),
                Submit::Update { id, label, address } => !disabled && initial is Some && id
                    == initial->0.id && label@ == trimmed(form.label@) && address@ == trimmed(
                    form.address@,
                ),
            }
        }),
{
    let view = dialog(initial.is_some(), pending, form, quota_exhausted, &None);
    if view.submit_disabled {
        return Submit::Nothing;
    }
    let label = trim(form.label.as_str());
    let address = trim(form.address.as_str());
    match initial {
        Some(t) => Submit::Update { id: t.id.clone(), label, address },
        None => Submit::Create { label, address },
    }
}

/// What is sent names a service: host and port can be read from the address.
pub proof fn law_submitted_address_is_valid(
    is_edit: bool,
    pending: bool,
    address: Seq<char>,
    quota_exhausted: Option<bool>,
)
    requires
        !cannot_submit(is_edit, pending, address, quota_exhausted),
    ensures
        host_port(trimmed(address)) is Some,
        !has_http_scheme(trimmed(address)),
{
}

/// An address that was entered without a scheme is shown again as it was entered when the tunnel is
/// changed later.
pub proof fn law_address_shown_again(address: Seq<char>)
    requires
        !has_text(trimmed(address), "://"@),
    ensures
        without_scheme(normalized(address)) == trimmed(address),
{
    let t = trimmed(address);
    crate::text::lemma_trimmed_twice(address);
    reveal_strlit("https://");
    reveal_strlit("http://");
    reveal_strlit("://");
    if t.len() == 0 {
        assert(normalized(address) == t);
        assert(ascii_lower(t).len() == 0);
    } else {
        let n = "http://"@ + t;
        assert(normalized(address) == n);
        assert(!crate::text::is_white(n[0]));
        assert(n.last() == t.last());
        assert(trimmed(n) == n);
        let l = ascii_lower(n);
        assert(l.take(7) =~= "http://"@);
        if has_prefix(l, "https://"@) {
            assert(l.take(8)[4] == l[4]);
            assert(false);
        }
        assert(n.skip(7) =~= t);
    }
}

/// An address written with the scheme of HTTP, in capitals or not, is refused with the note on it.
/// A host and a port are accepted. What has no colon is refused for want of a port.
pub proof fn law_address_problem(s: Seq<char>, host: Seq<char>, port: u16)
    ensures
        trimmed(s).len() >= 7 && ascii_lower(trimmed(s).take(7)) == "http://"@ ==> address_problem(s)
            == Some(
            "Do not include http:// or https:// — use host:port only (e.g. 127.0.0.1:5173)."@,
        ),
        trimmed(s).len() >= 8 && ascii_lower(trimmed(s).take(8)) == "https://"@ ==> address_problem(
            s,
        ) == Some(
            "Do not include http:// or https:// — use host:port only (e.g. 127.0.0.1:5173)."@,
        ),
        !trimmed(s).contains('/') && trimmed(s) == host + ":"@ + decimal(port as nat)
            ==> address_problem(s) is None,
        trimmed(s).len() > 0 && !trimmed(s).contains(':') ==> address_problem(s) == Some(
            "Invalid address: "@ + "missing port"@ + ". Use host:port (e.g. 127.0.0.1:5173)."@,
        ),
        trimmed(s).len() == 0 ==> address_problem(s) is None,
{
    let t = trimmed(s);
    let l = ascii_lower(t);
    reveal_strlit("http://");
    reveal_strlit("https://");
    reveal_strlit(":");
    if t.len() >= 7 {
        assert(l.take(7) =~= ascii_lower(t.take(7)));
    }
    if t.len() >= 8 {
        assert(l.take(8) =~= ascii_lower(t.take(8)));
    }
    if has_prefix(l, "http://"@) {
        assert(l.take(7)[5] == l[5] && l.take(7)[4] == l[4]);
        assert(t[5] == '/' && t[4] == ':');
    }
    if has_prefix(l, "https://"@) {
        assert(l.take(8)[6] == l[6] && l.take(8)[5] == l[5]);
        assert(t[6] == '/' && t[5] == ':');
    }
    crate::state::law_address_reads_back(host, port);
    crate::text::lemma_last_index_of_range(t, ':');
    if t == host + ":"@ + decimal(port as nat) {
        assert(t.len() > 0);
    }
}

/// A tunnel can be sent exactly if nothing is being sent, the address is there and right, and it is
/// no new one for which the quota is known to be used up.
pub proof fn law_can_submit(
    is_edit: bool,
    pending: bool,
    address: Seq<char>,
    quota_exhausted: Option<bool>,
)
    ensures
        !cannot_submit(is_edit, pending, address, quota_exhausted) <==> !pending && trimmed(
            address,
        ).len() > 0 && address_problem(address) is None && (is_edit || quota_exhausted != Some(
            true,
        )),
        blocked(is_edit, quota_exhausted) <==> !is_edit && quota_exhausted == Some(true),
{
}

/// The address of a tunnel is shown without its scheme, however that is written.
pub proof fn law_without_scheme(scheme: Seq<char>, address: Seq<char>)
    requires
        address.len() > 0,
        !crate::text::is_white(address[0]),
        !crate::text::is_white(address.last()),
        ascii_lower(scheme) == "http://"@ || ascii_lower(scheme) == "https://"@,
    ensures
        without_scheme(scheme + address) == address,
{
    reveal_strlit("http://");
    reveal_strlit("https://");
    let s = scheme + address;
    let l = ascii_lower(s);
    let n = scheme.len() as int;
    assert(ascii_lower(scheme).len() == n);
    assert(ascii_lower(scheme)[0] == 'h');
    assert(scheme[0] == 'h' || scheme[0] == 'H');
    crate::text::law_trimmed(s, 0, s.len() as int);
    assert(s.subrange(0, s.len() as int) =~= s);
    assert(l.take(n) =~= ascii_lower(scheme));
    if n == 7 && has_prefix(l, "https://"@) {
        assert(l.take(8)[4] == l[4]);
        assert(l.take(7)[4] == l[4]);
    }
    assert(s.skip(n) =~= address);
    crate::text::law_trimmed(address, 0, address.len() as int);
    assert(address.subrange(0, address.len() as int) =~= address);
}

/// The dialog says whether a tunnel is made or changed, and whether that is under way.
pub proof fn law_dialog_texts()
    ensures
        dialog_title(true) == "Edit tunnel"@ && dialog_title(false) == "Add a tunnel"@,
        submit_text(true, true) == "Saving…"@ && submit_text(true, false) == "Save changes"@,
        submit_text(false, true) == "Creating…"@ && submit_text(false, false) == "Create tunnel"@,
{
}

} // verus!
