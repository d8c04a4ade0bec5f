//! How much traffic tunnels have had lately, sampled from counters that only grow.
use crate::sorting::{place, sorted};
use crate::state::{host_port, Authority};
use crate::text::same;
use crate::tunnels::{stripped, summary_views, SummaryView, TunnelSummary};
use crate::urls::url_parts;
use vstd::prelude::*;

verus! {

/// An hour in nanoseconds. Points in time here are nanoseconds of a clock that only goes forward.
pub const HOUR: u128 = 3_600_000_000_000;

/// A tunnel's recent traffic, for display.
#[derive(Debug, Clone)]
pub struct TunnelActivityEntry {
    pub tunnel_id: String,
    pub label: String,
    pub online: bool,
    pub bytes_last_hour: u64,
    pub rate_per_s: u64,
    pub last_activity_at: u128,
}

/// The content of an entry.
pub struct EntryView {
    pub tunnel_id: Seq<char>,
    pub label: Seq<char>,
    pub online: bool,
    pub bytes_last_hour: nat,
    pub rate_per_s: u64,
    pub last_activity_at: u128,
}

impl View for TunnelActivityEntry {
    type V = EntryView;

    open spec fn view(&self) -> EntryView {
        EntryView {
            tunnel_id: self.tunnel_id@,
            label: self.label@,
            online: self.online,
            bytes_last_hour: self.bytes_last_hour as nat,
            rate_per_s: self.rate_per_s,
            last_activity_at: self.last_activity_at,
        }
    }
}

#[derive(Debug)]
struct TunnelSampleState {
    label: String,
    online: bool,
    last_send: u64,
    last_recv: u64,
    last_sample_at: u128,
    last_activity_at: Option<u128>,
    hourly_deltas: Vec<(u128, u64)>,
    rate_per_s: u64,
}

/// What is kept of a tunnel between two samples.
pub struct SampleView {
    pub label: Seq<char>,
    pub online: bool,
    pub last_send: u64,
    pub last_recv: u64,
    pub last_sample_at: u128,
    pub last_activity_at: Option<u128>,
    pub hourly_deltas: Seq<(u128, u64)>,
    pub rate_per_s: u64,
}

impl View for TunnelSampleState {
    type V = SampleView;

    closed spec fn view(&self) -> SampleView {
        SampleView {
            label: self.label@,
            online: self.online,
            last_send: self.last_send,
            last_recv: self.last_recv,
            last_sample_at: self.last_sample_at,
            last_activity_at: self.last_activity_at,
            hourly_deltas: self.hourly_deltas@,
            rate_per_s: self.rate_per_s,
        }
    }
}

/// The traffic of the tunnels that are tracked, each under its identifier.
#[derive(Debug)]
pub struct TunnelActivityTracker {
    tunnels: Vec<(String, TunnelSampleState)>,
}

impl View for TunnelActivityTracker {
    type V = Seq<(Seq<char>, SampleView)>;

    closed spec fn view(&self) -> Seq<(Seq<char>, SampleView)> {
        sample_views(self.tunnels@)
    }
}

/// The samples of a row, each under its identifier.
spec fn sample_views(s: Seq<(String, TunnelSampleState)>) -> Seq<(Seq<char>, SampleView)> {
    Seq::new(s.len(), |i: int| (s[i].0@, s[i].1@))
}

/// No tunnel is tracked twice.
pub open spec fn tracked_once(known: Seq<(Seq<char>, SampleView)>) -> bool {
    forall|i: int, j: int|
        0 <= i < j < known.len() ==> (#[trigger] known[i]).0 != (#[trigger] known[j]).0
}

/// The identifier is that of a tracked tunnel.
pub open spec fn is_tracked(known: Seq<(Seq<char>, SampleView)>, id: Seq<char>) -> bool {
    exists|i: int| 0 <= i < known.len() && (#[trigger] known[i]).0 == id
}

/// The bytes that went through each origin server: from it and to it.
#[derive(Debug, Clone)]
pub struct UpstreamMetrics {
    pub origins: Vec<(Authority, u64, u64)>,
}

impl Default for UpstreamMetrics {
    fn default() -> (r: Self)
        ensures
            r.origins@.len() == 0,
    {
        UpstreamMetrics { origins: Vec::new() }
    }
}

// Sampling.

/// The tunnel is switched on, and the control plane has accepted and set it up.
pub open spec fn is_online(t: SummaryView) -> bool {
    t.enabled && t.accepted && t.programmed
}

/// The endpoint names an origin server.
pub open spec fn has_origin(t: SummaryView) -> bool {
    host_port(stripped(url_parts(t.endpoint), t.endpoint)) is Some
}

/// One of the tunnels has the identifier.
pub open spec fn listed_id(tunnels: Seq<SummaryView>, id: Seq<char>) -> bool {
    exists|i: int| 0 <= i < tunnels.len() && (#[trigger] tunnels[i]).id == id
}

/// The tracked tunnels that are still listed, in their order.
pub open spec fn retained(
    known: Seq<(Seq<char>, SampleView)>,
    tunnels: Seq<SummaryView>,
) -> Seq<(Seq<char>, SampleView)>
    decreases known.len(),
{
    if known.len() == 0 {
        known
    } else {
        let rest = retained(known.drop_last(), tunnels);
        if listed_id(tunnels, known.last().0) {
            rest.push(known.last())
        } else {
            rest
        }
    }
}

/// The counters last given for the identifier; none sent and received where there are none.
pub open spec fn counter(counters: Seq<(String, u64, u64)>, id: Seq<char>) -> (u64, u64)
    decreases counters.len(),
{
    if counters.len() == 0 {
        (0, 0)
    } else if counters.last().0@ == id {
        (counters.last().1, counters.last().2)
    } else {
        counter(counters.drop_last(), id)
    }
}

/// The place of the identifier among the tracked tunnels, or their number.
pub open spec fn tracked_place(known: Seq<(Seq<char>, SampleView)>, id: Seq<char>) -> int
    decreases known.len(),
{
    if known.len() == 0 || known[0].0 == id {
        0
    } else {
        1 + tracked_place(known.drop_first(), id)
    }
}

/// The deltas without those at the front that are older than an hour.
pub open spec fn within_hour(deltas: Seq<(u128, u64)>, now: u128) -> Seq<(u128, u64)>
    decreases deltas.len(),
{
    if deltas.len() > 0 && deltas[0].0 + HOUR < now {
        within_hour(deltas.drop_first(), now)
    } else {
        deltas
    }
}

/// A tunnel that is seen for the first time.
pub open spec fn first_sample(t: SummaryView, send: u64, recv: u64, now: u128) -> SampleView {
    SampleView {
        label: t.label,
        online: is_online(t),
        last_send: send,
        last_recv: recv,
        last_sample_at: now,
        last_activity_at: None,
        hourly_deltas: Seq::empty(),
        rate_per_s: 0,
    }
}

/// The counters went back, so that they have to be counted anew.
pub open spec fn counters_reset(s: SampleView, send: u64, recv: u64) -> bool {
    send < s.last_send || recv < s.last_recv
}

/// How many bytes were sent and received since the last sample.
pub open spec fn delta(s: SampleView, send: u64, recv: u64) -> nat {
    ((send - s.last_send) + (recv - s.last_recv)) as nat
}

/// How many nanoseconds ago the last sample was taken.
pub open spec fn elapsed(s: SampleView, now: u128) -> u128 {
    if now >= s.last_sample_at {
        (now - s.last_sample_at) as u128
    } else {
        0
    }
}

/// The next sample of a tunnel, with the rate that its traffic comes to.
pub open spec fn next_sample(
    s: SampleView,
    t: SummaryView,
    send: u64,
    recv: u64,
    now: u128,
    rate: u64,
) -> SampleView {
    if counters_reset(s, send, recv) {
        SampleView {
            label: t.label,
            online: is_online(t),
            last_send: send,
            last_recv: recv,
            last_sample_at: now,
            last_activity_at: s.last_activity_at,
            hourly_deltas: s.hourly_deltas,
            rate_per_s: 0,
        }
    } else {
        let d = delta(s, send, recv);
        SampleView {
            label: t.label,
            online: is_online(t),
            last_send: send,
            last_recv: recv,
            last_sample_at: now,
            last_activity_at: if d > 0 {
                Some(now)
            } else {
                s.last_activity_at
            },
            hourly_deltas: within_hour(
                if d > 0 {
                    s.hourly_deltas.push((now, d as u64))
                } else {
                    s.hourly_deltas
                },
                now,
            ),
            rate_per_s: if d > 0 {
                rate
            } else {
                0
            },
        }
    }
}

/// The sample before: the tracked one, else one that has the counters as they are.
pub open spec fn sample_before(
    known: Seq<(Seq<char>, SampleView)>,
    t: SummaryView,
    counters: Seq<(String, u64, u64)>,
    now: u128,
) -> SampleView {
    let i = tracked_place(known, t.id);
    let (send, recv) = counter(counters, t.id);
    if i < known.len() {
        known[i].1
    } else {
        first_sample(t, send, recv, now)
    }
}

/// The tracked tunnels after one tunnel has been sampled. A tunnel whose endpoint names no origin
/// server is passed over.
pub open spec fn sampled(
    known: Seq<(Seq<char>, SampleView)>,
    t: SummaryView,
    counters: Seq<(String, u64, u64)>,
    now: u128,
    rate: u64,
) -> Seq<(Seq<char>, SampleView)> {
    let i = tracked_place(known, t.id);
    let (send, recv) = counter(counters, t.id);
    let after = next_sample(sample_before(known, t, counters, now), t, send, recv, now, rate);
    if !has_origin(t) {
        known
    } else if i < known.len() {
        known.update(i, (t.id, after))
    } else {
        known.push((t.id, after))
    }
}

/// The tracked tunnels after the first `n` tunnels have been sampled, with the rate of each.
pub open spec fn ticked(
    known: Seq<(Seq<char>, SampleView)>,
    tunnels: Seq<SummaryView>,
    counters: Seq<(String, u64, u64)>,
    now: u128,
    rates: Seq<u64>,
    n: nat,
) -> Seq<(Seq<char>, SampleView)>
    decreases n,
{
    if n == 0 {
        retained(known, tunnels)
    } else {
        sampled(
            ticked(known, tunnels, counters, now, rates, (n - 1) as nat),
            tunnels[n - 1],
            counters,
            now,
            rates[n - 1],
        )
    }
}

/// The identifier is tracked after a tick: it is listed, and was tracked before or is that of a
/// listed tunnel whose endpoint names an origin server.
pub open spec fn stays_tracked(
    known: Seq<(Seq<char>, SampleView)>,
    tunnels: Seq<SummaryView>,
    id: Seq<char>,
) -> bool {
    listed_id(tunnels, id) && (is_tracked(known, id) || names_origin(tunnels, id))
}

/// One of the tunnels has the identifier and an endpoint that names an origin server.
pub open spec fn names_origin(tunnels: Seq<SummaryView>, id: Seq<char>) -> bool {
    exists|i: int|
        0 <= i < tunnels.len() && (#[trigger] tunnels[i]).id == id && has_origin(tunnels[i])
}

/// The tunnel at place `i` had traffic since the sample before, so that its rate counts.
pub open spec fn has_traffic(
    known: Seq<(Seq<char>, SampleView)>,
    tunnels: Seq<SummaryView>,
    counters: Seq<(String, u64, u64)>,
    now: u128,
    rates: Seq<u64>,
    i: int,
) -> bool {
    let s = sample_before(
        ticked(known, tunnels, counters, now, rates, i as nat),
        tunnels[i],
        counters,
        now,
    );
    let (send, recv) = counter(counters, tunnels[i].id);
    has_origin(tunnels[i]) && !counters_reset(s, send, recv) && delta(s, send, recv) > 0
}

/// Each rate that counts is what the given function says for the bytes and the nanoseconds since
/// the sample before.
pub open spec fn rates_from<F: Fn(u64, u128) -> u64>(
    rate: F,
    known: Seq<(Seq<char>, SampleView)>,
    tunnels: Seq<SummaryView>,
    counters: Seq<(String, u64, u64)>,
    now: u128,
    rates: Seq<u64>,
    i: int,
) -> bool {
    has_traffic(known, tunnels, counters, now, rates, i) ==> {
        let s = sample_before(
            ticked(known, tunnels, counters, now, rates, i as nat),
            tunnels[i],
            counters,
            now,
        );
        let (send, recv) = counter(counters, tunnels[i].id);
        call_ensures(rate, (delta(s, send, recv) as u64, elapsed(s, now)), rates[i])
    }
}

/// The bytes that a listed tunnel has had since its last sample, given the counters as they are
/// now, fit in one number.
pub open spec fn delta_fits(
    known: Seq<(Seq<char>, SampleView)>,
    id: Seq<char>,
    bytes: (u64, u64),
) -> bool {
    let i = tracked_place(known, id);
    i < known.len() && !counters_reset(known[i].1, bytes.0, bytes.1) ==> delta(
        known[i].1,
        bytes.0,
        bytes.1,
    ) <= u64::MAX
}

/// So it is for each listed tunnel that is sampled.
pub open spec fn deltas_fit(
    known: Seq<(Seq<char>, SampleView)>,
    tunnels: Seq<SummaryView>,
    counters: Seq<(String, u64, u64)>,
) -> bool {
    forall|i: int|
        0 <= i < tunnels.len() && has_origin(#[trigger] tunnels[i]) ==> delta_fits(
            known,
            tunnels[i].id,
            counter(counters, tunnels[i].id),
        )
}

// Display.

/// The bytes of a row of deltas.
pub open spec fn total(deltas: Seq<(u128, u64)>) -> nat
    decreases deltas.len(),
{
    if deltas.len() == 0 {
        0
    } else {
        total(deltas.drop_last()) + deltas.last().1 as nat
    }
}

/// The entry of a tracked tunnel.
pub open spec fn entry(known: (Seq<char>, SampleView)) -> EntryView {
    let s = known.1;
    EntryView {
        tunnel_id: known.0,
        label: s.label,
        online: s.online,
        bytes_last_hour: total(s.hourly_deltas),
        rate_per_s: s.rate_per_s,
        last_activity_at: match s.last_activity_at {
            Some(t) => t,
            None => s.last_sample_at,
        },
    }
}

pub open spec fn entries(known: Seq<(Seq<char>, SampleView)>) -> Seq<EntryView> {
    Seq::new(known.len(), |i: int| entry(known[i]))
}

/// The tunnel has had traffic.
pub open spec fn is_active(e: EntryView) -> bool {
    e.bytes_last_hour > 0 || e.rate_per_s > 0
}

/// Tunnels that have had traffic come first; among alike ones the one used last.
pub open spec fn shown_first() -> spec_fn(EntryView, EntryView) -> bool {
    |a: EntryView, b: EntryView|
        if is_active(a) != is_active(b) {
            is_active(a)
        } else {
            a.last_activity_at > b.last_activity_at
        }
}

pub open spec fn entry_views(s: Seq<TunnelActivityEntry>) -> Seq<EntryView> {
    Seq::new(s.len(), |i: int| s[i]@)
}

/// The entries to show: the first ones in the order of display, up to a limit.
pub open spec fn shown(known: Seq<(Seq<char>, SampleView)>, limit: nat) -> Seq<EntryView> {
    let all = sorted(entries(known), shown_first());
    if limit < all.len() {
        all.take(limit as int)
    } else {
        all
    }
}

/// The identifier is that of one of the entries.
pub open spec fn is_shown(s: Seq<EntryView>, id: Seq<char>) -> bool {
    exists|i: int| 0 <= i < s.len() && (#[trigger] s[i]).tunnel_id == id
}

/// The traffic of each tracked tunnel fits in one counter.
pub open spec fn totals_fit(known: Seq<(Seq<char>, SampleView)>) -> bool {
    forall|i: int|
        0 <= i < known.len() ==> total((#[trigger] known[i]).1.hourly_deltas) <= u64::MAX
}

proof fn lemma_total_prefix(deltas: Seq<(u128, u64)>, i: int)
    requires
        0 <= i <= deltas.len(),
    ensures
        total(deltas.take(i)) <= total(deltas),
    decreases deltas.len() - i,
{
    if i < deltas.len() {
        lemma_total_prefix(deltas, i + 1);
        assert(deltas.take(i + 1).drop_last() =~= deltas.take(i));
    } else {
        assert(deltas.take(i) =~= deltas);
    }
}

fn sum(deltas: &Vec<(u128, u64)>) -> (r: u64)
    requires
        total(deltas@) <= u64::MAX,
    ensures
        r == total(deltas@),
{
    let mut acc: u64 = 0;
    let mut i: usize = 0;
    assert(deltas@.take(0) =~= Seq::<(u128, u64)>::empty());
    while i < deltas.len()
        invariant
            i <= deltas@.len(),
            total(deltas@) <= u64::MAX,
            acc == total(deltas@.take(i as int)),
        decreases deltas@.len() - i,
    {
        proof {
            lemma_total_prefix(deltas@, i + 1);
            assert(deltas@.take(i + 1).drop_last() =~= deltas@.take(i as int));
        }
        acc = acc + deltas[i].1;
        i += 1;
    }
    assert(deltas@.take(deltas@.len() as int) =~= deltas@);
    acc
}

fn tunnel_is_online(tunnel: &TunnelSummary) -> (r: bool)
    ensures
        r == is_online(tunnel@),
{
    tunnel.enabled && tunnel.accepted && tunnel.programmed
}

fn is_listed(tunnels: &Vec<TunnelSummary>, id: &str) -> (r: bool)
    ensures
        r == listed_id(summary_views(tunnels@), id@),
{
    let ghost all = summary_views(tunnels@);
    let mut i: usize = 0;
    while i < tunnels.len()
        invariant
            i <= tunnels@.len(),
            all == summary_views(tunnels@),
            forall|k: int| 0 <= k < i ==> (#[trigger] all[k]).id != id@,
        decreases tunnels@.len() - i,
    {
        if same(tunnels[i].id.as_str(), id) {
            assert(all[i as int].id == id@);
            return true;
        }
        i += 1;
    }
    false
}

fn counter_for(counters: &Vec<(String, u64, u64)>, id: &str) -> (r: (u64, u64))
    ensures
        r == counter(counters@, id@),
{
    let mut n: usize = counters.len();
    assert(counters@.take(n as int) =~= counters@);
    while n > 0
        invariant
            n <= counters@.len(),
            counter(counters@, id@) == counter(counters@.take(n as int), id@),
        decreases n,
    {
        let ghost front = counters@.take(n as int);
        assert(front.drop_last() =~= counters@.take(n - 1));
        assert(front.last() == counters@[n - 1]);
        if same(counters[n - 1].0.as_str(), id) {
            return (counters[n - 1].1, counters[n - 1].2);
        }
        n -= 1;
    }
    (0, 0)
}

fn is_older(at: u128, now: u128) -> (r: bool)
    ensures
        r == (at + HOUR < now),
{
    at <= u128::MAX - HOUR && at + HOUR < now
}

fn prune(mut deltas: Vec<(u128, u64)>, now: u128) -> (r: Vec<(u128, u64)>)
    ensures
        r@ == within_hour(deltas@, now),
{
    let ghost start = deltas@;
    while deltas.len() > 0 && is_older(deltas[0].0, now)
        invariant
            within_hour(deltas@, now) == within_hour(start, now),
        decreases deltas@.len(),
    {
        let ghost before = deltas@;
        deltas.remove(0);
        assert(deltas@ =~= before.drop_first());
    }
    deltas
}

impl TunnelSampleState {
    /// The next sample of the tunnel.
    fn next<F: Fn(u64, u128) -> u64>(
        self,
        tunnel: &TunnelSummary,
        send: u64,
        recv: u64,
        now: u128,
        rate: &F,
    ) -> (r: (TunnelSampleState, Ghost<u64>))
        requires
            !counters_reset(self@, send, recv) ==> delta(self@, send, recv) <= u64::MAX,
            forall|d: u64, e: u128| call_requires(*rate, (d, e)),
        ensures
            r.0@ == next_sample(self@, tunnel@, send, recv, now, r.1@),
            !counters_reset(self@, send, recv) && delta(self@, send, recv) > 0 ==> call_ensures(
                *rate,
                (delta(self@, send, recv) as u64, elapsed(self@, now)),
                r.1@,
            ),
    {
        let ghost before = self@;
        let TunnelSampleState {
            label: _,
            online: _,
            last_send,
            last_recv,
            last_sample_at,
            last_activity_at,
            hourly_deltas,
            rate_per_s: _,
        } = self;
        let online = tunnel_is_online(tunnel);
        if send < last_send || recv < last_recv {
            return (
                TunnelSampleState {
                    label: tunnel.label.clone(),
                    online,
                    last_send: send,
                    last_recv: recv,
                    last_sample_at: now,
                    last_activity_at,
                    hourly_deltas,
                    rate_per_s: 0,
                },
                Ghost(0),
            );
        }
        let delta_total: u64 = (send - last_send) + (recv - last_recv);
        let mut deltas = hourly_deltas;
        let mut activity = last_activity_at;
        if delta_total > 0 {
            deltas.push((now, delta_total));
            activity = Some(now);
        }
        let dt: u128 = if now >= last_sample_at {
            now - last_sample_at
        } else {
            0
        };
        let rate_per_s: u64 = if delta_total > 0 {
            rate(delta_total, dt)
        } else {
            0
        };
        (
            TunnelSampleState {
                label: tunnel.label.clone(),
                online,
                last_send: send,
                last_recv: recv,
                last_sample_at: now,
                last_activity_at: activity,
                hourly_deltas: prune(deltas, now),
                rate_per_s,
            },
            Ghost(rate_per_s),
        )
    }
}

impl Default for TunnelActivityTracker {
    fn default() -> (r: Self)
        ensures
            r@.len() == 0,
    {
        TunnelActivityTracker { tunnels: Vec::new() }
    }
}

/// The place of the identifier among the samples, or their number.
fn find_sample(samples: &Vec<(String, TunnelSampleState)>, id: &str) -> (r: usize)
    ensures
        r == tracked_place(sample_views(samples@), id@),
        r <= samples@.len(),
{
    let ghost all = sample_views(samples@);
    let mut i: usize = 0;
    assert(all.skip(0) =~= all);
    while i < samples.len()
        invariant
            i <= samples@.len(),
            all == sample_views(samples@),
            tracked_place(all, id@) == i + tracked_place(all.skip(i as int), id@),
        decreases samples@.len() - i,
    {
        let ghost rest = all.skip(i as int);
        assert(rest.drop_first() =~= all.skip(i + 1));
        assert(rest[0] == all[i as int]);
        if same(samples[i].0.as_str(), id) {
            return i;
        }
        i += 1;
    }
    i
}

/// The samples of the tunnels that are still listed.
fn retain(
    mut from: Vec<(String, TunnelSampleState)>,
    tunnels: &Vec<TunnelSummary>,
) -> (r: Vec<(String, TunnelSampleState)>)
    ensures
        sample_views(r@) == retained(sample_views(from@), summary_views(tunnels@)),
{
    let ghost whole = from@;
    let ghost all = sample_views(whole);
    let ghost current = summary_views(tunnels@);
    let mut out: Vec<(String, TunnelSampleState)> = Vec::new();
    let mut done: Ghost<int> = Ghost(0);
    assert(all.take(0) =~= Seq::<(Seq<char>, SampleView)>::empty());
    assert(sample_views(out@) =~= Seq::<(Seq<char>, SampleView)>::empty());
    while from.len() > 0
        invariant
            0 <= done@ <= whole.len(),
            all == sample_views(whole),
            current == summary_views(tunnels@),
            from@ == whole.skip(done@),
            sample_views(out@) == retained(all.take(done@), current),
        decreases from@.len(),
    {
        let pair = from.remove(0);
        assert(pair == whole[done@]);
        let ghost upto = all.take(done@ + 1);
        assert(upto.drop_last() =~= all.take(done@));
        assert(upto.last() == (pair.0@, pair.1@));
        let ghost before = sample_views(out@);
        if is_listed(tunnels, pair.0.as_str()) {
            out.push(pair);
            assert(sample_views(out@) =~= before.push((pair.0@, pair.1@)));
        }
        assert(from@ =~= whole.skip(done@ + 1));
        done = Ghost(done@ + 1);
    }
    assert(all.take(all.len() as int) =~= all);
    out
}

/// Each sample is the one that there was before, or was taken with the counters as they are now.
spec fn up_to_date(
    known: Seq<(Seq<char>, SampleView)>,
    now: Seq<(Seq<char>, SampleView)>,
    counters: Seq<(String, u64, u64)>,
) -> bool {
    forall|k: int|
        0 <= k < now.len() ==> {
            let e = #[trigger] now[k];
            ||| (e.1.last_send, e.1.last_recv) == counter(counters, e.0)
            ||| tracked_place(known, e.0) < known.len() && known[tracked_place(known, e.0)].1
                == e.1
        }
}

impl TunnelActivityTracker {
    #[verifier::type_invariant]
    pub closed spec fn wf(&self) -> bool {
        tracked_once(self@)
    }

    pub fn new() -> (r: Self)
        ensures
            r@.len() == 0,
    {
        TunnelActivityTracker { tunnels: Vec::new() }
    }

    /// Whether the bytes that each listed tunnel has had since its last sample fit in one number,
    /// given the counters as they are now.
    pub fn deltas_fit(
        &self,
        tunnels: &Vec<TunnelSummary>,
        counters: &Vec<(String, u64, u64)>,
    ) -> (r: bool)
        ensures
            r == deltas_fit(self@, summary_views(tunnels@), counters@),
    {
        let ghost all = summary_views(tunnels@);
        let mut i: usize = 0;
        while i < tunnels.len()
            invariant
                i <= tunnels@.len(),
                all == summary_views(tunnels@),
                forall|k: int|
                    0 <= k < i && has_origin(#[trigger] all[k]) ==> delta_fits(
                        self@,
                        all[k].id,
                        counter(counters@, all[k].id),
                    ),
            decreases tunnels@.len() - i,
        {
            let tunnel = &tunnels[i];
            assert(all[i as int] == tunnel@);
            if tunnel.origin_authority().is_some() {
                let (send, recv) = counter_for(counters, tunnel.id.as_str());
                let at: usize = find_sample(&self.tunnels, tunnel.id.as_str());
                if at < self.tunnels.len() {
                    let s = &self.tunnels[at].1;
                    assert(s@ == self@[at as int].1);
                    if send >= s.last_send && recv >= s.last_recv && send - s.last_send > u64::MAX
                        - (recv - s.last_recv) {
                        assert(!delta_fits(self@, all[i as int].id, (send, recv)));
                        return false;
                    }
                }
            }
            i += 1;
        }
        true
    }

    /// Samples the counters of the tunnels that are listed; others are no longer tracked. `rate`
    /// says how many bytes per second a number of bytes in a number of nanoseconds comes to.
    pub fn tick_counters<F: Fn(u64, u128) -> u64>(
        &mut self,
        tunnels: &Vec<TunnelSummary>,
        counters: &Vec<(String, u64, u64)>,
        now: u128,
        rate: F,
    )
        requires
            deltas_fit(old(self)@, summary_views(tunnels@), counters@),
            forall|d: u64, e: u128| call_requires(rate, (d, e)),
        ensures
            exists|rates: Seq<u64>|
                {
                    &&& rates.len() == tunnels@.len()
                    &&& final(self)@ == #[trigger] ticked(
                        old(self)@,
                        summary_views(tunnels@),
                        counters@,
                        now,
                        rates,
                        tunnels@.len(),
                    )
                    &&& forall|i: int|
                        0 <= i < rates.len() ==> #[trigger] rates_from(
                            rate,
                            old(self)@,
                            summary_views(tunnels@),
                            counters@,
                            now,
                            rates,
                            i,
                        )
                },
            tracked_once(final(self)@),
            forall|id: Seq<char>| #[trigger]
                is_tracked(final(self)@, id) <==> stays_tracked(
                    old(self)@,
                    summary_views(tunnels@),
                    id,
                ),
    {
        proof {
            use_type_invariant(&*self);
        }
        let ghost before = self@;
        let ghost all = summary_views(tunnels@);
        let mut samples: Vec<(String, TunnelSampleState)> = Vec::new();
        assert(sample_views(samples@) =~= Seq::<(Seq<char>, SampleView)>::empty());
        std::mem::swap(&mut self.tunnels, &mut samples);
        let mut samples = retain(samples, tunnels);
        proof {
            lemma_retained_up_to_date(before, all, counters@);
        }
        let ghost mut rates: Seq<u64> = Seq::empty();
        let mut i: usize = 0;
        while i < tunnels.len()
            invariant
                i <= tunnels@.len(),
                all == summary_views(tunnels@),
                deltas_fit(before, all, counters@),
                up_to_date(before, sample_views(samples@), counters@),
                forall|d: u64, e: u128| call_requires(rate, (d, e)),
                rates.len() == i,
                sample_views(samples@) == ticked(before, all, counters@, now, rates, i as nat),
                forall|k: int|
                    0 <= k < i ==> #[trigger] rates_from(
                        rate,
                        before,
                        all,
                        counters@,
                        now,
                        rates,
                        k,
                    ),
            decreases tunnels@.len() - i,
        {
            let tunnel = &tunnels[i];
            assert(all[i as int] == tunnel@);
            let ghost known = sample_views(samples@);
            let ghost mut used: u64 = 0;
            if tunnel.origin_authority().is_some() {
                let (send, recv) = counter_for(counters, tunnel.id.as_str());
                let at: usize = find_sample(&samples, tunnel.id.as_str());
                assert(has_origin(all[i as int]));
                assert(delta_fits(before, all[i as int].id, (send, recv)));
                if at < samples.len() {
                    proof {
                        lemma_tracked_place(known, tunnel@.id);
                        assert(known[at as int].0 == tunnel@.id);
                    }
                    let (id, state) = samples.remove(at);
                    assert(state@ == known[at as int].1);
                    let (next, Ghost(r)) = state.next(tunnel, send, recv, now, &rate);
                    samples.insert(at, (id, next));
                    proof {
                        used = r;
                        assert(sample_views(samples@) =~= known.update(
                            at as int,
                            (tunnel@.id, next@),
                        ));
                    }
                } else {
                    let state = TunnelSampleState {
                        label: tunnel.label.clone(),
                        online: tunnel_is_online(tunnel),
                        last_send: send,
                        last_recv: recv,
                        last_sample_at: now,
                        last_activity_at: None,
                        hourly_deltas: Vec::new(),
                        rate_per_s: 0,
                    };
                    assert(state@ == first_sample(tunnel@, send, recv, now));
                    let (next, Ghost(r)) = state.next(tunnel, send, recv, now, &rate);
                    samples.push((tunnel.id.clone(), next));
                    proof {
                        used = r;
                        assert(sample_views(samples@) =~= known.push((tunnel@.id, next@)));
                    }
                }
            }
            proof {
                let more = rates.push(used);
                lemma_ticked_prefix(before, all, counters@, now, rates, more, i as nat);
                assert(sample_views(samples@) == sampled(
                    known,
                    all[i as int],
                    counters@,
                    now,
                    used,
                ));
                lemma_sampled_up_to_date(before, known, all[i as int], counters@, now, used);
                assert forall|k: int| 0 <= k < i + 1 implies #[trigger] rates_from(
                    rate,
                    before,
                    all,
                    counters@,
                    now,
                    more,
                    k,
                ) by {
                    lemma_ticked_prefix(before, all, counters@, now, rates, more, k as nat);
                    if k < i {
                        assert(rates_from(rate, before, all, counters@, now, rates, k));
                    }
                }
                rates = more;
            }
            i += 1;
        }
        proof {
            law_tracked_are_listed(before, all, counters@, now, rates, all.len());
            assert forall|id: Seq<char>| #[trigger]
                is_tracked(sample_views(samples@), id) <==> stays_tracked(before, all, id) by {
                law_tracked_after_tick(before, all, counters@, now, rates, id);
            }
        }
        self.tunnels = samples;
    }

    /// Samples the metrics of the origin servers against the tunnels that are listed. Metrics go
    /// by host and port: tunnels to the same origin server share them.
    pub fn tick<F: Fn(u64, u128) -> u64>(
        &mut self,
        tunnels: &Vec<TunnelSummary>,
        metrics: &UpstreamMetrics,
        now: u128,
        rate: F,
    )
        requires
            traffic_fits(old(self)@, summary_views(tunnels@), metrics.origins@),
            forall|d: u64, e: u128| call_requires(rate, (d, e)),
        ensures
            exists|counters: Seq<(String, u64, u64)>, rates: Seq<u64>|
                {
                    &&& is_counters(counters, tunnels@, metrics.origins@)
                    &&& rates.len() == tunnels@.len()
                    &&& final(self)@ == #[trigger] ticked(
                        old(self)@,
                        summary_views(tunnels@),
                        counters,
                        now,
                        rates,
                        tunnels@.len(),
                    )
                    &&& forall|i: int|
                        0 <= i < rates.len() ==> #[trigger] rates_from(
                            rate,
                            old(self)@,
                            summary_views(tunnels@),
                            counters,
                            now,
                            rates,
                            i,
                        )
                },
            tracked_once(final(self)@),
            forall|id: Seq<char>| #[trigger]
                is_tracked(final(self)@, id) <==> stays_tracked(
                    old(self)@,
                    summary_views(tunnels@),
                    id,
                ),
    {
        let counters = tunnel_counters(tunnels, metrics);
        self.tick_counters(tunnels, &counters, now, rate);
    }

    /// Whether the traffic of each tracked tunnel fits in one counter.
    pub fn totals_fit(&self) -> (r: bool)
        ensures
            r == totals_fit(self@),
    {
        let mut i: usize = 0;
        while i < self.tunnels.len()
            invariant
                i <= self.tunnels@.len(),
                forall|k: int|
                    0 <= k < i ==> total((#[trigger] self@[k]).1.hourly_deltas) <= u64::MAX,
            decreases self.tunnels@.len() - i,
        {
            let deltas = &self.tunnels[i].1.hourly_deltas;
            assert(self@[i as int].1.hourly_deltas == deltas@);
            let mut acc: u64 = 0;
            let mut k: usize = 0;
            assert(deltas@.take(0) =~= Seq::<(u128, u64)>::empty());
            while k < deltas.len()
                invariant
                    i < self.tunnels@.len(),
                    self@[i as int].1.hourly_deltas == deltas@,
                    k <= deltas@.len(),
                    acc == total(deltas@.take(k as int)),
                decreases deltas@.len() - k,
            {
                assert(deltas@.take(k + 1).drop_last() =~= deltas@.take(k as int));
                if deltas[k].1 > u64::MAX - acc {
                    proof {
                        lemma_total_prefix(deltas@, k + 1);
                        assert(total(self@[i as int].1.hourly_deltas) > u64::MAX);
                    }
                    return false;
                }
                acc = acc + deltas[k].1;
                k += 1;
            }
            assert(deltas@.take(deltas@.len() as int) =~= deltas@);
            i += 1;
        }
        true
    }

    /// The tracked tunnels for display, those used last first, up to a limit. Tunnels without
    /// recent traffic are among them.
    pub fn recent_active(&self, limit: usize) -> (r: Vec<TunnelActivityEntry>)
        requires
            totals_fit(self@),
        ensures
            entry_views(r@) == shown(self@, limit as nat),
            forall|i: int, j: int|
                0 <= i < j < r@.len() ==> (#[trigger] r@[i]).tunnel_id@ != (
                #[trigger] r@[j]).tunnel_id@,
            forall|i: int| 0 <= i < r@.len() ==> is_tracked(self@, (#[trigger] r@[i]).tunnel_id@),
            forall|k: int, j: int|
                0 <= k < self@.len() && 0 <= j < r@.len() && !is_shown(
                    entry_views(r@),
                    (#[trigger] self@[k]).0,
                ) ==> !shown_first()(entry(self@[k]), (#[trigger] r@[j])@),
    {
        let ghost all = entries(self@);
        let mut out: Vec<TunnelActivityEntry> = Vec::new();
        let mut i: usize = 0;
        assert(all.take(0) =~= Seq::<EntryView>::empty());
        assert(entry_views(out@) =~= Seq::<EntryView>::empty());
        while i < self.tunnels.len()
            invariant
                i <= self.tunnels@.len(),
                all == entries(self@),
                totals_fit(self@),
                entry_views(out@) == sorted(all.take(i as int), shown_first()),
            decreases self.tunnels@.len() - i,
        {
            let (id, state) = &self.tunnels[i];
            assert(self@[i as int] == (id@, state@));
            let last_activity_at: u128 = match state.last_activity_at {
                Some(t) => t,
                None => state.last_sample_at,
            };
            let e = TunnelActivityEntry {
                tunnel_id: id.clone(),
                label: state.label.clone(),
                online: state.online,
                bytes_last_hour: sum(&state.hourly_deltas),
                rate_per_s: state.rate_per_s,
                last_activity_at,
            };
            let ghost upto = all.take(i + 1);
            assert(upto.drop_last() =~= all.take(i as int));
            assert(upto.last() == e@);
            let at: usize = entry_place(&out, &e);
            let ghost before = entry_views(out@);
            out.insert(at, e);
            assert(entry_views(out@) =~= before.insert(at as int, e@));
            i += 1;
        }
        assert(all.take(all.len() as int) =~= all);
        let ghost done = entry_views(out@);
        if limit < out.len() {
            out.truncate(limit);
            assert(entry_views(out@) =~= done.take(limit as int));
        }
        proof {
            use_type_invariant(&*self);
            law_shown(self@, limit as nat);
            law_shown_once(self@, limit as nat);
            let views = entry_views(out@);
            assert forall|i: int, j: int| 0 <= i < j < out@.len() implies (
            #[trigger] out@[i]).tunnel_id@ != (#[trigger] out@[j]).tunnel_id@ by {
                assert(views[i].tunnel_id != views[j].tunnel_id);
            }
            assert forall|i: int| 0 <= i < out@.len() implies is_tracked(
                self@,
                (#[trigger] out@[i]).tunnel_id@,
            ) by {
                assert(entries(self@).contains(views[i]));
                let k = choose|k: int| 0 <= k < entries(self@).len() && entries(self@)[k]
                    == views[i];
                assert(self@[k].0 == views[i].tunnel_id);
            }
            assert forall|k: int, j: int|
                0 <= k < self@.len() && 0 <= j < out@.len() && !is_shown(
                    views,
                    (#[trigger] self@[k]).0,
                ) implies !shown_first()(entry(self@[k]), (#[trigger] out@[j])@) by {
                if views.contains(entry(self@[k])) {
                    let m = choose|m: int| 0 <= m < views.len() && views[m] == entry(self@[k]);
                    assert(views[m].tunnel_id == self@[k].0);
                }
                assert(views[j] == out@[j]@);
            }
        }
        out
    }
}

fn entry_place(v: &Vec<TunnelActivityEntry>, x: &TunnelActivityEntry) -> (r: usize)
    ensures
        r == place(entry_views(v@), x@, shown_first()),
        r <= v@.len(),
{
    let ghost all = entry_views(v@);
    let x_active = x.bytes_last_hour > 0 || x.rate_per_s > 0;
    let mut i: usize = 0;
    assert(all.skip(0) =~= all);
    while i < v.len()
        invariant
            i <= v@.len(),
            all == entry_views(v@),
            x_active == is_active(x@),
            place(all, x@, shown_first()) == i + place(all.skip(i as int), x@, shown_first()),
        decreases v@.len() - i,
    {
        let ghost rest = all.skip(i as int);
        assert(rest.drop_first() =~= all.skip(i + 1));
        assert(rest[0] == v@[i as int]@);
        let active = v[i].bytes_last_hour > 0 || v[i].rate_per_s > 0;
        let first = if x_active != active {
            x_active
        } else {
            x.last_activity_at > v[i].last_activity_at
        };
        if first {
            return i;
        }
        i += 1;
    }
    i
}

proof fn lemma_tracked_place(known: Seq<(Seq<char>, SampleView)>, id: Seq<char>)
    ensures
        0 <= tracked_place(known, id) <= known.len(),
        tracked_place(known, id) < known.len() ==> known[tracked_place(known, id)].0 == id,
        forall|k: int| 0 <= k < tracked_place(known, id) ==> (#[trigger] known[k]).0 != id,
    decreases known.len(),
{
    if known.len() > 0 && known[0].0 != id {
        let rest = known.drop_first();
        lemma_tracked_place(rest, id);
        assert forall|k: int| 0 <= k < tracked_place(known, id) implies (
        #[trigger] known[k]).0 != id by {
            if k > 0 {
                assert(known[k] == rest[k - 1]);
            }
        }
    }
}

proof fn lemma_ticked_prefix(
    known: Seq<(Seq<char>, SampleView)>,
    tunnels: Seq<SummaryView>,
    counters: Seq<(String, u64, u64)>,
    now: u128,
    a: Seq<u64>,
    b: Seq<u64>,
    n: nat,
)
    requires
        n <= a.len() <= b.len(),
        forall|i: int| 0 <= i < a.len() ==> a[i] == b[i],
    ensures
        ticked(known, tunnels, counters, now, a, n) == ticked(
            known,
            tunnels,
            counters,
            now,
            b,
            n,
        ),
    decreases n,
{
    if n > 0 {
        lemma_ticked_prefix(known, tunnels, counters, now, a, b, (n - 1) as nat);
    }
}

// Metrics.

/// The bytes of the first origin server with the given host and port.
pub open spec fn origin_bytes(
    origins: Seq<(Authority, u64, u64)>,
    authority: (Seq<char>, u16),
) -> Option<(u64, u64)>
    decreases origins.len(),
{
    if origins.len() == 0 {
        None
    } else if origins[0].0@ == authority {
        Some((origins[0].1, origins[0].2))
    } else {
        origin_bytes(origins.drop_first(), authority)
    }
}

/// The other name of the local host.
pub open spec fn other_local(host: Seq<char>) -> Option<Seq<char>> {
    if host == "localhost"@ {
        Some("127.0.0.1"@)
    } else if host == "127.0.0.1"@ {
        Some("localhost"@)
    } else {
        None
    }
}

/// The bytes of a tunnel: those of its origin server, also under the other name of the local host;
/// none where nothing is known.
pub open spec fn tunnel_bytes(origins: Seq<(Authority, u64, u64)>, t: SummaryView) -> (u64, u64) {
    match host_port(stripped(url_parts(t.endpoint), t.endpoint)) {
        None => (0, 0),
        Some((host, port)) => match origin_bytes(origins, (host, port)) {
            Some(bytes) => bytes,
            None => match other_local(host) {
                Some(other) => match origin_bytes(origins, (other, port)) {
                    Some(bytes) => bytes,
                    None => (0, 0),
                },
                None => (0, 0),
            },
        },
    }
}

/// The counters are those of the tunnels, in their order.
pub open spec fn is_counters(
    counters: Seq<(String, u64, u64)>,
    tunnels: Seq<TunnelSummary>,
    origins: Seq<(Authority, u64, u64)>,
) -> bool {
    &&& counters.len() == tunnels.len()
    &&& forall|i: int|
        0 <= i < counters.len() ==> {
            &&& (#[trigger] counters[i]).0@ == tunnels[i].id@
            &&& (counters[i].1, counters[i].2) == tunnel_bytes(origins, tunnels[i]@)
        }
}

/// The bytes that are counted for the identifier: those of the last tunnel that has it.
pub open spec fn listed_bytes(
    origins: Seq<(Authority, u64, u64)>,
    tunnels: Seq<SummaryView>,
    id: Seq<char>,
) -> (u64, u64)
    decreases tunnels.len(),
{
    if tunnels.len() == 0 {
        (0, 0)
    } else if tunnels.last().id == id {
        tunnel_bytes(origins, tunnels.last())
    } else {
        listed_bytes(origins, tunnels.drop_last(), id)
    }
}

/// The bytes that each listed tunnel has had since its last sample fit in one number, given the
/// metrics as they are now.
pub open spec fn traffic_fits(
    known: Seq<(Seq<char>, SampleView)>,
    tunnels: Seq<SummaryView>,
    origins: Seq<(Authority, u64, u64)>,
) -> bool {
    forall|i: int|
        0 <= i < tunnels.len() && has_origin(#[trigger] tunnels[i]) ==> delta_fits(
            known,
            tunnels[i].id,
            listed_bytes(origins, tunnels, tunnels[i].id),
        )
}

proof fn lemma_counters(
    counters: Seq<(String, u64, u64)>,
    tunnels: Seq<TunnelSummary>,
    origins: Seq<(Authority, u64, u64)>,
    id: Seq<char>,
)
    requires
        is_counters(counters, tunnels, origins),
    ensures
        counter(counters, id) == listed_bytes(origins, summary_views(tunnels), id),
    decreases counters.len(),
{
    if counters.len() > 0 {
        lemma_counters(counters.drop_last(), tunnels.drop_last(), origins, id);
        assert(summary_views(tunnels).drop_last() =~= summary_views(tunnels.drop_last()));
        assert(counters.last() == counters[counters.len() - 1]);
    }
}

/// The counters of the tunnels, from the metrics of their origin servers.
pub fn tunnel_counters(tunnels: &Vec<TunnelSummary>, metrics: &UpstreamMetrics) -> (r: Vec<
    (String, u64, u64),
>)
    ensures
        is_counters(r@, tunnels@, metrics.origins@),
        forall|id: Seq<char>| #[trigger]
            counter(r@, id) == listed_bytes(metrics.origins@, summary_views(tunnels@), id),
{
    let mut counters: Vec<(String, u64, u64)> = Vec::new();
    let mut i: usize = 0;
    while i < tunnels.len()
        invariant
            i <= tunnels@.len(),
            counters@.len() == i,
            is_counters(counters@, tunnels@.take(i as int), metrics.origins@),
        decreases tunnels@.len() - i,
    {
        let (send, recv) = metrics_bytes_for_tunnel(metrics, &tunnels[i]);
        counters.push((tunnels[i].id.clone(), send, recv));
        i += 1;
    }
    assert(tunnels@.take(tunnels@.len() as int) =~= tunnels@);
    assert forall|id: Seq<char>| #[trigger]
        counter(counters@, id) == listed_bytes(metrics.origins@, summary_views(tunnels@), id) by {
        lemma_counters(counters@, tunnels@, metrics.origins@, id);
    }
    counters
}

impl UpstreamMetrics {
    /// The bytes of the first origin server with the given host and port.
    pub fn get(&self, host: &str, port: u16) -> (r: Option<(u64, u64)>)
        ensures
            r == origin_bytes(self.origins@, (host@, port)),
    {
        let ghost all = self.origins@;
        let mut i: usize = 0;
        assert(all.skip(0) =~= all);
        while i < self.origins.len()
            invariant
                i <= self.origins@.len(),
                all == self.origins@,
                origin_bytes(all, (host@, port)) == origin_bytes(
                    all.skip(i as int),
                    (host@, port),
                ),
            decreases self.origins@.len() - i,
        {
            let ghost rest = all.skip(i as int);
            assert(rest.drop_first() =~= all.skip(i + 1));
            assert(rest[0] == all[i as int]);
            let o = &self.origins[i];
            if same(o.0.host.as_str(), host) && o.0.port == port {
                return Some((o.1, o.2));
            }
            i += 1;
        }
        None
    }
}

/// The host and port under which an origin server may be known, the given one first.
pub fn authority_lookup_variants(authority: &Authority) -> (r: Vec<Authority>)
    ensures
        r@.len() == (if other_local(authority.host@) is Some {
            2int
        } else {
            1int
        }),
        r@[0]@ == authority@,
        other_local(authority.host@) matches Some(other) ==> r@[1]@ == (other, authority.port),
{
    let mut variants: Vec<Authority> = Vec::new();
    variants.push(Authority { host: authority.host.clone(), port: authority.port });
    if same(authority.host.as_str(), "localhost") {
        variants.push(Authority { host: "127.0.0.1".to_owned(), port: authority.port });
    } else if same(authority.host.as_str(), "127.0.0.1") {
        variants.push(Authority { host: "localhost".to_owned(), port: authority.port });
    }
    variants
}

/// The bytes of a tunnel, from its origin server and to it.
pub fn metrics_bytes_for_tunnel(metrics: &UpstreamMetrics, tunnel: &TunnelSummary) -> (r: (u64, u64))
    ensures
        r == tunnel_bytes(metrics.origins@, tunnel@),
{
    let authority = match tunnel.origin_authority() {
        Some(a) => a,
        None => {
            return (0, 0);
        },
    };
    let variants = authority_lookup_variants(&authority);
    if let Some(bytes) = metrics.get(variants[0].host.as_str(), variants[0].port) {
        return bytes;
    }
    if variants.len() > 1 {
        if let Some(bytes) = metrics.get(variants[1].host.as_str(), variants[1].port) {
            return bytes;
        }
    }
    (0, 0)
}

// What holds of the tracker as a whole.

proof fn lemma_retained(
    known: Seq<(Seq<char>, SampleView)>,
    tunnels: Seq<SummaryView>,
)
    requires
        tracked_once(known),
    ensures
        tracked_once(retained(known, tunnels)),
        forall|i: int|
            0 <= i < retained(known, tunnels).len() ==> known.contains(
                #[trigger] retained(known, tunnels)[i],
            ) && listed_id(tunnels, retained(known, tunnels)[i].0),
    decreases known.len(),
{
    if known.len() > 0 {
        let front = known.drop_last();
        lemma_retained(front, tunnels);
        let rest = retained(front, tunnels);
        let all = retained(known, tunnels);
        assert forall|i: int| 0 <= i < all.len() implies known.contains(#[trigger] all[i])
            && listed_id(tunnels, all[i].0) by {
            if i < rest.len() {
                assert(all[i] == rest[i]);
                let k = choose|k: int| 0 <= k < front.len() && front[k] == rest[i];
                assert(known[k] == all[i]);
            } else {
                assert(known[known.len() - 1] == all[i]);
            }
        }
        assert forall|i: int, j: int| 0 <= i < j < all.len() implies (#[trigger] all[i]).0 != (
        #[trigger] all[j]).0 by {
            assert(all[i] == rest[i]);
            if j < rest.len() {
                assert(all[j] == rest[j]);
            } else {
                let k = choose|k: int| 0 <= k < front.len() && front[k] == rest[i];
                assert(known[k] == rest[i]);
                assert(known[known.len() - 1] == all[j]);
            }
        }
    }
}

/// Sampling tracks no tunnel twice, and none that is not listed.
pub proof fn law_tracked_are_listed(
    known: Seq<(Seq<char>, SampleView)>,
    tunnels: Seq<SummaryView>,
    counters: Seq<(String, u64, u64)>,
    now: u128,
    rates: Seq<u64>,
    n: nat,
)
    requires
        tracked_once(known),
        n <= tunnels.len(),
    ensures
        tracked_once(ticked(known, tunnels, counters, now, rates, n)),
        forall|i: int|
            0 <= i < ticked(known, tunnels, counters, now, rates, n).len() ==> listed_id(
                tunnels,
                (#[trigger] ticked(known, tunnels, counters, now, rates, n)[i]).0,
            ),
    decreases n,
{
    if n == 0 {
        lemma_retained(known, tunnels);
    } else {
        law_tracked_are_listed(known, tunnels, counters, now, rates, (n - 1) as nat);
        let before = ticked(known, tunnels, counters, now, rates, (n - 1) as nat);
        let all = ticked(known, tunnels, counters, now, rates, n);
        let t = tunnels[n - 1];
        lemma_tracked_place(before, t.id);
        let p = tracked_place(before, t.id);
        assert forall|i: int| 0 <= i < all.len() implies listed_id(tunnels, (#[trigger] all[i]).0) by {
            if i < before.len() {
                assert(all[i].0 == before[i].0);
            } else {
                assert(all[i].0 == tunnels[n - 1].id);
            }
        }
        assert forall|i: int, j: int| 0 <= i < j < all.len() implies (#[trigger] all[i]).0 != (
        #[trigger] all[j]).0 by {
            assert(all[i].0 == before[i].0);
            if j < before.len() {
                assert(all[j].0 == before[j].0);
            }
        }
    }
}

proof fn lemma_retained_tracks(
    known: Seq<(Seq<char>, SampleView)>,
    tunnels: Seq<SummaryView>,
    id: Seq<char>,
)
    ensures
        is_tracked(retained(known, tunnels), id) <==> is_tracked(known, id) && listed_id(
            tunnels,
            id,
        ),
        forall|i: int|
            0 <= i < retained(known, tunnels).len() ==> known.contains(
                #[trigger] retained(known, tunnels)[i],
            ),
    decreases known.len(),
{
    if known.len() > 0 {
        let front = known.drop_last();
        lemma_retained_tracks(front, tunnels, id);
        let rest = retained(front, tunnels);
        let all = retained(known, tunnels);
        assert forall|i: int| 0 <= i < all.len() implies known.contains(#[trigger] all[i]) by {
            if i < rest.len() {
                assert(all[i] == rest[i]);
                let k = choose|k: int| 0 <= k < front.len() && front[k] == rest[i];
                assert(known[k] == all[i]);
            } else {
                assert(known[known.len() - 1] == all[i]);
            }
        }
        if is_tracked(known, id) && listed_id(tunnels, id) {
            let k = choose|k: int| 0 <= k < known.len() && known[k].0 == id;
            if k < front.len() {
                assert(front[k].0 == id);
                let m = choose|m: int| 0 <= m < rest.len() && rest[m].0 == id;
                assert(all[m].0 == id);
            } else {
                assert(all[rest.len() as int].0 == id);
            }
        }
        if is_tracked(all, id) {
            let m = choose|m: int| 0 <= m < all.len() && all[m].0 == id;
            if m < rest.len() {
                assert(rest[m].0 == id);
                let k = choose|k: int| 0 <= k < front.len() && front[k].0 == id;
                assert(known[k].0 == id);
            } else {
                assert(known[known.len() - 1].0 == id);
            }
        }
    }
}

proof fn lemma_retained_up_to_date(
    known: Seq<(Seq<char>, SampleView)>,
    tunnels: Seq<SummaryView>,
    counters: Seq<(String, u64, u64)>,
)
    requires
        tracked_once(known),
    ensures
        up_to_date(known, retained(known, tunnels), counters),
{
    let all = retained(known, tunnels);
    lemma_retained(known, tunnels);
    assert forall|k: int| 0 <= k < all.len() implies tracked_place(known, (#[trigger] all[k]).0)
        < known.len() && known[tracked_place(known, all[k].0)].1 == all[k].1 by {
        assert(known.contains(all[k]));
        let m = choose|m: int| 0 <= m < known.len() && known[m] == all[k];
        lemma_tracked_place(known, all[k].0);
        let p = tracked_place(known, all[k].0);
        assert(p <= m);
        if p < m {
            assert(known[p].0 != known[m].0);
        }
    }
}

proof fn lemma_sampled_up_to_date(
    start: Seq<(Seq<char>, SampleView)>,
    known: Seq<(Seq<char>, SampleView)>,
    t: SummaryView,
    counters: Seq<(String, u64, u64)>,
    now: u128,
    rate: u64,
)
    requires
        up_to_date(start, known, counters),
    ensures
        up_to_date(start, sampled(known, t, counters, now, rate), counters),
{
    let all = sampled(known, t, counters, now, rate);
    lemma_tracked_place(known, t.id);
    let p = tracked_place(known, t.id);
    assert forall|k: int| 0 <= k < all.len() implies {
        let e = #[trigger] all[k];
        ||| (e.1.last_send, e.1.last_recv) == counter(counters, e.0)
        ||| tracked_place(start, e.0) < start.len() && start[tracked_place(start, e.0)].1 == e.1
    } by {
        if has_origin(t) && k == p {
            assert(all[k].0 == t.id);
        } else {
            assert(all[k] == known[k]);
        }
    }
}

proof fn lemma_ticked_tracks(
    known: Seq<(Seq<char>, SampleView)>,
    tunnels: Seq<SummaryView>,
    counters: Seq<(String, u64, u64)>,
    now: u128,
    rates: Seq<u64>,
    n: nat,
    id: Seq<char>,
)
    requires
        n <= tunnels.len(),
    ensures
        is_tracked(ticked(known, tunnels, counters, now, rates, n), id) <==> listed_id(tunnels, id)
            && (is_tracked(known, id) || names_origin(tunnels.take(n as int), id)),
    decreases n,
{
    if n == 0 {
        lemma_retained_tracks(known, tunnels, id);
    } else {
        lemma_ticked_tracks(known, tunnels, counters, now, rates, (n - 1) as nat, id);
        let before = ticked(known, tunnels, counters, now, rates, (n - 1) as nat);
        let all = ticked(known, tunnels, counters, now, rates, n);
        let t = tunnels[n - 1];
        let shorter = tunnels.take(n - 1);
        let longer = tunnels.take(n as int);
        lemma_tracked_place(before, t.id);
        let p = tracked_place(before, t.id);
        if names_origin(shorter, id) {
            let k = choose|k: int|
                0 <= k < shorter.len() && shorter[k].id == id && has_origin(shorter[k]);
            assert(longer[k] == shorter[k]);
        }
        if t.id == id && has_origin(t) {
            assert(longer[n - 1] == t);
            assert(tunnels[n - 1].id == id);
            assert(all[p].0 == id);
        } else if names_origin(longer, id) {
            let k = choose|k: int|
                0 <= k < longer.len() && longer[k].id == id && has_origin(longer[k]);
            assert(shorter[k] == longer[k]);
        }
        if is_tracked(before, id) {
            let k = choose|k: int| 0 <= k < before.len() && before[k].0 == id;
            assert(all[k].0 == id);
        }
        if is_tracked(all, id) && !(t.id == id && has_origin(t)) {
            let k = choose|k: int| 0 <= k < all.len() && all[k].0 == id;
            assert(before[k].0 == id);
        }
    }
}

/// A tunnel is tracked after a tick if and only if it is listed, and was tracked before or its
/// endpoint names an origin server.
pub proof fn law_tracked_after_tick(
    known: Seq<(Seq<char>, SampleView)>,
    tunnels: Seq<SummaryView>,
    counters: Seq<(String, u64, u64)>,
    now: u128,
    rates: Seq<u64>,
    id: Seq<char>,
)
    ensures
        is_tracked(ticked(known, tunnels, counters, now, rates, tunnels.len()), id)
            <==> stays_tracked(known, tunnels, id),
{
    lemma_ticked_tracks(known, tunnels, counters, now, rates, tunnels.len(), id);
    assert(tunnels.take(tunnels.len() as int) =~= tunnels);
}

/// The sample says of no traffic.
pub open spec fn is_fresh(s: SampleView) -> bool {
    &&& s.hourly_deltas.len() == 0
    &&& s.rate_per_s == 0
    &&& s.last_activity_at is None
}

proof fn lemma_newcomer(
    known: Seq<(Seq<char>, SampleView)>,
    tunnels: Seq<SummaryView>,
    counters: Seq<(String, u64, u64)>,
    now: u128,
    rates: Seq<u64>,
    n: nat,
    id: Seq<char>,
)
    requires
        n <= tunnels.len(),
        !is_tracked(known, id),
    ensures
        forall|i: int|
            0 <= i < ticked(known, tunnels, counters, now, rates, n).len() ==> {
                let e = #[trigger] ticked(known, tunnels, counters, now, rates, n)[i];
                e.0 == id ==> is_fresh(e.1) && (e.1.last_send, e.1.last_recv) == counter(
                    counters,
                    id,
                )
            },
    decreases n,
{
    let all = ticked(known, tunnels, counters, now, rates, n);
    if n == 0 {
        lemma_retained_tracks(known, tunnels, id);
        assert forall|i: int| 0 <= i < all.len() implies (#[trigger] all[i]).0 != id by {
            if all[i].0 == id {
                assert(is_tracked(all, id));
            }
        }
    } else {
        lemma_newcomer(known, tunnels, counters, now, rates, (n - 1) as nat, id);
        let before = ticked(known, tunnels, counters, now, rates, (n - 1) as nat);
        let t = tunnels[n - 1];
        lemma_tracked_place(before, t.id);
        let p = tracked_place(before, t.id);
        assert forall|i: int| 0 <= i < all.len() && (#[trigger] all[i]).0 == id implies is_fresh(
            all[i].1,
        ) && (all[i].1.last_send, all[i].1.last_recv) == counter(counters, id) by {
            if has_origin(t) && i == p {
                if p < before.len() {
                    assert(before[p].0 == id);
                }
            } else {
                assert(all[i] == before[i]);
            }
        }
    }
}

/// A tunnel that was not tracked starts anew: after the tick in which it is first sampled it has
/// had no traffic.
pub proof fn law_newcomer_starts_anew(
    known: Seq<(Seq<char>, SampleView)>,
    tunnels: Seq<SummaryView>,
    counters: Seq<(String, u64, u64)>,
    now: u128,
    rates: Seq<u64>,
    i: int,
)
    requires
        0 <= i < ticked(known, tunnels, counters, now, rates, tunnels.len()).len(),
        !is_tracked(known, ticked(known, tunnels, counters, now, rates, tunnels.len())[i].0),
    ensures
        entry(ticked(known, tunnels, counters, now, rates, tunnels.len())[i]).bytes_last_hour == 0,
        entry(ticked(known, tunnels, counters, now, rates, tunnels.len())[i]).rate_per_s == 0,
{
    let e = ticked(known, tunnels, counters, now, rates, tunnels.len())[i];
    lemma_newcomer(known, tunnels, counters, now, rates, tunnels.len(), e.0);
}

/// A tunnel that is gone from the list in one tick and is listed again in the next has lost its
/// history.
pub proof fn law_history_is_lost(
    known: Seq<(Seq<char>, SampleView)>,
    gone: Seq<SummaryView>,
    counters: Seq<(String, u64, u64)>,
    at: u128,
    rates: Seq<u64>,
    back: Seq<SummaryView>,
    next_counters: Seq<(String, u64, u64)>,
    next_at: u128,
    next_rates: Seq<u64>,
    id: Seq<char>,
    i: int,
)
    requires
        !listed_id(gone, id),
        ({
            let between = ticked(known, gone, counters, at, rates, gone.len());
            let after = ticked(between, back, next_counters, next_at, next_rates, back.len());
            0 <= i < after.len() && after[i].0 == id
        }),
    ensures
        ({
            let between = ticked(known, gone, counters, at, rates, gone.len());
            let after = ticked(between, back, next_counters, next_at, next_rates, back.len());
            !is_tracked(between, id) && entry(after[i]).bytes_last_hour == 0 && entry(
                after[i],
            ).rate_per_s == 0
        }),
{
    let between = ticked(known, gone, counters, at, rates, gone.len());
    law_tracked_after_tick(known, gone, counters, at, rates, id);
    law_newcomer_starts_anew(between, back, next_counters, next_at, next_rates, i);
}

/// The display shows tracked tunnels in an order in which tunnels with traffic come first and those
/// used last come before others. It shows all of them if the limit leaves room, with or without
/// traffic; with less room none that is left out comes before one that is shown.
pub proof fn law_shown(known: Seq<(Seq<char>, SampleView)>, limit: nat)
    ensures
        crate::sorting::is_order(shown_first()),
        crate::sorting::in_order(shown(known, limit), shown_first()),
        shown(known, limit).len() == (if limit < known.len() {
            limit
        } else {
            known.len()
        }),
        limit >= known.len() ==> shown(known, limit).to_multiset() == entries(
            known,
        ).to_multiset(),
        forall|j: int|
            0 <= j < shown(known, limit).len() ==> entries(known).contains(
                #[trigger] shown(known, limit)[j],
            ),
        forall|k: int, j: int|
            0 <= k < known.len() && 0 <= j < shown(known, limit).len() && !shown(
                known,
                limit,
            ).contains(entry(#[trigger] known[k])) ==> !shown_first()(
                entry(known[k]),
                #[trigger] shown(known, limit)[j],
            ),
{
    broadcast use vstd::seq_lib::group_to_multiset_ensures;

    let lt = shown_first();
    let given = entries(known);
    assert(crate::sorting::is_order(lt));
    crate::sorting::law_sorted(given, lt);
    let all = sorted(given, lt);
    let out = shown(known, limit);
    assert forall|j: int| 0 <= j < out.len() implies given.contains(#[trigger] out[j]) by {
        assert(out[j] == all[j]);
        assert(all.contains(all[j]));
        assert(all.to_multiset().count(all[j]) > 0);
    }
    assert forall|k: int, j: int|
        0 <= k < known.len() && 0 <= j < out.len() && !out.contains(
            entry(#[trigger] known[k]),
        ) implies !lt(entry(known[k]), #[trigger] out[j]) by {
        assert(given[k] == entry(known[k]));
        assert(given.contains(given[k]));
        assert(given.to_multiset().count(given[k]) > 0);
        assert(all.contains(given[k]));
        let m = choose|m: int| 0 <= m < all.len() && all[m] == given[k];
        if m < out.len() {
            assert(out[m] == given[k]);
        }
        assert(out[j] == all[j]);
    }
}

/// Entries of different tunnels.
spec fn ids_apart(s: Seq<EntryView>) -> bool {
    forall|i: int, j: int|
        0 <= i < j < s.len() ==> (#[trigger] s[i]).tunnel_id != (#[trigger] s[j]).tunnel_id
}

proof fn lemma_sorted_ids_apart(s: Seq<EntryView>, lt: spec_fn(EntryView, EntryView) -> bool)
    requires
        crate::sorting::is_order(lt),
        ids_apart(s),
    ensures
        ids_apart(sorted(s, lt)),
    decreases s.len(),
{
    broadcast use vstd::seq_lib::group_to_multiset_ensures;

    if s.len() > 0 {
        let front = s.drop_last();
        lemma_sorted_ids_apart(front, lt);
        crate::sorting::law_sorted(front, lt);
        let t = sorted(front, lt);
        let x = s.last();
        let p = place(t, x, lt);
        crate::sorting::lemma_place(t, x, lt);
        let r = t.insert(p, x);
        assert forall|k: int| 0 <= k < t.len() implies (#[trigger] t[k]).tunnel_id
            != x.tunnel_id by {
            assert(t.contains(t[k]));
            assert(t.to_multiset().count(t[k]) > 0);
            assert(front.contains(t[k]));
            let m = choose|m: int| 0 <= m < front.len() && front[m] == t[k];
            assert(s[m].tunnel_id != s[s.len() - 1].tunnel_id);
        }
        assert forall|i: int, j: int| 0 <= i < j < r.len() implies (#[trigger] r[i]).tunnel_id != (
        #[trigger] r[j]).tunnel_id by {
            if j < p {
                assert(r[i] == t[i] && r[j] == t[j]);
            } else if j == p {
                assert(r[i] == t[i]);
            } else if i < p {
                assert(r[i] == t[i] && r[j] == t[j - 1]);
            } else if i == p {
                assert(r[j] == t[j - 1]);
            } else {
                assert(r[i] == t[i - 1] && r[j] == t[j - 1]);
            }
        }
    }
}

/// The display shows no tunnel twice.
pub proof fn law_shown_once(known: Seq<(Seq<char>, SampleView)>, limit: nat)
    requires
        tracked_once(known),
    ensures
        forall|i: int, j: int|
            0 <= i < j < shown(known, limit).len() ==> (#[trigger] shown(
                known,
                limit,
            )[i]).tunnel_id != (#[trigger] shown(known, limit)[j]).tunnel_id,
{
    let given = entries(known);
    law_shown(known, limit);
    assert forall|i: int, j: int| 0 <= i < j < given.len() implies (#[trigger] given[i]).tunnel_id
        != (#[trigger] given[j]).tunnel_id by {
        assert(known[i].0 != known[j].0);
    }
    lemma_sorted_ids_apart(given, shown_first());
    let all = sorted(given, shown_first());
    let out = shown(known, limit);
    assert forall|i: int, j: int| 0 <= i < j < out.len() implies (#[trigger] out[i]).tunnel_id != (
    #[trigger] out[j]).tunnel_id by {
        assert(out[i] == all[i] && out[j] == all[j]);
    }
}

/// The deltas are in the order of time, and none lies in the future.
pub open spec fn in_time(deltas: Seq<(u128, u64)>, now: u128) -> bool {
    &&& forall|i: int, j: int|
        0 <= i < j < deltas.len() ==> (#[trigger] deltas[i]).0 <= (#[trigger] deltas[j]).0
    &&& forall|i: int| 0 <= i < deltas.len() ==> (#[trigger] deltas[i]).0 <= now
}

/// The bytes of the deltas that are at most sixty minutes old.
pub open spec fn recent_bytes(deltas: Seq<(u128, u64)>, now: u128) -> nat
    decreases deltas.len(),
{
    if deltas.len() == 0 {
        0
    } else {
        recent_bytes(deltas.drop_last(), now) + (if deltas.last().0 + 3_600_000_000_000 >= now {
            deltas.last().1 as nat
        } else {
            0
        })
    }
}

proof fn lemma_recent_split(deltas: Seq<(u128, u64)>, now: u128, k: int)
    requires
        0 <= k <= deltas.len(),
        forall|i: int| 0 <= i < k ==> (#[trigger] deltas[i]).0 + 3_600_000_000_000 < now,
        forall|i: int| k <= i < deltas.len() ==> (#[trigger] deltas[i]).0 + 3_600_000_000_000 >= now,
    ensures
        recent_bytes(deltas, now) == total(deltas.skip(k)),
    decreases deltas.len(),
{
    if deltas.len() > 0 {
        let front = deltas.drop_last();
        if k < deltas.len() {
            lemma_recent_split(front, now, k);
            assert(deltas.skip(k).drop_last() =~= front.skip(k));
        } else {
            lemma_recent_split(front, now, k - 1);
            assert(front.skip(k - 1) =~= deltas.skip(k));
        }
    } else {
        assert(deltas.skip(k) =~= deltas);
    }
}

/// Where the deltas are in the order of time, those that are kept are exactly those at most sixty
/// minutes old, in their order, so that their sum is all that went through in the last hour.
pub proof fn law_within_hour(deltas: Seq<(u128, u64)>, now: u128)
    requires
        forall|i: int, j: int|
            0 <= i < j < deltas.len() ==> (#[trigger] deltas[i]).0 <= (#[trigger] deltas[j]).0,
    ensures
        forall|i: int|
            0 <= i < within_hour(deltas, now).len() ==> (#[trigger] within_hour(
                deltas,
                now,
            )[i]).0 + HOUR >= now,
        exists|k: int|
            0 <= k <= deltas.len() && within_hour(deltas, now) == #[trigger] deltas.skip(k) && (
            forall|i: int|
                0 <= i < k ==> (#[trigger] deltas[i]).0 + 3_600_000_000_000 < now) && forall|i: int|
                k <= i < deltas.len() ==> (#[trigger] deltas[i]).0 + 3_600_000_000_000 >= now,
        total(within_hour(deltas, now)) == recent_bytes(deltas, now),
    decreases deltas.len(),
{
    let left = within_hour(deltas, now);
    if deltas.len() > 0 && deltas[0].0 + HOUR < now {
        let rest = deltas.drop_first();
        assert forall|i: int, j: int| 0 <= i < j < rest.len() implies (#[trigger] rest[i]).0 <= (
        #[trigger] rest[j]).0 by {
            assert(deltas[i + 1].0 <= deltas[j + 1].0);
        }
        law_within_hour(rest, now);
        assert(left == within_hour(rest, now));
        let k = choose|k: int|
            0 <= k <= rest.len() && within_hour(rest, now) == #[trigger] rest.skip(k) && (forall|
                i: int,
            |
                0 <= i < k ==> (#[trigger] rest[i]).0 + 3_600_000_000_000 < now) && forall|i: int|
                k <= i < rest.len() ==> (#[trigger] rest[i]).0 + 3_600_000_000_000 >= now;
        assert(deltas.skip(k + 1) =~= rest.skip(k));
        assert forall|i: int| 0 <= i < k + 1 implies (#[trigger] deltas[i]).0 + 3_600_000_000_000
            < now by {
            if i > 0 {
                assert(deltas[i] == rest[i - 1]);
            }
        }
        assert forall|i: int| k + 1 <= i < deltas.len() implies (#[trigger] deltas[i]).0
            + 3_600_000_000_000 >= now by {
            assert(deltas[i] == rest[i - 1]);
        }
        lemma_recent_split(deltas, now, k + 1);
        assert forall|i: int| 0 <= i < left.len() implies (#[trigger] left[i]).0 + HOUR >= now by {
            assert(within_hour(rest, now)[i].0 + HOUR >= now);
        }
    } else {
        assert(left == deltas);
        assert(deltas.skip(0) =~= deltas);
        assert forall|i: int| 0 <= i < deltas.len() implies (#[trigger] deltas[i]).0
            + 3_600_000_000_000 >= now by {
            assert(0 < i ==> deltas[0].0 <= deltas[i].0);
        }
        lemma_recent_split(deltas, now, 0);
        assert forall|i: int| 0 <= i < left.len() implies (#[trigger] left[i]).0 + HOUR >= now by {
            assert(0 < i ==> deltas[0].0 <= deltas[i].0);
        }
    }
}

/// What the display shows of a tunnel after a sample: what is listed of it, what it has had in the
/// last hour with what has come since the last sample, and when it was last used. A counter that
/// went back starts anew: nothing is counted until the next sample.
pub proof fn law_sample(
    id: Seq<char>,
    s: SampleView,
    t: SummaryView,
    send: u64,
    recv: u64,
    now: u128,
    rate: u64,
)
    requires
        in_time(s.hourly_deltas, now),
        send >= s.last_send && recv >= s.last_recv ==> (send - s.last_send) + (recv - s.last_recv)
            <= u64::MAX,
    ensures
        ({
            let next = next_sample(s, t, send, recv, now, rate);
            let e = entry((id, next));
            let came = (send - s.last_send) + (recv - s.last_recv);
            &&& e.tunnel_id == id
            &&& e.label == t.label
            &&& e.online == (t.enabled && t.accepted && t.programmed)
            &&& next.last_send == send && next.last_recv == recv && next.last_sample_at == now
            &&& in_time(next.hourly_deltas, now)
            &&& if send >= s.last_send && recv >= s.last_recv {
                &&& e.bytes_last_hour == recent_bytes(s.hourly_deltas, now) + came
                &&& came > 0 ==> e.rate_per_s == rate && next.last_activity_at == Some(now)
                    && e.last_activity_at == now
                &&& came == 0 ==> e.rate_per_s == 0 && next.last_activity_at == s.last_activity_at
            } else {
                &&& e.bytes_last_hour == total(s.hourly_deltas)
                &&& e.rate_per_s == 0
                &&& next.last_activity_at == s.last_activity_at
            }
            &&& next.last_activity_at is None ==> e.last_activity_at == now
        }),
{
    let next = next_sample(s, t, send, recv, now, rate);
    if send >= s.last_send && recv >= s.last_recv {
        let d = delta(s, send, recv);
        let more = if d > 0 {
            s.hourly_deltas.push((now, d as u64))
        } else {
            s.hourly_deltas
        };
        assert forall|i: int, j: int| 0 <= i < j < more.len() implies (#[trigger] more[i]).0 <= (
        #[trigger] more[j]).0 by {
            assert(more[i] == s.hourly_deltas[i]);
            if j < s.hourly_deltas.len() {
                assert(more[j] == s.hourly_deltas[j]);
            }
        }
        law_within_hour(more, now);
        if d > 0 {
            assert(more.drop_last() =~= s.hourly_deltas);
        }
        let k = choose|k: int|
            0 <= k <= more.len() && within_hour(more, now) == #[trigger] more.skip(k) && (forall|
                i: int,
            |
                0 <= i < k ==> (#[trigger] more[i]).0 + 3_600_000_000_000 < now) && forall|i: int|
                k <= i < more.len() ==> (#[trigger] more[i]).0 + 3_600_000_000_000 >= now;
        let kept = next.hourly_deltas;
        assert(kept == more.skip(k));
        assert forall|i: int, j: int| 0 <= i < j < kept.len() implies (#[trigger] kept[i]).0 <= (
        #[trigger] kept[j]).0 by {
            assert(kept[i] == more[i + k] && kept[j] == more[j + k]);
        }
        assert forall|i: int| 0 <= i < kept.len() implies (#[trigger] kept[i]).0 <= now by {
            assert(kept[i] == more[i + k]);
        }
    }
}

/// What a tunnel's counters say at a point in time, with the rate that its traffic comes to.
pub struct Reading {
    pub send: u64,
    pub recv: u64,
    pub now: u128,
    pub rate: u64,
}

/// The sample of a tunnel after a row of readings.
pub open spec fn sampled_through(s: SampleView, t: SummaryView, readings: Seq<Reading>) -> SampleView
    decreases readings.len(),
{
    if readings.len() == 0 {
        s
    } else {
        let r = readings.last();
        next_sample(
            sampled_through(s, t, readings.drop_last()),
            t,
            r.send,
            r.recv,
            r.now,
            r.rate,
        )
    }
}

/// Neither the clock nor the counters go back from one reading to the next.
pub open spec fn only_rises(readings: Seq<Reading>) -> bool {
    forall|i: int, j: int|
        0 <= i < j < readings.len() ==> {
            let a = #[trigger] readings[i];
            let b = #[trigger] readings[j];
            a.send <= b.send && a.recv <= b.recv && a.now <= b.now
        }
}

/// Traffic is neither lost nor counted twice: within an hour of the first reading, a tunnel has had
/// as many bytes as its counters have risen by since then, however often they were read between.
pub proof fn law_traffic_is_counted(t: SummaryView, first: Reading, readings: Seq<Reading>)
    requires
        only_rises(seq![first] + readings),
        readings.len() > 0 ==> readings.last().now <= first.now + 3_600_000_000_000
            && readings.last().send - first.send + readings.last().recv - first.recv <= u64::MAX,
    ensures
        ({
            let s = sampled_through(
                first_sample(t, first.send, first.recv, first.now),
                t,
                readings,
            );
            let last = (seq![first] + readings).last();
            &&& s.last_send == last.send && s.last_recv == last.recv
            &&& in_time(s.hourly_deltas, last.now)
            &&& forall|i: int|
                0 <= i < s.hourly_deltas.len() ==> (#[trigger] s.hourly_deltas[i]).0 >= first.now
            &&& total(s.hourly_deltas) == (last.send - first.send) + (last.recv - first.recv)
        }),
    decreases readings.len(),
{
    let start = first_sample(t, first.send, first.recv, first.now);
    let all = seq![first] + readings;
    let s = sampled_through(start, t, readings);
    if readings.len() > 0 {
        let before = readings.drop_last();
        let r = readings.last();
        assert(seq![first] + before =~= all.drop_last());
        let older = (seq![first] + before).last();
        assert(older == all[all.len() - 2]);
        assert(r == all[all.len() - 1]);
        assert(first == all[0]);
        if before.len() > 0 {
            assert(before.last() == older);
        }
        law_traffic_is_counted(t, first, before);
        let p = sampled_through(start, t, before);
        assert(in_time(p.hourly_deltas, r.now));
        law_sample(Seq::empty(), p, t, r.send, r.recv, r.now, r.rate);
        assert forall|i: int| 0 <= i < p.hourly_deltas.len() implies (
        #[trigger] p.hourly_deltas[i]).0 + 3_600_000_000_000 >= r.now by {}
        lemma_recent_split(p.hourly_deltas, r.now, 0);
        assert(p.hourly_deltas.skip(0) =~= p.hourly_deltas);
        let d = delta(p, r.send, r.recv);
        let more = if d > 0 {
            p.hourly_deltas.push((r.now, d as u64))
        } else {
            p.hourly_deltas
        };
        assert forall|i: int, j: int| 0 <= i < j < more.len() implies (#[trigger] more[i]).0 <= (
        #[trigger] more[j]).0 by {
            assert(more[i] == p.hourly_deltas[i]);
        }
        law_within_hour(more, r.now);
        let k = choose|k: int|
            0 <= k <= more.len() && within_hour(more, r.now) == #[trigger] more.skip(k) && (forall|
                i: int,
            |
                0 <= i < k ==> (#[trigger] more[i]).0 + 3_600_000_000_000 < r.now) && forall|i: int|
                k <= i < more.len() ==> (#[trigger] more[i]).0 + 3_600_000_000_000 >= r.now;
        assert forall|i: int| 0 <= i < s.hourly_deltas.len() implies (
        #[trigger] s.hourly_deltas[i]).0 >= first.now by {
            assert(s.hourly_deltas[i] == more[i + k]);
        }
    }
}

/// A tunnel that nothing has gone through for more than an hour shows no bytes.
pub proof fn law_silence_is_shown(
    id: Seq<char>,
    s: SampleView,
    t: SummaryView,
    now: u128,
    rate: u64,
)
    requires
        in_time(s.hourly_deltas, now),
        forall|i: int|
            0 <= i < s.hourly_deltas.len() ==> (#[trigger] s.hourly_deltas[i]).0 + 3_600_000_000_000
                < now,
    ensures
        entry(
            (id, next_sample(s, t, s.last_send, s.last_recv, now, rate)),
        ).bytes_last_hour == 0,
{
    law_sample(id, s, t, s.last_send, s.last_recv, now, rate);
    lemma_recent_split(s.hourly_deltas, now, s.hourly_deltas.len() as int);
    assert(s.hourly_deltas.skip(s.hourly_deltas.len() as int).len() == 0);
}

/// No two of the tunnels have the same identifier.
pub open spec fn ids_differ(tunnels: Seq<SummaryView>) -> bool {
    forall|i: int, j: int|
        0 <= i < j < tunnels.len() ==> (#[trigger] tunnels[i]).id != (#[trigger] tunnels[j]).id
}

proof fn lemma_retained_keeps(
    known: Seq<(Seq<char>, SampleView)>,
    tunnels: Seq<SummaryView>,
    e: (Seq<char>, SampleView),
)
    requires
        known.contains(e),
        listed_id(tunnels, e.0),
    ensures
        retained(known, tunnels).contains(e),
    decreases known.len(),
{
    let front = known.drop_last();
    let rest = retained(front, tunnels);
    let all = retained(known, tunnels);
    if known.last() == e {
        assert(all[rest.len() as int] == e);
    } else {
        let k = choose|k: int| 0 <= k < known.len() && known[k] == e;
        assert(front[k] == e);
        lemma_retained_keeps(front, tunnels, e);
        let m = choose|m: int| 0 <= m < rest.len() && rest[m] == e;
        assert(all[m] == e);
    }
}

proof fn lemma_sampled_keeps(
    known: Seq<(Seq<char>, SampleView)>,
    t: SummaryView,
    counters: Seq<(String, u64, u64)>,
    now: u128,
    rate: u64,
    e: (Seq<char>, SampleView),
)
    requires
        known.contains(e),
        e.0 != t.id || !has_origin(t),
    ensures
        sampled(known, t, counters, now, rate).contains(e),
{
    let all = sampled(known, t, counters, now, rate);
    lemma_tracked_place(known, t.id);
    let k = choose|k: int| 0 <= k < known.len() && known[k] == e;
    assert(all[k] == e);
}

proof fn lemma_ticked_sample(
    known: Seq<(Seq<char>, SampleView)>,
    tunnels: Seq<SummaryView>,
    counters: Seq<(String, u64, u64)>,
    now: u128,
    rates: Seq<u64>,
    i: int,
    s: SampleView,
    n: nat,
)
    requires
        tracked_once(known),
        ids_differ(tunnels),
        0 <= i < tunnels.len(),
        n <= tunnels.len(),
        known.contains((tunnels[i].id, s)),
    ensures
        ({
            let t = tunnels[i];
            let (send, recv) = counter(counters, t.id);
            ticked(known, tunnels, counters, now, rates, n).contains(
                (
                    t.id,
                    if i < n && has_origin(t) {
                        next_sample(s, t, send, recv, now, rates[i])
                    } else {
                        s
                    },
                ),
            )
        }),
    decreases n,
{
    let t = tunnels[i];
    let (send, recv) = counter(counters, t.id);
    if n == 0 {
        assert(listed_id(tunnels, t.id));
        lemma_retained_keeps(known, tunnels, (t.id, s));
    } else {
        lemma_ticked_sample(known, tunnels, counters, now, rates, i, s, (n - 1) as nat);
        let before = ticked(known, tunnels, counters, now, rates, (n - 1) as nat);
        let u = tunnels[n - 1];
        if n - 1 == i && has_origin(t) {
            law_tracked_are_listed(known, tunnels, counters, now, rates, (n - 1) as nat);
            lemma_tracked_place(before, t.id);
            let p = tracked_place(before, t.id);
            let k = choose|k: int| 0 <= k < before.len() && before[k] == (t.id, s);
            if p < k {
                assert(before[p].0 != before[k].0);
            }
            assert(p == k);
            let all = ticked(known, tunnels, counters, now, rates, n);
            assert(all[p] == (t.id, next_sample(s, t, send, recv, now, rates[i])));
        } else {
            if n - 1 != i {
                assert(u.id != t.id) by {
                    if n - 1 < i {
                        assert(tunnels[n - 1].id != tunnels[i].id);
                    } else {
                        assert(tunnels[i].id != tunnels[n - 1].id);
                    }
                }
            }
            let x = if i < n - 1 && has_origin(t) {
                next_sample(s, t, send, recv, now, rates[i])
            } else {
                s
            };
            lemma_sampled_keeps(before, u, counters, now, rates[n - 1], (t.id, x));
        }
    }
}

/// A tick samples each tracked tunnel that is listed with the counters of that tunnel, from the
/// sample that there was of that tunnel; one whose endpoint names no origin server stays as it is.
pub proof fn law_tick_samples_each(
    known: Seq<(Seq<char>, SampleView)>,
    tunnels: Seq<SummaryView>,
    counters: Seq<(String, u64, u64)>,
    now: u128,
    rates: Seq<u64>,
    i: int,
    s: SampleView,
)
    requires
        tracked_once(known),
        ids_differ(tunnels),
        0 <= i < tunnels.len(),
        known.contains((tunnels[i].id, s)),
    ensures
        ({
            let t = tunnels[i];
            let (send, recv) = counter(counters, t.id);
            ticked(known, tunnels, counters, now, rates, tunnels.len()).contains(
                (
                    t.id,
                    if has_origin(t) {
                        next_sample(s, t, send, recv, now, rates[i])
                    } else {
                        s
                    },
                ),
            )
        }),
{
    lemma_ticked_sample(known, tunnels, counters, now, rates, i, s, tunnels.len());
}

/// The counters of a tunnel are those given last under its identifier; a tunnel without any has
/// had nothing.
pub proof fn law_counter(counters: Seq<(String, u64, u64)>, id: Seq<char>)
    ensures
        (forall|i: int| 0 <= i < counters.len() ==> (#[trigger] counters[i]).0@ != id) ==> counter(
            counters,
            id,
        ) == (0u64, 0u64),
        forall|i: int|
            0 <= i < counters.len() && (#[trigger] counters[i]).0@ == id && (forall|k: int|
                i < k < counters.len() ==> (#[trigger] counters[k]).0@ != id) ==> counter(
                counters,
                id,
            ) == (counters[i].1, counters[i].2),
    decreases counters.len(),
{
    if counters.len() > 0 {
        let front = counters.drop_last();
        law_counter(front, id);
        assert(counters[counters.len() - 1] == counters.last());
        assert forall|i: int|
            0 <= i < counters.len() && (#[trigger] counters[i]).0@ == id && (forall|k: int|
                i < k < counters.len() ==> (#[trigger] counters[k]).0@ != id) implies counter(
            counters,
            id,
        ) == (counters[i].1, counters[i].2) by {
            if i < front.len() {
                assert(counters[counters.len() - 1].0@ != id);
                assert(front[i] == counters[i]);
                assert forall|k: int| i < k < front.len() implies (#[trigger] front[k]).0@ != id by {
                    assert(front[k] == counters[k]);
                }
            }
        }
        if forall|i: int| 0 <= i < counters.len() ==> (#[trigger] counters[i]).0@ != id {
            assert forall|i: int| 0 <= i < front.len() implies (#[trigger] front[i]).0@ != id by {
                assert(front[i] == counters[i]);
            }
        }
    }
}

/// The display puts tunnels with traffic before those without, and among alike ones the one used
/// last first; a tunnel is left out only for want of room, and then after all that are shown.
pub proof fn law_shown_in_order(known: Seq<(Seq<char>, SampleView)>, limit: nat)
    ensures
        forall|i: int, j: int|
            0 <= i < j < shown(known, limit).len() ==> comes_first(
                #[trigger] shown(known, limit)[i],
                #[trigger] shown(known, limit)[j],
            ),
        forall|k: int, j: int|
            0 <= k < known.len() && 0 <= j < shown(known, limit).len() && !shown(
                known,
                limit,
            ).contains(entry(#[trigger] known[k])) ==> comes_first(
                #[trigger] shown(known, limit)[j],
                entry(known[k]),
            ),
{
    law_shown(known, limit);
    let out = shown(known, limit);
    let lt = shown_first();
    assert forall|i: int, j: int| 0 <= i < j < out.len() implies comes_first(
        #[trigger] out[i],
        #[trigger] out[j],
    ) by {
        assert(!lt(out[j], out[i]));
    }
    assert forall|k: int, j: int|
        0 <= k < known.len() && 0 <= j < out.len() && !out.contains(
            entry(#[trigger] known[k]),
        ) implies comes_first(#[trigger] out[j], entry(known[k])) by {
        assert(!lt(entry(known[k]), out[j]));
    }
}

/// The first entry may stand before the second: it has had traffic or the second has not, and where
/// they are alike in that it was not used earlier.
pub open spec fn comes_first(a: EntryView, b: EntryView) -> bool {
    let a_used = a.bytes_last_hour > 0 || a.rate_per_s > 0;
    let b_used = b.bytes_last_hour > 0 || b.rate_per_s > 0;
    &&& b_used ==> a_used
    &&& a_used == b_used ==> a.last_activity_at >= b.last_activity_at
}

/// A tunnel has the bytes of the origin server that its endpoint names, under the name that is
/// written there or, for the local host, under its other name; none where neither is known.
pub proof fn law_tunnel_bytes(
    origins: Seq<(Authority, u64, u64)>,
    t: SummaryView,
    host: Seq<char>,
    port: u16,
    other: Seq<char>,
)
    requires
        host_port(stripped(url_parts(t.endpoint), t.endpoint)) == Some((host, port)),
    ensures
        forall|i: int|
            0 <= i < origins.len() && (#[trigger] origins[i]).0@ == (host, port) && (forall|k: int|
                0 <= k < i ==> (#[trigger] origins[k]).0@ != (host, port)) ==> tunnel_bytes(
                origins,
                t,
            ) == (origins[i].1, origins[i].2),
        (forall|k: int| 0 <= k < origins.len() ==> (#[trigger] origins[k]).0@ != (host, port))
            && (host == "localhost"@ && other == "127.0.0.1"@ || host == "127.0.0.1"@ && other
            == "localhost"@) ==> forall|i: int|
            0 <= i < origins.len() && (#[trigger] origins[i]).0@ == (other, port) && (forall|k: int|
                0 <= k < i ==> (#[trigger] origins[k]).0@ != (other, port)) ==> tunnel_bytes(
                origins,
                t,
            ) == (origins[i].1, origins[i].2),
        (forall|k: int|
            0 <= k < origins.len() ==> (#[trigger] origins[k]).0@ != (host, port) && !((host
                == "localhost"@ || host == "127.0.0.1"@) && (origins[k].0@ == ("localhost"@, port)
                || origins[k].0@ == ("127.0.0.1"@, port)))) ==> tunnel_bytes(origins, t) == (
            0u64,
            0u64,
        ),
{
    reveal_strlit("localhost");
    reveal_strlit("127.0.0.1");
    lemma_origin_bytes(origins, (host, port));
    lemma_origin_bytes(origins, ("localhost"@, port));
    lemma_origin_bytes(origins, ("127.0.0.1"@, port));
}

proof fn lemma_origin_bytes(origins: Seq<(Authority, u64, u64)>, a: (Seq<char>, u16))
    ensures
        (forall|k: int| 0 <= k < origins.len() ==> (#[trigger] origins[k]).0@ != a) ==> origin_bytes(
            origins,
            a,
        ) is None,
        forall|i: int|
            0 <= i < origins.len() && (#[trigger] origins[i]).0@ == a && (forall|k: int|
                0 <= k < i ==> (#[trigger] origins[k]).0@ != a) ==> origin_bytes(origins, a)
                == Some((origins[i].1, origins[i].2)),
    decreases origins.len(),
{
    if origins.len() > 0 {
        let rest = origins.drop_first();
        lemma_origin_bytes(rest, a);
        assert forall|i: int|
            0 <= i < origins.len() && (#[trigger] origins[i]).0@ == a && (forall|k: int|
                0 <= k < i ==> (#[trigger] origins[k]).0@ != a) implies origin_bytes(origins, a)
            == Some((origins[i].1, origins[i].2)) by {
            if i > 0 {
                assert(origins[0].0@ != a);
                assert(rest[i - 1] == origins[i]);
                assert forall|k: int| 0 <= k < i - 1 implies (#[trigger] rest[k]).0@ != a by {
                    assert(rest[k] == origins[k + 1]);
                }
            }
        }
        if forall|k: int| 0 <= k < origins.len() ==> (#[trigger] origins[k]).0@ != a {
            assert(origins[0].0@ != a);
            assert forall|k: int| 0 <= k < rest.len() implies (#[trigger] rest[k]).0@ != a by {
                assert(rest[k] == origins[k + 1]);
            }
        }
    }
}

/// The bytes that are counted for a tunnel are those of its origin server, where no other tunnel
/// has its identifier.
pub proof fn law_listed_bytes(
    origins: Seq<(Authority, u64, u64)>,
    tunnels: Seq<SummaryView>,
    i: int,
)
    requires
        0 <= i < tunnels.len(),
        ids_differ(tunnels),
    ensures
        listed_bytes(origins, tunnels, tunnels[i].id) == tunnel_bytes(origins, tunnels[i]),
    decreases tunnels.len(),
{
    let front = tunnels.drop_last();
    if i < front.len() {
        assert(tunnels[i].id != tunnels[tunnels.len() - 1].id);
        assert forall|a: int, b: int| 0 <= a < b < front.len() implies (#[trigger] front[a]).id != (
        #[trigger] front[b]).id by {
            assert(front[a] == tunnels[a] && front[b] == tunnels[b]);
        }
        assert(front[i] == tunnels[i]);
        law_listed_bytes(origins, front, i);
    }
}

/// The counters of a row of tunnels hold, for each of them, the bytes of its origin server.
pub proof fn law_counters_of_tunnels(
    counters: Seq<(String, u64, u64)>,
    tunnels: Seq<TunnelSummary>,
    origins: Seq<(Authority, u64, u64)>,
    i: int,
)
    requires
        is_counters(counters, tunnels, origins),
        0 <= i < tunnels.len(),
    ensures
        counters.len() == tunnels.len(),
        counters[i].0@ == tunnels[i].id@,
        (counters[i].1, counters[i].2) == tunnel_bytes(origins, tunnels[i]@),
{
}

/// The samples can be taken exactly if what each tunnel with an origin server has had since its last
/// sample fits in one number; one that is new or whose counters went back has had nothing yet.
pub proof fn law_deltas_fit(
    known: Seq<(Seq<char>, SampleView)>,
    tunnels: Seq<SummaryView>,
    counters: Seq<(String, u64, u64)>,
    i: int,
    k: int,
)
    requires
        deltas_fit(known, tunnels, counters),
        0 <= i < tunnels.len(),
        has_origin(tunnels[i]),
        0 <= k < known.len(),
        known[k].0 == tunnels[i].id,
        tracked_once(known),
    ensures
        ({
            let s = known[k].1;
            let (send, recv) = counter(counters, tunnels[i].id);
            send >= s.last_send && recv >= s.last_recv ==> (send - s.last_send) + (recv
                - s.last_recv) <= u64::MAX
        }),
{
    lemma_tracked_place(known, tunnels[i].id);
    let p = tracked_place(known, tunnels[i].id);
    assert(p == k) by {
        if p < k {
            assert(known[p].0 != known[k].0);
        } else if k < p {
            assert(known[k].0 != tunnels[i].id);
        }
    }
    assert(delta_fits(known, tunnels[i].id, counter(counters, tunnels[i].id)));
}

} // verus!
