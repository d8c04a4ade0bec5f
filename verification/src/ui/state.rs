//! What the application holds: the tunnels last listed, those being deleted, and the selection.
use crate::agent::{TunnelMetric, TunnelView};
use crate::rows::{lemma_picks_next, lemma_picks_none, picks};
use crate::text::{any_same, same, views};
use crate::tunnels::{summary_views, SummaryView, TunnelSummary};
use vstd::prelude::*;

verus! {

/// The state behind the windows.
#[derive(Debug)]
pub struct AppState {
    tunnel_cache: Vec<TunnelSummary>,
    /// Tunnels that were deleted here and may still be listed for a while. They are not shown
    /// until the list no longer has them.
    pending_deletions: Vec<String>,
    /// Whether the quota for new tunnels is used up; none if it is not known.
    quota_exhausted: Option<bool>,
}

/// What the state holds.
pub struct AppStateView {
    pub tunnels: Seq<SummaryView>,
    pub pending: Set<Seq<char>>,
    pub quota_exhausted: Option<bool>,
}

/// The texts of a row, as a set.
pub open spec fn text_set(v: Seq<String>) -> Set<Seq<char>> {
    views(v).to_set()
}

impl View for AppState {
    type V = AppStateView;

    closed spec fn view(&self) -> AppStateView {
        AppStateView {
            tunnels: summary_views(self.tunnel_cache@),
            pending: text_set(self.pending_deletions@),
            quota_exhausted: self.quota_exhausted,
        }
    }
}

/// The place of the first tunnel with the identifier, or the number of tunnels.
pub open spec fn tunnel_place(tunnels: Seq<SummaryView>, id: Seq<char>) -> int
    decreases tunnels.len(),
{
    if tunnels.len() == 0 || tunnels[0].id == id {
        0
    } else {
        1 + tunnel_place(tunnels.drop_first(), id)
    }
}

/// The tunnels with one put in: in place of the first with its identifier, else at the end.
pub open spec fn upserted(tunnels: Seq<SummaryView>, t: SummaryView) -> Seq<SummaryView> {
    let i = tunnel_place(tunnels, t.id);
    if i < tunnels.len() {
        tunnels.update(i, t)
    } else {
        tunnels.push(t)
    }
}

/// The tunnels without those that have the identifier.
pub open spec fn without(tunnels: Seq<SummaryView>, id: Seq<char>) -> Seq<SummaryView>
    decreases tunnels.len(),
{
    if tunnels.len() == 0 {
        tunnels
    } else {
        let rest = without(tunnels.drop_last(), id);
        if tunnels.last().id != id {
            rest.push(tunnels.last())
        } else {
            rest
        }
    }
}

/// The tunnels that are not being deleted.
pub open spec fn not_pending(tunnels: Seq<SummaryView>, pending: Set<Seq<char>>) -> Seq<SummaryView>
    decreases tunnels.len(),
{
    if tunnels.len() == 0 {
        tunnels
    } else {
        let rest = not_pending(tunnels.drop_last(), pending);
        if !pending.contains(tunnels.last().id) {
            rest.push(tunnels.last())
        } else {
            rest
        }
    }
}

fn find_tunnel(tunnels: &Vec<TunnelSummary>, id: &str) -> (r: usize)
    ensures
        r == tunnel_place(summary_views(tunnels@), id@),
        r <= tunnels@.len(),
{
    let ghost all = summary_views(tunnels@);
    let mut i: usize = 0;
    assert(all.skip(0) =~= all);
    while i < tunnels.len()
        invariant
            i <= tunnels@.len(),
            all == summary_views(tunnels@),
            tunnel_place(all, id@) == i + tunnel_place(all.skip(i as int), id@),
        decreases tunnels@.len() - i,
    {
        let ghost rest = all.skip(i as int);
        assert(rest.drop_first() =~= all.skip(i + 1));
        assert(rest[0] == tunnels@[i as int]@);
        if same(tunnels[i].id.as_str(), id) {
            return i;
        }
        i += 1;
    }
    i
}

impl AppState {
    /// The state at the start: nothing listed, nothing being deleted, the quota unknown.
    pub fn new() -> (r: AppState)
        ensures
            r@.tunnels.len() == 0,
            r@.pending == Set::<Seq<char>>::empty(),
            r@.quota_exhausted is None,
    {
        let r = AppState {
            tunnel_cache: Vec::new(),
            pending_deletions: Vec::new(),
            quota_exhausted: None,
        };
        assert(r@.pending =~= Set::<Seq<char>>::empty());
        r
    }

    pub fn tunnel_cache(&self) -> (r: &Vec<TunnelSummary>)
        ensures
            summary_views(r@) == self@.tunnels,
    {
        &self.tunnel_cache
    }

    pub fn set_tunnel_cache(&mut self, tunnels: Vec<TunnelSummary>)
        ensures
            final(self)@ == (AppStateView { tunnels: summary_views(tunnels@), ..old(self)@ }),
    {
        self.tunnel_cache = tunnels;
    }

    pub fn tunnel_create_quota(&self) -> (r: Option<bool>)
        ensures
            r == self@.quota_exhausted,
    {
        self.quota_exhausted
    }

    pub fn set_tunnel_create_quota(&mut self, quota_exhausted: Option<bool>)
        ensures
            final(self)@ == (AppStateView { quota_exhausted, ..old(self)@ }),
    {
        self.quota_exhausted = quota_exhausted;
    }

    /// Another project was selected: its quota is not known yet.
    pub fn set_selected_context(&mut self)
        ensures
            final(self)@ == (AppStateView { quota_exhausted: None, ..old(self)@ }),
    {
        self.quota_exhausted = None;
    }

    /// Puts a tunnel into the list, in place of the one with its identifier if there is one.
    pub fn upsert_tunnel(&mut self, tunnel: TunnelSummary)
        ensures
            final(self)@ == (AppStateView {
                tunnels: upserted(old(self)@.tunnels, tunnel@),
                ..old(self)@
            }),
    {
        let ghost before = self@.tunnels;
        let at: usize = find_tunnel(&self.tunnel_cache, tunnel.id.as_str());
        if at < self.tunnel_cache.len() {
            self.tunnel_cache.set(at, tunnel);
            assert(self@.tunnels =~= before.update(at as int, tunnel@));
        } else {
            self.tunnel_cache.push(tunnel);
            assert(self@.tunnels =~= before.push(tunnel@));
        }
    }

    /// Takes a tunnel out of the list.
    pub fn remove_tunnel(&mut self, tunnel_id: &str)
        ensures
            final(self)@ == (AppStateView {
                tunnels: without(old(self)@.tunnels, tunnel_id@),
                ..old(self)@
            }),
    {
        let ghost all = self@.tunnels;
        let ghost start = self@;
        let mut out: Vec<TunnelSummary> = Vec::new();
        let mut i: usize = 0;
        assert(all.take(0) =~= Seq::<SummaryView>::empty());
        assert(summary_views(out@) =~= Seq::<SummaryView>::empty());
        while i < self.tunnel_cache.len()
            invariant
                i <= self.tunnel_cache@.len(),
                all == summary_views(self.tunnel_cache@),
                self@ == start,
                summary_views(out@) == without(all.take(i as int), tunnel_id@),
            decreases self.tunnel_cache@.len() - i,
        {
            let ghost upto = all.take(i + 1);
            assert(upto.drop_last() =~= all.take(i as int));
            assert(upto.last() == self.tunnel_cache@[i as int]@);
            let ghost before = summary_views(out@);
            if !same(self.tunnel_cache[i].id.as_str(), tunnel_id) {
                let t = self.tunnel_cache[i].copy();
                out.push(t);
                assert(summary_views(out@) =~= before.push(t@));
            }
            i += 1;
        }
        assert(all.take(all.len() as int) =~= all);
        self.tunnel_cache = out;
    }

    /// Notes that a tunnel is being deleted.
    pub fn add_pending_deletion(&mut self, tunnel_id: String)
        ensures
            final(self)@ == (AppStateView {
                pending: old(self)@.pending.insert(tunnel_id@),
                ..old(self)@
            }),
    {
        let ghost before = views(self.pending_deletions@);
        let ghost id = tunnel_id@;
        if any_same(&self.pending_deletions, tunnel_id.as_str()) {
            assert(before.to_set().insert(id) =~= before.to_set());
        } else {
            self.pending_deletions.push(tunnel_id);
            proof {
                let after = views(self.pending_deletions@);
                assert(after =~= before.push(id));
                assert forall|x: Seq<char>|
                    after.to_set().contains(x) == before.to_set().insert(id).contains(x) by {
                    if before.contains(x) {
                        let k = choose|k: int| 0 <= k < before.len() && before[k] == x;
                        assert(after[k] == x);
                    }
                    if x == id {
                        assert(after[before.len() as int] == x);
                    }
                    if after.contains(x) {
                        let k = choose|k: int| 0 <= k < after.len() && after[k] == x;
                        if k < before.len() {
                            assert(before[k] == x);
                        }
                    }
                }
                assert(after.to_set() =~= before.to_set().insert(id));
            }
        }
    }

    /// Whether a tunnel is being deleted.
    pub fn is_pending_deletion(&self, tunnel_id: &str) -> (r: bool)
        ensures
            r == self@.pending.contains(tunnel_id@),
    {
        any_same(&self.pending_deletions, tunnel_id)
    }

    /// Forgets the tunnels being deleted that are no longer listed, so that a tunnel made again
    /// under the same name can be shown.
    pub fn reconcile_pending_deletions(&mut self, api_ids: &Vec<String>)
        ensures
            final(self)@ == (AppStateView {
                pending: old(self)@.pending.intersect(text_set(api_ids@)),
                ..old(self)@
            }),
    {
        let ghost start = self@;
        let ghost all = views(self.pending_deletions@);
        let ghost listed = text_set(api_ids@);
        let mut out: Vec<String> = Vec::new();
        let mut i: usize = 0;
        while i < self.pending_deletions.len()
            invariant
                i <= self.pending_deletions@.len(),
                all == views(self.pending_deletions@),
                listed == text_set(api_ids@),
                self@ == start,
                forall|k: int|
                    0 <= k < out@.len() ==> all.contains((#[trigger] out@[k])@) && listed.contains(
                        out@[k]@,
                    ),
                forall|k: int|
                    0 <= k < i && listed.contains(#[trigger] all[k]) ==> views(out@).contains(
                        all[k],
                    ),
            decreases self.pending_deletions@.len() - i,
        {
            let id = &self.pending_deletions[i];
            assert(all[i as int] == id@);
            let ghost before = views(out@);
            if any_same(api_ids, id.as_str()) {
                out.push(id.clone());
                proof {
                    let after = views(out@);
                    assert(after =~= before.push(id@));
                    assert(after[before.len() as int] == id@);
                    assert forall|k: int|
                        0 <= k < i + 1 && listed.contains(#[trigger] all[k]) implies after.contains(
                        all[k],
                    ) by {
                        if k < i {
                            let j = choose|j: int| 0 <= j < before.len() && before[j] == all[k];
                            assert(after[j] == all[k]);
                        }
                    }
                }
            }
            i += 1;
        }
        proof {
            let after = views(out@);
            assert forall|x: Seq<char>|
                after.to_set().contains(x) == all.to_set().intersect(listed).contains(x) by {
                if after.contains(x) {
                    let k = choose|k: int| 0 <= k < after.len() && after[k] == x;
                    assert(out@[k]@ == x);
                }
                if all.contains(x) && listed.contains(x) {
                    let k = choose|k: int| 0 <= k < all.len() && all[k] == x;
                    assert(listed.contains(all[k]));
                }
            }
            assert(after.to_set() =~= all.to_set().intersect(listed));
        }
        self.pending_deletions = out;
    }

    /// The listed tunnels to show: those that are not being deleted, in their order.
    pub fn visible(&self, listed: &Vec<TunnelSummary>) -> (r: Vec<TunnelSummary>)
        ensures
            summary_views(r@) == not_pending(summary_views(listed@), self@.pending),
    {
        let ghost all = summary_views(listed@);
        let mut out: Vec<TunnelSummary> = Vec::new();
        let mut i: usize = 0;
        assert(all.take(0) =~= Seq::<SummaryView>::empty());
        assert(summary_views(out@) =~= Seq::<SummaryView>::empty());
        while i < listed.len()
            invariant
                i <= listed@.len(),
                all == summary_views(listed@),
                summary_views(out@) == not_pending(all.take(i as int), self@.pending),
            decreases listed@.len() - i,
        {
            let ghost upto = all.take(i + 1);
            assert(upto.drop_last() =~= all.take(i as int));
            assert(upto.last() == listed@[i as int]@);
            let ghost before = summary_views(out@);
            if !self.is_pending_deletion(listed[i].id.as_str()) {
                let t = listed[i].copy();
                out.push(t);
                assert(summary_views(out@) =~= before.push(t@));
            }
            i += 1;
        }
        assert(all.take(all.len() as int) =~= all);
        out
    }
}

/// The tunnels that descriptions describe, in their order.
pub fn summaries_of(descriptions: Vec<TunnelView>) -> (r: Vec<TunnelSummary>)
    ensures
        r@.len() == descriptions@.len(),
        forall|i: int| 0 <= i < r@.len() ==> (#[trigger] r@[i])@ == descriptions@[i].summary(),
{
    let mut descriptions = descriptions;
    let ghost whole = descriptions@;
    let mut out: Vec<TunnelSummary> = Vec::new();
    while descriptions.len() > 0
        invariant
            out@.len() <= whole.len(),
            descriptions@ == whole.skip(out@.len() as int),
            forall|k: int| 0 <= k < out@.len() ==> (#[trigger] out@[k])@ == whole[k].summary(),
        decreases descriptions@.len(),
    {
        let d = descriptions.remove(0);
        assert(d == whole[out@.len() as int]);
        out.push(d.into_summary());
        assert(descriptions@ =~= whole.skip(out@.len() as int));
    }
    out
}

/// The counters of the tunnels that the agent's metrics give.
pub fn tunnel_byte_counters(metrics: &Vec<TunnelMetric>) -> (r: Vec<(String, u64, u64)>)
    ensures
        r@.len() == metrics@.len(),
        forall|i: int|
            0 <= i < r@.len() ==> #[trigger] r@[i] == (
                metrics@[i].id,
                metrics@[i].bytes_from_origin,
                metrics@[i].bytes_to_origin,
            ),
{
    let mut out: Vec<(String, u64, u64)> = Vec::new();
    let mut i: usize = 0;
    while i < metrics.len()
        invariant
            i <= metrics@.len(),
            out@.len() == i,
            forall|k: int|
                0 <= k < i ==> #[trigger] out@[k] == (
                    metrics@[k].id,
                    metrics@[k].bytes_from_origin,
                    metrics@[k].bytes_to_origin,
                ),
        decreases metrics@.len() - i,
    {
        out.push((metrics[i].id.clone(), metrics[i].bytes_from_origin, metrics[i].bytes_to_origin));
        i += 1;
    }
    out
}

proof fn lemma_tunnel_place(tunnels: Seq<SummaryView>, id: Seq<char>)
    ensures
        0 <= tunnel_place(tunnels, id) <= tunnels.len(),
        tunnel_place(tunnels, id) < tunnels.len() ==> tunnels[tunnel_place(tunnels, id)].id == id,
        forall|k: int| 0 <= k < tunnel_place(tunnels, id) ==> (#[trigger] tunnels[k]).id != id,
    decreases tunnels.len(),
{
    if tunnels.len() > 0 && tunnels[0].id != id {
        let rest = tunnels.drop_first();
        lemma_tunnel_place(rest, id);
        assert forall|k: int| 0 <= k < tunnel_place(tunnels, id) implies (
        #[trigger] tunnels[k]).id != id by {
            if k > 0 {
                assert(tunnels[k] == rest[k - 1]);
            }
        }
    }
}

/// A tunnel that was put in is found as it was put in, and every other tunnel keeps its place.
pub proof fn law_upserted_is_found(tunnels: Seq<SummaryView>, t: SummaryView)
    ensures
        ({
            let all = upserted(tunnels, t);
            let i = tunnel_place(all, t.id);
            &&& i < all.len()
            &&& all[i] == t
            &&& forall|k: int|
                0 <= k < tunnels.len() && k != i ==> #[trigger] all[k] == tunnels[k]
        }),
        upserted(upserted(tunnels, t), t) == upserted(tunnels, t),
{
    let all = upserted(tunnels, t);
    lemma_tunnel_place(tunnels, t.id);
    lemma_tunnel_place(all, t.id);
    let p = tunnel_place(tunnels, t.id);
    let q = tunnel_place(all, t.id);
    assert(all[p].id == t.id);
    if q < p {
        assert(all[q].id == tunnels[q].id);
    }
    assert(q == p);
    assert(upserted(all, t) =~= all);
}

/// No tunnel that was taken out is left, and every other one is kept.
pub proof fn law_removed_is_gone(tunnels: Seq<SummaryView>, id: Seq<char>)
    ensures
        forall|k: int| 0 <= k < without(tunnels, id).len() ==> (#[trigger] without(tunnels, id)[k]).id
            != id,
        forall|k: int|
            0 <= k < tunnels.len() && (#[trigger] tunnels[k]).id != id ==> without(
                tunnels,
                id,
            ).contains(tunnels[k]),
    decreases tunnels.len(),
{
    if tunnels.len() > 0 {
        let front = tunnels.drop_last();
        law_removed_is_gone(front, id);
        let rest = without(front, id);
        let all = without(tunnels, id);
        assert forall|k: int| 0 <= k < all.len() implies (#[trigger] all[k]).id != id by {
            if k < rest.len() {
                assert(all[k] == rest[k]);
            }
        }
        assert forall|k: int|
            0 <= k < tunnels.len() && (#[trigger] tunnels[k]).id != id implies all.contains(
            tunnels[k],
        ) by {
            if k < front.len() {
                assert(front[k] == tunnels[k]);
                let j = choose|j: int| 0 <= j < rest.len() && rest[j] == tunnels[k];
                assert(all[j] == tunnels[k]);
            } else {
                assert(all[rest.len() as int] == tunnels[k]);
            }
        }
    }
}

/// A tunnel that is being deleted is not shown while the list still has it, and may be shown again
/// once the list has been without it.
pub proof fn law_pending_not_shown(
    tunnels: Seq<SummaryView>,
    pending: Set<Seq<char>>,
    api_ids: Set<Seq<char>>,
    id: Seq<char>,
)
    ensures
        pending.contains(id) ==> forall|k: int|
            0 <= k < not_pending(tunnels, pending).len() ==> (#[trigger] not_pending(
                tunnels,
                pending,
            )[k]).id != id,
        !api_ids.contains(id) ==> !pending.intersect(api_ids).contains(id),
        api_ids.contains(id) && pending.contains(id) ==> pending.intersect(api_ids).contains(id),
    decreases tunnels.len(),
{
    if tunnels.len() > 0 {
        law_pending_not_shown(tunnels.drop_last(), pending, api_ids, id);
        let rest = not_pending(tunnels.drop_last(), pending);
        let all = not_pending(tunnels, pending);
        if pending.contains(id) {
            assert forall|k: int| 0 <= k < all.len() implies (#[trigger] all[k]).id != id by {
                if k < rest.len() {
                    assert(all[k] == rest[k]);
                }
            }
        }
    }
}

/// Taking a tunnel out keeps exactly the others, in their order; the tunnels to show are exactly
/// those that are not being deleted, in their order.
pub proof fn law_kept_tunnels(tunnels: Seq<SummaryView>, id: Seq<char>, pending: Set<Seq<char>>)
    ensures
        picks(
            tunnels,
            |t: SummaryView|
                if t.id == id {
                    None
                } else {
                    Some(t)
                },
            without(tunnels, id),
        ),
        picks(
            tunnels,
            |t: SummaryView|
                if pending.contains(t.id) {
                    None
                } else {
                    Some(t)
                },
            not_pending(tunnels, pending),
        ),
    decreases tunnels.len(),
{
    let f = |t: SummaryView|
        if t.id == id {
            None
        } else {
            Some(t)
        };
    let g = |t: SummaryView|
        if pending.contains(t.id) {
            None
        } else {
            Some(t)
        };
    if tunnels.len() == 0 {
        lemma_picks_none(tunnels, f, without(tunnels, id));
        lemma_picks_none(tunnels, g, not_pending(tunnels, pending));
    } else {
        let front = tunnels.drop_last();
        law_kept_tunnels(front, id, pending);
        lemma_picks_next(tunnels, f, without(front, id), without(tunnels, id));
        lemma_picks_next(tunnels, g, not_pending(front, pending), not_pending(tunnels, pending));
    }
}

/// A tunnel that is put in takes the place of the first one with its identifier, or else the last
/// place.
pub proof fn law_upserted(tunnels: Seq<SummaryView>, t: SummaryView, i: int)
    requires
        0 <= i <= tunnels.len(),
        forall|k: int| 0 <= k < i ==> (#[trigger] tunnels[k]).id != t.id,
        i < tunnels.len() ==> tunnels[i].id == t.id,
    ensures
        upserted(tunnels, t) == (if i < tunnels.len() {
            tunnels.update(i, t)
        } else {
            tunnels.push(t)
        }),
{
    lemma_tunnel_place(tunnels, t.id);
    let p = tunnel_place(tunnels, t.id);
    if p < i {
        assert(tunnels[p].id == t.id);
    }
    if i < p {
        assert(tunnels[i].id != t.id);
    }
}

} // verus!
