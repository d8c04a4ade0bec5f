//! Organizations and projects: how the API lists them, and which of them is selected.
use crate::json::{
    get_in, lemma_text_at, member_of, text_at, text_in, text_of, Json, JsonView,
};
use crate::rows::{lemma_picks_all, lemma_picks_next, lemma_picks_none, picks};
use crate::sorting::{place, sorted};
use crate::state::SelectedContext;
use crate::text::{before, comes_before, same};
use vstd::prelude::*;

verus! {

#[derive(Debug, Clone, PartialEq, Eq)]
pub struct Organization {
    pub resource_id: String,
    pub display_name: String,
    pub org_type: String,
}

#[derive(Debug, Clone, PartialEq, Eq)]
pub struct Project {
    pub resource_id: String,
    pub display_name: String,
}

#[derive(Debug, Clone, PartialEq, Eq)]
pub struct OrganizationWithProjects {
    pub org: Organization,
    pub projects: Vec<Project>,
}

/// The content of an organization.
pub struct OrgView {
    pub resource_id: Seq<char>,
    pub display_name: Seq<char>,
    pub org_type: Seq<char>,
}

/// The content of a project.
pub struct ProjectView {
    pub resource_id: Seq<char>,
    pub display_name: Seq<char>,
}

/// The content of an organization with its projects.
pub struct OrgProjectsView {
    pub org: OrgView,
    pub projects: Seq<ProjectView>,
}

impl View for Organization {
    type V = OrgView;

    open spec fn view(&self) -> OrgView {
        OrgView {
            resource_id: self.resource_id@,
            display_name: self.display_name@,
            org_type: self.org_type@,
        }
    }
}

impl View for Project {
    type V = ProjectView;

    open spec fn view(&self) -> ProjectView {
        ProjectView { resource_id: self.resource_id@, display_name: self.display_name@ }
    }
}

impl View for OrganizationWithProjects {
    type V = OrgProjectsView;

    open spec fn view(&self) -> OrgProjectsView {
        OrgProjectsView { org: self.org@, projects: project_views(self.projects@) }
    }
}

pub open spec fn org_views(s: Seq<Organization>) -> Seq<OrgView> {
    Seq::new(s.len(), |i: int| s[i]@)
}

pub open spec fn project_views(s: Seq<Project>) -> Seq<ProjectView> {
    Seq::new(s.len(), |i: int| s[i]@)
}

pub open spec fn list_views(s: Seq<OrganizationWithProjects>) -> Seq<OrgProjectsView> {
    Seq::new(s.len(), |i: int| s[i]@)
}

// Reading replies.

/// The items of a list, if the document is one.
pub open spec fn items_of(json: JsonView) -> Option<Seq<JsonView>> {
    match json.member("items"@) {
        Some(JsonView::Array(items)) => Some(items),
        _ => None,
    }
}

/// The organization that a membership names. The type may be missing.
pub open spec fn org_in(item: JsonView) -> Option<OrgView> {
    let org = member_of(item.member("status"@), "organization"@);
    let name = text_of(member_of(org, "displayName"@));
    let id = text_of(member_of(member_of(item.member("spec"@), "organizationRef"@), "name"@));
    if name is None || id is None {
        None
    } else {
        Some(
            OrgView {
                resource_id: id->0,
                display_name: name->0,
                org_type: match text_of(member_of(org, "type"@)) {
                    Some(t) => t,
                    None => Seq::empty(),
                },
            },
        )
    }
}

/// The project that an item of a list describes.
pub open spec fn project_in(item: JsonView) -> Option<ProjectView> {
    let metadata = item.member("metadata"@);
    let id = text_of(member_of(metadata, "name"@));
    let name = text_of(
        member_of(member_of(metadata, "annotations"@), "kubernetes.io/description"@),
    );
    if id is None || name is None {
        None
    } else {
        Some(ProjectView { resource_id: id->0, display_name: name->0 })
    }
}

/// One of the organizations has the identifier.
pub open spec fn has_org(orgs: Seq<OrgView>, id: Seq<char>) -> bool {
    exists|i: int| 0 <= i < orgs.len() && (#[trigger] orgs[i]).resource_id == id
}

/// The organizations that the items name: each once, at the place where it is first named. Items
/// that name none are passed over.
pub open spec fn orgs_in(items: Seq<JsonView>) -> Seq<OrgView>
    decreases items.len(),
{
    if items.len() == 0 {
        Seq::empty()
    } else {
        let orgs = orgs_in(items.drop_last());
        match org_in(items.last()) {
            Some(org) => if has_org(orgs, org.resource_id) {
                orgs
            } else {
                orgs.push(org)
            },
            None => orgs,
        }
    }
}

/// The projects that the items describe, in their order. Items that describe none are passed over.
pub open spec fn projects_in(items: Seq<JsonView>) -> Seq<ProjectView>
    decreases items.len(),
{
    if items.len() == 0 {
        Seq::empty()
    } else {
        let projects = projects_in(items.drop_last());
        match project_in(items.last()) {
            Some(p) => projects.push(p),
            None => projects,
        }
    }
}

/// The organization that a membership names.
pub fn parse_org(item: &Json) -> (r: Option<Organization>)
    ensures
        r is Some <==> org_in(item@) is Some,
        r matches Some(o) ==> org_in(item@) == Some(o@),
{
    let org = get_in(item.get("status"), "organization");
    let name = text_in(get_in(org, "displayName"));
    let id = text_in(get_in(get_in(item.get("spec"), "organizationRef"), "name"));
    let org_type = match text_in(get_in(org, "type")) {
        Some(t) => t,
        None => {
            let none = String::new();
            assert(none@ =~= Seq::<char>::empty());
            none
        },
    };
    match (name, id) {
        (Some(display_name), Some(resource_id)) => Some(
            Organization { resource_id, display_name, org_type },
        ),
        _ => None,
    }
}

/// The project that an item of a list describes.
pub fn parse_project(item: &Json) -> (r: Option<Project>)
    ensures
        r is Some <==> project_in(item@) is Some,
        r matches Some(p) ==> project_in(item@) == Some(p@),
{
    let metadata = item.get("metadata");
    let id = text_in(get_in(metadata, "name"));
    let name = text_in(get_in(get_in(metadata, "annotations"), "kubernetes.io/description"));
    match (id, name) {
        (Some(resource_id), Some(display_name)) => Some(Project { resource_id, display_name }),
        _ => None,
    }
}

fn contains_org(orgs: &Vec<Organization>, id: &str) -> (r: bool)
    ensures
        r == has_org(org_views(orgs@), id@),
{
    let ghost all = org_views(orgs@);
    let mut i: usize = 0;
    while i < orgs.len()
        invariant
            i <= orgs@.len(),
            all == org_views(orgs@),
            forall|k: int| 0 <= k < i ==> (#[trigger] all[k]).resource_id != id@,
        decreases orgs@.len() - i,
    {
        if same(orgs[i].resource_id.as_str(), id) {
            assert(all[i as int].resource_id == id@);
            return true;
        }
        i += 1;
    }
    false
}

/// The organizations of a list of memberships, none if the document is no list. A user can have
/// several memberships in one organization; it is listed once.
pub fn parse_orgs(json: &Json) -> (r: Option<Vec<Organization>>)
    ensures
        r is Some <==> items_of(json@) is Some,
        r matches Some(v) ==> items_of(json@) is Some && org_views(v@) == orgs_in(
            items_of(json@)->0,
        ),
{
    let items = match json.get("items") {
        Some(j) => match j.as_array() {
            Some(v) => v,
            None => {
                return None;
            },
        },
        None => {
            return None;
        },
    };
    let ghost all = items_of(json@)->0;
    let mut out: Vec<Organization> = Vec::new();
    let mut i: usize = 0;
    assert(all.take(0) =~= Seq::<JsonView>::empty());
    assert(org_views(out@) =~= Seq::<OrgView>::empty());
    while i < items.len()
        invariant
            i <= items@.len(),
            all.len() == items@.len(),
            items_of(json@) == Some(all),
            forall|k: int| 0 <= k < items@.len() ==> (#[trigger] items@[k])@ == all[k],
            org_views(out@) == orgs_in(all.take(i as int)),
        decreases items@.len() - i,
    {
        let ghost upto = all.take(i + 1);
        assert(upto.drop_last() =~= all.take(i as int));
        assert(upto.last() == items@[i as int]@);
        let ghost before = org_views(out@);
        if let Some(org) = parse_org(&items[i]) {
            if !contains_org(&out, org.resource_id.as_str()) {
                out.push(org);
                assert(org_views(out@) =~= before.push(org@));
            }
        }
        i += 1;
    }
    assert(all.take(all.len() as int) =~= all);
    Some(out)
}

/// The projects of a list, none if the document is no list.
pub fn parse_projects(json: &Json) -> (r: Option<Vec<Project>>)
    ensures
        r is Some <==> items_of(json@) is Some,
        r matches Some(v) ==> items_of(json@) is Some && project_views(v@) == projects_in(
            items_of(json@)->0,
        ),
{
    let items = match json.get("items") {
        Some(j) => match j.as_array() {
            Some(v) => v,
            None => {
                return None;
            },
        },
        None => {
            return None;
        },
    };
    let ghost all = items_of(json@)->0;
    let mut out: Vec<Project> = Vec::new();
    let mut i: usize = 0;
    assert(all.take(0) =~= Seq::<JsonView>::empty());
    assert(project_views(out@) =~= Seq::<ProjectView>::empty());
    while i < items.len()
        invariant
            i <= items@.len(),
            all.len() == items@.len(),
            items_of(json@) == Some(all),
            forall|k: int| 0 <= k < items@.len() ==> (#[trigger] items@[k])@ == all[k],
            project_views(out@) == projects_in(all.take(i as int)),
        decreases items@.len() - i,
    {
        let ghost upto = all.take(i + 1);
        assert(upto.drop_last() =~= all.take(i as int));
        assert(upto.last() == items@[i as int]@);
        let ghost before = project_views(out@);
        if let Some(project) = parse_project(&items[i]) {
            out.push(project);
            assert(project_views(out@) =~= before.push(project@));
        }
        i += 1;
    }
    assert(all.take(all.len() as int) =~= all);
    Some(out)
}

/// No organization is listed twice.
pub proof fn law_orgs_listed_once(items: Seq<JsonView>)
    ensures
        forall|i: int, j: int|
            0 <= i < j < orgs_in(items).len() ==> (#[trigger] orgs_in(items)[i]).resource_id != (
            #[trigger] orgs_in(items)[j]).resource_id,
        forall|k: int|
            0 <= k < items.len() && org_in(#[trigger] items[k]) is Some ==> has_org(
                orgs_in(items),
                org_in(items[k])->0.resource_id,
            ),
    decreases items.len(),
{
    if items.len() > 0 {
        let rest = items.drop_last();
        law_orgs_listed_once(rest);
        let before = orgs_in(rest);
        let all = orgs_in(items);
        assert forall|k: int| 0 <= k < items.len() && org_in(#[trigger] items[k]) is Some implies has_org(
            all,
            org_in(items[k])->0.resource_id,
        ) by {
            let id = org_in(items[k])->0.resource_id;
            if k < rest.len() {
                assert(rest[k] == items[k]);
                let i = choose|i: int|
                    0 <= i < before.len() && (#[trigger] before[i]).resource_id == id;
                assert(all[i].resource_id == id);
            } else if has_org(before, id) {
            } else {
                assert(all[before.len() as int].resource_id == id);
            }
        }
        assert forall|i: int, j: int| 0 <= i < j < all.len() implies (
        #[trigger] all[i]).resource_id != (#[trigger] all[j]).resource_id by {
            assert(all[i] == before[i]);
            if j < before.len() {
                assert(all[j] == before[j]);
            }
        }
    }
}

/// Every item that names an organization has it listed where it is first named, with the name and
/// type that are given there; and every organization listed is one that an item names.
pub proof fn law_orgs_from_items(items: Seq<JsonView>)
    ensures
        forall|i: int|
            0 <= i < items.len() && org_in(#[trigger] items[i]) is Some && (forall|k: int|
                0 <= k < i && org_in(#[trigger] items[k]) is Some ==> org_in(
                    items[k],
                )->0.resource_id != org_in(items[i])->0.resource_id) ==> orgs_in(items).contains(
                org_in(items[i])->0,
            ),
        forall|k: int|
            0 <= k < orgs_in(items).len() ==> exists|i: int|
                0 <= i < items.len() && org_in(#[trigger] items[i]) == Some(
                    #[trigger] orgs_in(items)[k],
                ),
    decreases items.len(),
{
    if items.len() > 0 {
        let rest = items.drop_last();
        law_orgs_from_items(rest);
        let before = orgs_in(rest);
        let all = orgs_in(items);
        let n = rest.len() as int;
        assert forall|i: int|
            0 <= i < items.len() && org_in(#[trigger] items[i]) is Some && (forall|k: int|
                0 <= k < i && org_in(#[trigger] items[k]) is Some ==> org_in(
                    items[k],
                )->0.resource_id != org_in(items[i])->0.resource_id) implies all.contains(
            org_in(items[i])->0,
        ) by {
            let org = org_in(items[i])->0;
            if i < n {
                assert(rest[i] == items[i]);
                assert forall|k: int| 0 <= k < i && org_in(#[trigger] rest[k]) is Some implies org_in(
                    rest[k],
                )->0.resource_id != org.resource_id by {
                    assert(rest[k] == items[k]);
                }
                assert(before.contains(org));
                let j = choose|j: int| 0 <= j < before.len() && before[j] == org;
                assert(all[j] == org);
            } else {
                if has_org(before, org.resource_id) {
                    let j = choose|j: int|
                        0 <= j < before.len() && (#[trigger] before[j]).resource_id
                            == org.resource_id;
                    let m = choose|m: int|
                        0 <= m < rest.len() && org_in(#[trigger] rest[m]) == Some(before[j]);
                    assert(items[m] == rest[m]);
                }
                assert(all[before.len() as int] == org);
            }
        }
        assert forall|k: int| 0 <= k < all.len() implies exists|i: int|
            0 <= i < items.len() && org_in(#[trigger] items[i]) == Some(#[trigger] all[k]) by {
            if k < before.len() {
                let m = choose|m: int|
                    0 <= m < rest.len() && org_in(#[trigger] rest[m]) == Some(before[k]);
                assert(items[m] == rest[m]);
            } else {
                assert(org_in(items[n]) == Some(all[k]));
            }
        }
    }
}

/// The projects are those of the items that describe one, in the order of the items: none is left
/// out, none is added.
pub proof fn law_projects_from_items(items: Seq<JsonView>)
    ensures
        picks(items, |item: JsonView| project_in(item), projects_in(items)),
        forall|i: int|
            0 <= i < items.len() && project_in(#[trigger] items[i]) is Some ==> projects_in(
                items,
            ).contains(project_in(items[i])->0),
        (forall|i: int| 0 <= i < items.len() ==> project_in(#[trigger] items[i]) is Some)
            ==> projects_in(items).len() == items.len() && forall|i: int|
            0 <= i < items.len() ==> project_in(#[trigger] items[i]) == Some(
                projects_in(items)[i],
            ),
    decreases items.len(),
{
    let f = |item: JsonView| project_in(item);
    let all = projects_in(items);
    if items.len() == 0 {
        lemma_picks_none(items, f, all);
    } else {
        let rest = items.drop_last();
        law_projects_from_items(rest);
        lemma_picks_next(items, f, projects_in(rest), all);
        assert forall|i: int| 0 <= i < rest.len() implies rest[i] == #[trigger] items[i] by {}
        if forall|i: int| 0 <= i < items.len() ==> project_in(#[trigger] items[i]) is Some {
            assert forall|i: int| 0 <= i < rest.len() implies project_in(
                #[trigger] rest[i],
            ) is Some by {
                assert(rest[i] == items[i]);
            }
            assert forall|i: int| 0 <= i < items.len() implies project_in(#[trigger] items[i])
                == Some(all[i]) by {
                if i < rest.len() {
                    assert(rest[i] == items[i]);
                }
            }
        }
    }
    lemma_picks_all(items, f, all);
    assert forall|i: int|
        0 <= i < items.len() && project_in(#[trigger] items[i]) is Some implies all.contains(
        project_in(items[i])->0,
    ) by {
        assert(f(items[i]) is Some);
    }
}

/// An item with a name and a description is the project of that name, shown under the description;
/// an item that lacks one of them is no project.
pub proof fn law_project_in(item: JsonView)
    ensures
        ({
            let id = text_at(item, seq!["metadata"@, "name"@]);
            let name = text_at(
                item,
                seq!["metadata"@, "annotations"@, "kubernetes.io/description"@],
            );
            match project_in(item) {
                Some(p) => id == Some(p.resource_id) && name == Some(p.display_name),
                None => id is None || name is None,
            }
        }),
{
    lemma_text_at(item, "metadata"@, "name"@, "name"@);
    lemma_text_at(item, "metadata"@, "annotations"@, "kubernetes.io/description"@);
}

/// A membership names the organization that it refers to, under the name and of the type that its
/// status gives; one that lacks the reference or the name names none.
pub proof fn law_org_in(item: JsonView)
    ensures
        ({
            let id = text_at(item, seq!["spec"@, "organizationRef"@, "name"@]);
            let name = text_at(item, seq!["status"@, "organization"@, "displayName"@]);
            let kind = text_at(item, seq!["status"@, "organization"@, "type"@]);
            match org_in(item) {
                Some(o) => id == Some(o.resource_id) && name == Some(o.display_name) && (kind
                    == Some(o.org_type) || kind is None && o.org_type.len() == 0),
                None => id is None || name is None,
            }
        }),
{
    lemma_text_at(item, "spec"@, "organizationRef"@, "name"@);
    lemma_text_at(item, "status"@, "organization"@, "displayName"@);
    lemma_text_at(item, "status"@, "organization"@, "type"@);
}

// Sorting.

/// Projects by their identifiers.
pub open spec fn by_project_id() -> spec_fn(ProjectView, ProjectView) -> bool {
    |a: ProjectView, b: ProjectView| before(a.resource_id, b.resource_id)
}

/// Organizations by their identifiers.
pub open spec fn by_org_id() -> spec_fn(OrgProjectsView, OrgProjectsView) -> bool {
    |a: OrgProjectsView, b: OrgProjectsView| before(a.org.resource_id, b.org.resource_id)
}

proof fn lemma_text_order(a: Seq<char>, b: Seq<char>, c: Seq<char>)
    ensures
        !before(a, a),
        before(a, b) && before(b, c) ==> before(a, c),
        !before(a, b) && !before(b, c) ==> !before(a, c),
{
    crate::text::lemma_before_irreflexive(a);
    if before(a, b) && before(b, c) {
        crate::text::lemma_before_transitive(a, b, c);
    }
    if !before(a, b) && !before(b, c) && before(a, c) {
        crate::text::lemma_before_total(a, b);
        crate::text::lemma_before_total(b, c);
        if a == b {
        } else if b == c {
        } else {
            crate::text::lemma_before_transitive(c, b, a);
            crate::text::lemma_before_transitive(a, c, a);
        }
    }
}

/// Organizations and projects are ordered by their identifiers.
pub proof fn law_orders()
    ensures
        crate::sorting::is_order(by_project_id()),
        crate::sorting::is_order(by_org_id()),
{
    let lp = by_project_id();
    let lo = by_org_id();
    assert forall|a: ProjectView| !(#[trigger] lp(a, a)) by {
        lemma_text_order(a.resource_id, a.resource_id, a.resource_id);
    }
    assert forall|a: ProjectView, b: ProjectView, c: ProjectView|
        #![trigger lp(a, b), lp(b, c)]
        (lp(a, b) && lp(b, c) ==> lp(a, c)) && (!lp(a, b) && !lp(b, c) ==> !lp(a, c)) by {
        lemma_text_order(a.resource_id, b.resource_id, c.resource_id);
    }
    assert forall|a: OrgProjectsView| !(#[trigger] lo(a, a)) by {
        lemma_text_order(a.org.resource_id, a.org.resource_id, a.org.resource_id);
    }
    assert forall|a: OrgProjectsView, b: OrgProjectsView, c: OrgProjectsView|
        #![trigger lo(a, b), lo(b, c)]
        (lo(a, b) && lo(b, c) ==> lo(a, c)) && (!lo(a, b) && !lo(b, c) ==> !lo(a, c)) by {
        lemma_text_order(a.org.resource_id, b.org.resource_id, c.org.resource_id);
    }
}

fn project_place(v: &Vec<Project>, x: &Project) -> (r: usize)
    ensures
        r == place(project_views(v@), x@, by_project_id()),
        r <= v@.len(),
{
    let ghost all = project_views(v@);
    let mut i: usize = 0;
    assert(all.skip(0) =~= all);
    while i < v.len()
        invariant
            i <= v@.len(),
            all == project_views(v@),
            place(all, x@, by_project_id()) == i + place(all.skip(i as int), x@, by_project_id()),
        decreases v@.len() - i,
    {
        let ghost rest = all.skip(i as int);
        assert(rest.drop_first() =~= all.skip(i + 1));
        assert(rest[0] == v@[i as int]@);
        if comes_before(x.resource_id.as_str(), v[i].resource_id.as_str()) {
            return i;
        }
        i += 1;
    }
    i
}

/// The projects sorted by their identifiers.
pub fn sort_projects(mut v: Vec<Project>) -> (r: Vec<Project>)
    ensures
        project_views(r@) == sorted(project_views(v@), by_project_id()),
{
    let ghost all = project_views(v@);
    let ghost whole = v@;
    let mut out: Vec<Project> = Vec::new();
    let mut done: Ghost<int> = Ghost(0);
    assert(all.take(0) =~= Seq::<ProjectView>::empty());
    assert(project_views(out@) =~= Seq::<ProjectView>::empty());
    while v.len() > 0
        invariant
            0 <= done@ <= whole.len(),
            all == project_views(whole),
            v@ == whole.skip(done@),
            project_views(out@) == sorted(all.take(done@), by_project_id()),
        decreases v@.len(),
    {
        let x = v.remove(0);
        assert(x == whole[done@]);
        let ghost upto = all.take(done@ + 1);
        assert(upto.drop_last() =~= all.take(done@));
        assert(upto.last() == x@);
        let at: usize = project_place(&out, &x);
        let ghost before = project_views(out@);
        out.insert(at, x);
        assert(project_views(out@) =~= before.insert(at as int, x@));
        assert(v@ =~= whole.skip(done@ + 1));
        done = Ghost(done@ + 1);
    }
    assert(all.take(all.len() as int) =~= all);
    out
}

fn org_place(v: &Vec<OrganizationWithProjects>, x: &OrganizationWithProjects) -> (r: usize)
    ensures
        r == place(list_views(v@), x@, by_org_id()),
        r <= v@.len(),
{
    let ghost all = list_views(v@);
    let mut i: usize = 0;
    assert(all.skip(0) =~= all);
    while i < v.len()
        invariant
            i <= v@.len(),
            all == list_views(v@),
            place(all, x@, by_org_id()) == i + place(all.skip(i as int), x@, by_org_id()),
        decreases v@.len() - i,
    {
        let ghost rest = all.skip(i as int);
        assert(rest.drop_first() =~= all.skip(i + 1));
        assert(rest[0] == v@[i as int]@);
        if comes_before(x.org.resource_id.as_str(), v[i].org.resource_id.as_str()) {
            return i;
        }
        i += 1;
    }
    i
}

/// An organization with its projects sorted.
pub open spec fn with_sorted_projects(o: OrgProjectsView) -> OrgProjectsView {
    OrgProjectsView { org: o.org, projects: sorted(o.projects, by_project_id()) }
}

/// The organizations sorted by their identifiers, each with its projects sorted.
pub open spec fn sorted_list(list: Seq<OrgProjectsView>) -> Seq<OrgProjectsView> {
    sorted(Seq::new(list.len(), |i: int| with_sorted_projects(list[i])), by_org_id())
}

/// The organizations sorted by their identifiers, each with its projects sorted.
pub fn sort_list(mut v: Vec<OrganizationWithProjects>) -> (r: Vec<OrganizationWithProjects>)
    ensures
        list_views(r@) == sorted_list(list_views(v@)),
{
    let ghost whole = v@;
    let ghost given = list_views(v@);
    let ghost all = Seq::new(given.len(), |i: int| with_sorted_projects(given[i]));
    let mut out: Vec<OrganizationWithProjects> = Vec::new();
    let mut done: Ghost<int> = Ghost(0);
    assert(all.take(0) =~= Seq::<OrgProjectsView>::empty());
    assert(list_views(out@) =~= Seq::<OrgProjectsView>::empty());
    while v.len() > 0
        invariant
            0 <= done@ <= whole.len(),
            given == list_views(whole),
            all == Seq::new(given.len(), |i: int| with_sorted_projects(given[i])),
            v@ == whole.skip(done@),
            list_views(out@) == sorted(all.take(done@), by_org_id()),
        decreases v@.len(),
    {
        let item = v.remove(0);
        assert(item == whole[done@]);
        let ghost before_sort = item@;
        let x = OrganizationWithProjects {
            org: item.org,
            projects: sort_projects(item.projects),
        };
        assert(x@ == with_sorted_projects(given[done@]));
        let ghost upto = all.take(done@ + 1);
        assert(upto.drop_last() =~= all.take(done@));
        assert(upto.last() == x@);
        let at: usize = org_place(&out, &x);
        let ghost before = list_views(out@);
        out.insert(at, x);
        assert(list_views(out@) =~= before.insert(at as int, x@));
        assert(v@ =~= whole.skip(done@ + 1));
        done = Ghost(done@ + 1);
    }
    assert(all.take(all.len() as int) =~= all);
    out
}

/// The list is the same whatever the order in which the organizations were read, as each of them
/// stands in it once.
pub proof fn law_list_of_any_order(a: Seq<OrgProjectsView>, b: Seq<OrgProjectsView>)
    requires
        a.to_multiset() == b.to_multiset(),
        forall|i: int, j: int|
            0 <= i < j < a.len() ==> (#[trigger] a[i]).org.resource_id != (
            #[trigger] a[j]).org.resource_id,
    ensures
        sorted_list(a) == sorted_list(b),
{
    let f = |o: OrgProjectsView| with_sorted_projects(o);
    let lt = by_org_id();
    let x = crate::sorting::each(a, f);
    let y = crate::sorting::each(b, f);
    assert(x =~= Seq::new(a.len(), |i: int| with_sorted_projects(a[i])));
    assert(y =~= Seq::new(b.len(), |i: int| with_sorted_projects(b[i])));
    crate::sorting::lemma_each_of_any_order(a, b, f);
    law_orders();
    assert forall|i: int, j: int| 0 <= i < x.len() && 0 <= j < x.len() && i != j implies lt(
        #[trigger] x[i],
        #[trigger] x[j],
    ) || lt(x[j], x[i]) by {
        assert(x[i].org == a[i].org && x[j].org == a[j].org);
        crate::text::lemma_before_total(x[i].org.resource_id, x[j].org.resource_id);
        if i < j {
            assert(a[i].org.resource_id != a[j].org.resource_id);
        } else {
            assert(a[j].org.resource_id != a[i].org.resource_id);
        }
    }
    crate::sorting::law_sorted_of_any_order(x, y, lt);
}

// The selected context.

/// The content of a context: organization, its name, project, its name, type of the organization.
pub open spec fn context_view(c: SelectedContext) -> (
    Seq<char>,
    Seq<char>,
    Seq<char>,
    Seq<char>,
    Seq<char>,
) {
    (c.org_id@, c.org_name@, c.project_id@, c.project_name@, c.org_type@)
}

/// The content of a context that may be missing.
pub open spec fn opt_context(c: Option<SelectedContext>) -> Option<
    (Seq<char>, Seq<char>, Seq<char>, Seq<char>, Seq<char>),
> {
    match c {
        Some(c) => Some(context_view(c)),
        None => None,
    }
}

/// The organization is in the list and has the project.
pub open spec fn is_listed(
    list: Seq<OrgProjectsView>,
    org_id: Seq<char>,
    project_id: Seq<char>,
) -> bool {
    exists|i: int, k: int|
        0 <= i < list.len() && 0 <= k < list[i].projects.len() && list[i].org.resource_id == org_id
            && (#[trigger] list[i].projects[k]).resource_id == project_id
}

fn has_project(projects: &Vec<Project>, id: &str) -> (r: bool)
    ensures
        r == exists|k: int|
            0 <= k < projects@.len() && (#[trigger] project_views(projects@)[k]).resource_id == id@,
{
    let ghost all = project_views(projects@);
    let mut k: usize = 0;
    while k < projects.len()
        invariant
            k <= projects@.len(),
            all == project_views(projects@),
            forall|j: int| 0 <= j < k ==> (#[trigger] all[j]).resource_id != id@,
        decreases projects@.len() - k,
    {
        if same(projects[k].resource_id.as_str(), id) {
            assert(all[k as int].resource_id == id@);
            return true;
        }
        k += 1;
    }
    false
}

/// Whether the context's project is still in the list.
pub fn context_is_valid(
    list: &Vec<OrganizationWithProjects>,
    selected: &SelectedContext,
) -> (r: bool)
    ensures
        r == is_listed(list_views(list@), selected.org_id@, selected.project_id@),
{
    let ghost all = list_views(list@);
    let mut i: usize = 0;
    while i < list.len()
        invariant
            i <= list@.len(),
            all == list_views(list@),
            forall|a: int, k: int|
                0 <= a < i && 0 <= k < all[a].projects.len() && all[a].org.resource_id
                    == selected.org_id@ ==> (#[trigger] all[a].projects[k]).resource_id
                    != selected.project_id@,
        decreases list@.len() - i,
    {
        assert(all[i as int] == list@[i as int]@);
        if same(list[i].org.resource_id.as_str(), selected.org_id.as_str()) && has_project(
            &list[i].projects,
            selected.project_id.as_str(),
        ) {
            proof {
                let k = choose|k: int|
                    0 <= k < list@[i as int].projects@.len() && (#[trigger] project_views(
                        list@[i as int].projects@,
                    )[k]).resource_id == selected.project_id@;
                assert(all[i as int].projects[k].resource_id == selected.project_id@);
            }
            return true;
        }
        i += 1;
    }
    false
}

/// The context to select after the list was read anew: the one that is selected if its project is
/// still listed, else none.
pub fn validate_context(
    list: &Vec<OrganizationWithProjects>,
    selected: Option<SelectedContext>,
) -> (r: Option<SelectedContext>)
    ensures
        r == (match selected {
            Some(c) => if is_listed(list_views(list@), c.org_id@, c.project_id@) {
                Some(c)
            } else {
                None
            },
            None => None,
        }),
{
    match selected {
        Some(c) => if context_is_valid(list, &c) {
            Some(c)
        } else {
            None
        },
        None => None,
    }
}

/// What is kept of a session besides its tokens: the selected context and the list of
/// organizations last read.
#[derive(Debug)]
pub struct SessionState {
    pub selected_context: Option<SelectedContext>,
    pub orgs_projects: Vec<OrganizationWithProjects>,
}

fn same_context(a: &SelectedContext, b: &SelectedContext) -> (r: bool)
    ensures
        r == (context_view(*a) == context_view(*b)),
{
    same(a.org_id.as_str(), b.org_id.as_str()) && same(a.org_name.as_str(), b.org_name.as_str())
        && same(a.project_id.as_str(), b.project_id.as_str()) && same(
        a.project_name.as_str(),
        b.project_name.as_str(),
    ) && same(a.org_type.as_str(), b.org_type.as_str())
}

fn same_projects(a: &Vec<Project>, b: &Vec<Project>) -> (r: bool)
    ensures
        r == (project_views(a@) == project_views(b@)),
{
    let ghost x = project_views(a@);
    let ghost y = project_views(b@);
    if a.len() != b.len() {
        assert(x.len() != y.len());
        return false;
    }
    let mut i: usize = 0;
    while i < a.len()
        invariant
            i <= a@.len(),
            a@.len() == b@.len(),
            x == project_views(a@),
            y == project_views(b@),
            forall|k: int| 0 <= k < i ==> x[k] == y[k],
        decreases a@.len() - i,
    {
        if !same(a[i].resource_id.as_str(), b[i].resource_id.as_str()) || !same(
            a[i].display_name.as_str(),
            b[i].display_name.as_str(),
        ) {
            assert(x[i as int] != y[i as int]);
            return false;
        }
        i += 1;
    }
    assert(x =~= y);
    true
}

fn same_list(a: &Vec<OrganizationWithProjects>, b: &Vec<OrganizationWithProjects>) -> (r: bool)
    ensures
        r == (list_views(a@) == list_views(b@)),
{
    let ghost x = list_views(a@);
    let ghost y = list_views(b@);
    if a.len() != b.len() {
        assert(x.len() != y.len());
        return false;
    }
    let mut i: usize = 0;
    while i < a.len()
        invariant
            i <= a@.len(),
            a@.len() == b@.len(),
            x == list_views(a@),
            y == list_views(b@),
            forall|k: int| 0 <= k < i ==> x[k] == y[k],
        decreases a@.len() - i,
    {
        let same_org = same(a[i].org.resource_id.as_str(), b[i].org.resource_id.as_str()) && same(
            a[i].org.display_name.as_str(),
            b[i].org.display_name.as_str(),
        ) && same(a[i].org.org_type.as_str(), b[i].org.org_type.as_str());
        if !same_org || !same_projects(&a[i].projects, &b[i].projects) {
            assert(x[i as int] != y[i as int]);
            return false;
        }
        i += 1;
    }
    assert(x =~= y);
    true
}

impl SessionState {
    /// The state at the start: the stored context, and no organizations yet.
    pub fn new(selected_context: Option<SelectedContext>) -> (r: SessionState)
        ensures
            r.selected_context == selected_context,
            r.orgs_projects@.len() == 0,
    {
        SessionState { selected_context, orgs_projects: Vec::new() }
    }

    /// Whether selecting the context is a change, so that it has to be stored.
    pub fn context_changes(&self, selected: &Option<SelectedContext>) -> (r: bool)
        ensures
            r == (opt_context(self.selected_context) != opt_context(*selected)),
    {
        match (&self.selected_context, selected) {
            (Some(a), Some(b)) => !same_context(a, b),
            (None, None) => false,
            _ => true,
        }
    }

    /// Selects a context. It is announced also where it is no change.
    pub fn set_selected_context(&mut self, selected: Option<SelectedContext>)
        ensures
            opt_context(final(self).selected_context) == opt_context(selected),
            final(self).orgs_projects == old(self).orgs_projects,
    {
        if self.context_changes(&selected) {
            self.selected_context = selected;
        }
    }

    /// Takes over the list of organizations. The result says whether it is another one, so that it
    /// has to be announced.
    pub fn set_orgs_projects(&mut self, list: Vec<OrganizationWithProjects>) -> (r: bool)
        ensures
            r == (list_views(old(self).orgs_projects@) != list_views(list@)),
            list_views(final(self).orgs_projects@) == list_views(list@),
            final(self).selected_context == old(self).selected_context,
    {
        if same_list(&self.orgs_projects, &list) {
            false
        } else {
            self.orgs_projects = list;
            true
        }
    }

    /// Whether the list last read may be used in place of reading it anew: it is not empty and was
    /// read less than two seconds ago.
    pub fn orgs_projects_fresh(&self, elapsed_nanos: Option<u128>) -> (r: bool)
        ensures
            r == (self.orgs_projects@.len() > 0 && elapsed_nanos is Some && elapsed_nanos->0
                < 2_000_000_000),
    {
        match elapsed_nanos {
            Some(e) => self.orgs_projects.len() > 0 && e < 2_000_000_000,
            None => false,
        }
    }
}

/// The list stands in the order of the organizations' identifiers, and each organization has its
/// projects in the order of theirs; nothing is added and nothing is lost.
pub proof fn law_sorted_list(list: Seq<OrgProjectsView>)
    ensures
        sorted_list(list).len() == list.len(),
        forall|i: int, j: int|
            0 <= i < j < sorted_list(list).len() ==> !before(
                (#[trigger] sorted_list(list)[j]).org.resource_id,
                (#[trigger] sorted_list(list)[i]).org.resource_id,
            ),
        forall|i: int|
            0 <= i < list.len() ==> exists|k: int|
                0 <= k < sorted_list(list).len() && same_but_sorted(
                    #[trigger] list[i],
                    #[trigger] sorted_list(list)[k],
                ),
        forall|k: int|
            0 <= k < sorted_list(list).len() ==> exists|i: int|
                0 <= i < list.len() && same_but_sorted(
                    #[trigger] list[i],
                    #[trigger] sorted_list(list)[k],
                ),
{
    broadcast use vstd::seq_lib::group_to_multiset_ensures;

    let each = Seq::new(list.len(), |i: int| with_sorted_projects(list[i]));
    let out = sorted_list(list);
    law_orders();
    crate::sorting::law_sorted(each, by_org_id());
    assert forall|i: int, j: int| 0 <= i < j < out.len() implies !before(
        (#[trigger] out[j]).org.resource_id,
        (#[trigger] out[i]).org.resource_id,
    ) by {
        assert(!by_org_id()(out[j], out[i]));
    }
    assert forall|i: int| 0 <= i < list.len() implies same_but_sorted(
        #[trigger] list[i],
        each[i],
    ) by {
        lemma_same_but_sorted(list[i]);
    }
    assert forall|i: int| 0 <= i < list.len() implies exists|k: int|
        0 <= k < out.len() && same_but_sorted(#[trigger] list[i], #[trigger] out[k]) by {
        assert(each.contains(each[i]));
        assert(out.to_multiset().count(each[i]) > 0);
        assert(out.contains(each[i]));
        let k = choose|k: int| 0 <= k < out.len() && out[k] == each[i];
        assert(same_but_sorted(list[i], out[k]));
    }
    assert forall|k: int| 0 <= k < out.len() implies exists|i: int|
        0 <= i < list.len() && same_but_sorted(#[trigger] list[i], #[trigger] out[k]) by {
        assert(out.contains(out[k]));
        assert(each.to_multiset().count(out[k]) > 0);
        assert(each.contains(out[k]));
        let i = choose|i: int| 0 <= i < each.len() && each[i] == out[k];
        assert(same_but_sorted(list[i], out[k]));
    }
}

/// The second organization is the first with its projects in the order of their identifiers.
pub open spec fn same_but_sorted(a: OrgProjectsView, b: OrgProjectsView) -> bool {
    &&& a.org == b.org
    &&& a.projects.to_multiset() == b.projects.to_multiset()
    &&& forall|i: int, j: int|
        0 <= i < j < b.projects.len() ==> !before(
            (#[trigger] b.projects[j]).resource_id,
            (#[trigger] b.projects[i]).resource_id,
        )
}

proof fn lemma_same_but_sorted(o: OrgProjectsView)
    ensures
        same_but_sorted(o, with_sorted_projects(o)),
{
    law_orders();
    crate::sorting::law_sorted(o.projects, by_project_id());
    let p = with_sorted_projects(o).projects;
    assert forall|i: int, j: int| 0 <= i < j < p.len() implies !before(
        (#[trigger] p[j]).resource_id,
        (#[trigger] p[i]).resource_id,
    ) by {
        assert(!by_project_id()(p[j], p[i]));
    }
}

/// A selected project stays selected exactly as long as its organization is listed with it.
pub proof fn law_listed(
    list: Seq<OrgProjectsView>,
    org_id: Seq<char>,
    project_id: Seq<char>,
    i: int,
    k: int,
)
    ensures
        0 <= i < list.len() && 0 <= k < list[i].projects.len() && list[i].org.resource_id == org_id
            && list[i].projects[k].resource_id == project_id ==> is_listed(list, org_id, project_id),
        is_listed(list, org_id, project_id) ==> exists|a: int, b: int|
            0 <= a < list.len() && list[a].org.resource_id == org_id && 0 <= b
                < list[a].projects.len() && (#[trigger] list[a].projects[b]).resource_id
                == project_id,
{
}

/// Two contexts count as the same only if all is the same in them: the project with its name, and
/// the organization with its name and type.
pub proof fn law_same_context(a: Option<SelectedContext>, b: Option<SelectedContext>)
    ensures
        opt_context(a) == opt_context(b) <==> (a is Some == b is Some) && (a is Some
            ==> a->0.project_id@ == b->0.project_id@ && a->0.project_name@ == b->0.project_name@
            && a->0.org_id@ == b->0.org_id@ && a->0.org_name@ == b->0.org_name@ && a->0.org_type@
            == b->0.org_type@),
{
}

/// The items of a list are those under `items`, where that is an array.
pub proof fn law_items_of(json: JsonView, items: Seq<JsonView>)
    ensures
        items_of(json) == Some(items) <==> json.member("items"@) == Some(JsonView::Array(items)),
{
}

} // verus!
