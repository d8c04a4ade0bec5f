//! Roles that can be given to users.
use super::organizations::items_of;
use crate::json::{
    first_of, get_in, lemma_reached, lemma_text_at, member_of, opt_json, or_else, reached, text_at,
    text_in, text_of, Json, JsonView,
};
use crate::rows::{lemma_picks_next, lemma_picks_none, picks};
use crate::sorting::{place, sorted};
use crate::text::{decimal, opt_view, parse_u32, parsed, same};
use vstd::prelude::*;

verus! {

/// A role as it is offered.
#[derive(Debug, Clone)]
pub struct RoleSummary {
    pub name: String,
    pub namespace: Option<String>,
    /// The label for users: the display name in the annotations, else the one of the role, else
    /// its name.
    pub display_name: Option<String>,
    /// What the role permits, in words.
    pub description: Option<String>,
    /// Where the role stands among the others; 999 where nothing is said.
    pub sort_order: u32,
}

/// The content of a role.
pub struct RoleView {
    pub name: Seq<char>,
    pub namespace: Option<Seq<char>>,
    pub display_name: Option<Seq<char>>,
    pub description: Option<Seq<char>>,
    pub sort_order: u32,
}

impl View for RoleSummary {
    type V = RoleView;

    open spec fn view(&self) -> RoleView {
        RoleView {
            name: self.name@,
            namespace: opt_view(self.namespace),
            display_name: opt_view(self.display_name),
            description: opt_view(self.description),
            sort_order: self.sort_order,
        }
    }
}

/// Why a list of roles cannot be read.
#[derive(Debug, Clone, Copy, PartialEq, Eq, Structural)]
pub enum RoleListError {
    MissingItems,
    MissingMetadata,
    MissingName,
}

impl RoleListError {
    pub fn message(self) -> (r: String)
        ensures
            r@ == match self {
                RoleListError::MissingItems => "Missing or invalid items"@,
                RoleListError::MissingMetadata => "Missing metadata"@,
                RoleListError::MissingName => "Missing metadata.name"@,
            },
    {
        match self {
            RoleListError::MissingItems => "Missing or invalid items".to_owned(),
            RoleListError::MissingMetadata => "Missing metadata".to_owned(),
            RoleListError::MissingName => "Missing metadata.name".to_owned(),
        }
    }
}

/// The condition says explicitly that the role is not ready: its status is a text other than
/// `True`.
pub open spec fn says_not_ready(condition: JsonView) -> bool {
    &&& text_of(condition.member("type"@)) == Some("Ready"@)
    &&& text_of(condition.member("status"@)) matches Some(status) && status != "True"@
}

/// One of the conditions says that the role is not ready.
pub open spec fn some_not_ready(conditions: Seq<JsonView>) -> bool {
    exists|i: int| 0 <= i < conditions.len() && says_not_ready(#[trigger] conditions[i])
}

/// The role is offered: no condition of its status says that it is not ready.
pub open spec fn is_offered(item: JsonView) -> bool {
    match member_of(item.member("status"@), "conditions"@) {
        Some(JsonView::Array(conditions)) => !some_not_ready(conditions),
        _ => true,
    }
}

/// One text, or another where it is missing.
pub open spec fn or_other(a: Option<Seq<char>>, b: Option<Seq<char>>) -> Option<Seq<char>> {
    match a {
        Some(s) => Some(s),
        None => b,
    }
}

/// The role that an item of a list describes.
pub open spec fn role_in(item: JsonView) -> Result<RoleView, RoleListError> {
    let meta = item.member("metadata"@);
    let name = text_of(member_of(meta, "name"@));
    let annotations = member_of(meta, "annotations"@);
    let spec = item.member("spec"@);
    if meta is None {
        Err(RoleListError::MissingMetadata)
    } else if name is None {
        Err(RoleListError::MissingName)
    } else {
        Ok(
            RoleView {
                name: name->0,
                namespace: text_of(member_of(meta, "namespace"@)),
                display_name: or_other(
                    or_other(
                        text_of(member_of(annotations, "kubernetes.io/display-name"@)),
                        text_of(
                            or_else(item.member("displayName"@), member_of(spec, "displayName"@)),
                        ),
                    ),
                    name,
                ),
                description: or_other(
                    text_of(member_of(spec, "description"@)),
                    text_of(member_of(annotations, "kubernetes.io/description"@)),
                ),
                sort_order: match text_of(
                    member_of(annotations, "taxonomy.miloapis.com/sort-order"@),
                ) {
                    Some(s) => match parsed(s, u32::MAX as nat) {
                        Some(n) => n as u32,
                        None => 999,
                    },
                    None => 999,
                },
            },
        )
    }
}

/// The roles on offer that the items describe, in their order; the first item that cannot be read
/// decides.
pub open spec fn roles_in(items: Seq<JsonView>) -> Result<Seq<RoleView>, RoleListError>
    decreases items.len(),
{
    if items.len() == 0 {
        Ok(Seq::empty())
    } else {
        match roles_in(items.drop_last()) {
            Err(e) => Err(e),
            Ok(roles) => if !is_offered(items.last()) {
                Ok(roles)
            } else {
                match role_in(items.last()) {
                    Ok(role) => Ok(roles.push(role)),
                    Err(e) => Err(e),
                }
            },
        }
    }
}

/// Roles by their places.
pub open spec fn by_sort_order() -> spec_fn(RoleView, RoleView) -> bool {
    |a: RoleView, b: RoleView| a.sort_order < b.sort_order
}

/// The roles that a list offers, in the order in which they are shown.
pub open spec fn role_list(json: JsonView) -> Result<Seq<RoleView>, RoleListError> {
    match items_of(json) {
        None => Err(RoleListError::MissingItems),
        Some(items) => match roles_in(items) {
            Ok(roles) => Ok(sorted(roles, by_sort_order())),
            Err(e) => Err(e),
        },
    }
}

pub open spec fn role_views(s: Seq<RoleSummary>) -> Seq<RoleView> {
    Seq::new(s.len(), |i: int| s[i]@)
}

fn text_is(j: Option<&Json>, s: &str) -> (r: bool)
    ensures
        r == (text_of(opt_json(j)) == Some(s@)),
{
    match j {
        Some(j) => match j.as_str() {
            Some(t) => same(t, s),
            None => false,
        },
        None => false,
    }
}

/// Whether there is a text, and another than the given one.
fn text_is_not(j: Option<&Json>, s: &str) -> (r: bool)
    ensures
        r == (text_of(opt_json(j)) matches Some(t) && t != s@),
{
    match j {
        Some(j) => match j.as_str() {
            Some(t) => !same(t, s),
            None => false,
        },
        None => false,
    }
}

/// Whether the role is offered.
pub fn role_status_is_success(item: &Json) -> (r: bool)
    ensures
        r == is_offered(item@),
{
    let conditions = match get_in(item.get("status"), "conditions") {
        Some(j) => match j.as_array() {
            Some(v) => v,
            None => {
                return true;
            },
        },
        None => {
            return true;
        },
    };
    let ghost all = member_of(item@.member("status"@), "conditions"@)->0->Array_0;
    let mut i: usize = 0;
    while i < conditions.len()
        invariant
            i <= conditions@.len(),
            all.len() == conditions@.len(),
            member_of(item@.member("status"@), "conditions"@) == Some(JsonView::Array(all)),
            forall|k: int| 0 <= k < all.len() ==> (#[trigger] conditions@[k])@ == all[k],
            forall|k: int| 0 <= k < i ==> !says_not_ready(#[trigger] all[k]),
        decreases conditions@.len() - i,
    {
        let c = &conditions[i];
        assert(c@ == all[i as int]);
        if text_is(c.get("type"), "Ready") && text_is_not(c.get("status"), "True") {
            assert(says_not_ready(all[i as int]));
            assert(some_not_ready(all));
            return false;
        }
        i += 1;
    }
    true
}

fn or_text(a: Option<String>, b: Option<String>) -> (r: Option<String>)
    ensures
        opt_view(r) == or_other(opt_view(a), opt_view(b)),
{
    match a {
        Some(s) => Some(s),
        None => b,
    }
}

/// The role that an item of a list describes.
pub fn parse_role(item: &Json) -> (r: Result<RoleSummary, RoleListError>)
    ensures
        match r {
            Ok(role) => role_in(item@) == Ok::<RoleView, RoleListError>(role@),
            Err(e) => role_in(item@) == Err::<RoleView, RoleListError>(e),
        },
{
    let meta = item.get("metadata");
    if meta.is_none() {
        return Err(RoleListError::MissingMetadata);
    }
    let name = match text_in(get_in(meta, "name")) {
        Some(n) => n,
        None => {
            return Err(RoleListError::MissingName);
        },
    };
    let annotations = get_in(meta, "annotations");
    let spec = item.get("spec");
    let display_name = or_text(
        text_in(get_in(annotations, "kubernetes.io/display-name")),
        text_in(first_of(item.get("displayName"), get_in(spec, "displayName"))),
    );
    let display_name = or_text(display_name, Some(name.clone()));
    let description = or_text(
        text_in(get_in(spec, "description")),
        text_in(get_in(annotations, "kubernetes.io/description")),
    );
    let sort_order: u32 = match text_in(get_in(annotations, "taxonomy.miloapis.com/sort-order")) {
        Some(s) => match parse_u32(s.as_str()) {
            Some(n) => n,
            None => 999,
        },
        None => 999,
    };
    Ok(
        RoleSummary {
            name,
            namespace: text_in(get_in(meta, "namespace")),
            display_name,
            description,
            sort_order,
        },
    )
}

fn role_place(v: &Vec<RoleSummary>, x: &RoleSummary) -> (r: usize)
    ensures
        r == place(role_views(v@), x@, by_sort_order()),
        r <= v@.len(),
{
    let ghost all = role_views(v@);
    let mut i: usize = 0;
    assert(all.skip(0) =~= all);
    while i < v.len()
        invariant
            i <= v@.len(),
            all == role_views(v@),
            place(all, x@, by_sort_order()) == i + place(all.skip(i as int), x@, by_sort_order()),
        decreases v@.len() - i,
    {
        let ghost rest = all.skip(i as int);
        assert(rest.drop_first() =~= all.skip(i + 1));
        assert(rest[0] == v@[i as int]@);
        if x.sort_order < v[i].sort_order {
            return i;
        }
        i += 1;
    }
    i
}

/// The roles that a list offers, in the order in which they are shown.
pub fn parse_role_list(json: &Json) -> (r: Result<Vec<RoleSummary>, RoleListError>)
    ensures
        match r {
            Ok(v) => role_list(json@) == Ok::<Seq<RoleView>, RoleListError>(role_views(v@)),
            Err(e) => role_list(json@) == Err::<Seq<RoleView>, RoleListError>(e),
        },
{
    let items = match json.get("items") {
        Some(j) => match j.as_array() {
            Some(v) => v,
            None => {
                return Err(RoleListError::MissingItems);
            },
        },
        None => {
            return Err(RoleListError::MissingItems);
        },
    };
    let ghost all = items_of(json@)->0;
    let ghost mut roles: Seq<RoleView> = Seq::empty();
    let mut out: Vec<RoleSummary> = Vec::new();
    let mut i: usize = 0;
    assert(all.take(0) =~= Seq::<JsonView>::empty());
    assert(role_views(out@) =~= Seq::<RoleView>::empty());
    while i < items.len()
        invariant
            i <= items@.len(),
            all.len() == items@.len(),
            items_of(json@) == Some(all),
            forall|k: int| 0 <= k < items@.len() ==> (#[trigger] items@[k])@ == all[k],
            roles_in(all.take(i as int)) == Ok::<Seq<RoleView>, RoleListError>(roles),
            role_views(out@) == sorted(roles, by_sort_order()),
        decreases items@.len() - i,
    {
        let ghost upto = all.take(i + 1);
        assert(upto.drop_last() =~= all.take(i as int));
        assert(upto.last() == items@[i as int]@);
        if role_status_is_success(&items[i]) {
            match parse_role(&items[i]) {
                Ok(role) => {
                    let ghost before = role_views(out@);
                    let ghost added = roles.push(role@);
                    assert(added.drop_last() =~= roles);
                    let at: usize = role_place(&out, &role);
                    out.insert(at, role);
                    assert(role_views(out@) =~= before.insert(at as int, role@));
                    proof {
                        roles = added;
                    }
                },
                Err(e) => {
                    proof {
                        lemma_error_stays(all, i + 1, e);
                    }
                    return Err(e);
                },
            }
        }
        i += 1;
    }
    assert(all.take(all.len() as int) =~= all);
    Ok(out)
}

proof fn lemma_error_stays(items: Seq<JsonView>, i: int, e: RoleListError)
    requires
        0 <= i <= items.len(),
        roles_in(items.take(i)) == Err::<Seq<RoleView>, RoleListError>(e),
    ensures
        roles_in(items) == Err::<Seq<RoleView>, RoleListError>(e),
    decreases items.len() - i,
{
    if i < items.len() {
        assert(items.take(i + 1).drop_last() =~= items.take(i));
        lemma_error_stays(items, i + 1, e);
    } else {
        assert(items.take(i) =~= items);
    }
}

proof fn lemma_roles_offered(items: Seq<JsonView>, role: RoleView)
    requires
        roles_in(items) is Ok,
    ensures
        roles_in(items)->Ok_0.contains(role) <==> exists|i: int|
            0 <= i < items.len() && is_offered(#[trigger] items[i]) && role_in(items[i]) == Ok::<
                RoleView,
                RoleListError,
            >(role),
    decreases items.len(),
{
    if items.len() > 0 {
        let front = items.drop_last();
        lemma_roles_offered(front, role);
        let before = roles_in(front)->Ok_0;
        let all = roles_in(items)->Ok_0;
        if all.contains(role) {
            let k = choose|k: int| 0 <= k < all.len() && all[k] == role;
            if k < before.len() {
                assert(before[k] == role);
                let i = choose|i: int|
                    0 <= i < front.len() && is_offered(#[trigger] front[i]) && role_in(front[i])
                        == Ok::<RoleView, RoleListError>(role);
                assert(items[i] == front[i]);
            } else {
                assert(is_offered(items[items.len() - 1]));
            }
        }
        if exists|i: int|
            0 <= i < items.len() && is_offered(#[trigger] items[i]) && role_in(items[i]) == Ok::<
                RoleView,
                RoleListError,
            >(role) {
            let i = choose|i: int|
                0 <= i < items.len() && is_offered(#[trigger] items[i]) && role_in(items[i])
                    == Ok::<RoleView, RoleListError>(role);
            if i < front.len() {
                assert(front[i] == items[i]);
                let k = choose|k: int| 0 <= k < before.len() && before[k] == role;
                assert(all[k] == role);
            } else {
                assert(all[before.len() as int] == role);
            }
        }
    }
}

/// A role is shown if and only if an item of the list describes it of which no condition says that
/// it is not ready.
pub proof fn law_offered_roles_are_shown(items: Seq<JsonView>, role: RoleView)
    requires
        roles_in(items) is Ok,
    ensures
        sorted(roles_in(items)->Ok_0, by_sort_order()).contains(role) <==> exists|i: int|
            0 <= i < items.len() && is_offered(#[trigger] items[i]) && role_in(items[i]) == Ok::<
                RoleView,
                RoleListError,
            >(role),
{
    broadcast use vstd::seq_lib::group_to_multiset_ensures;

    assert(crate::sorting::is_order(by_sort_order()));
    crate::sorting::law_sorted(roles_in(items)->Ok_0, by_sort_order());
    lemma_roles_offered(items, role);
    let all = roles_in(items)->Ok_0;
    let out = sorted(all, by_sort_order());
    assert(all.contains(role) <==> all.to_multiset().count(role) > 0);
    assert(out.contains(role) <==> out.to_multiset().count(role) > 0);
}

/// Roles are shown by rising place; roles with the same place keep their order.
pub proof fn law_roles_sorted(items: Seq<JsonView>, k: RoleView)
    requires
        roles_in(items) is Ok,
    ensures
        crate::sorting::in_order(sorted(roles_in(items)->Ok_0, by_sort_order()), by_sort_order()),
        crate::sorting::alike(
            sorted(roles_in(items)->Ok_0, by_sort_order()),
            k,
            by_sort_order(),
        ) == crate::sorting::alike(roles_in(items)->Ok_0, k, by_sort_order()),
{
    assert(crate::sorting::is_order(by_sort_order()));
    crate::sorting::law_sorted(roles_in(items)->Ok_0, by_sort_order());
    crate::sorting::law_sorted_stable(roles_in(items)->Ok_0, k, by_sort_order());
}

/// Roles are shown by rising numbers of their places, and all of them.
pub proof fn law_roles_by_place(json: JsonView)
    requires
        role_list(json) is Ok,
    ensures
        ({
            let out = role_list(json)->Ok_0;
            &&& forall|i: int, j: int|
                0 <= i < j < out.len() ==> (#[trigger] out[i]).sort_order <= (
                #[trigger] out[j]).sort_order
            &&& out.len() == roles_in(items_of(json)->0)->Ok_0.len()
        }),
{
    let roles = roles_in(items_of(json)->0)->Ok_0;
    assert(crate::sorting::is_order(by_sort_order()));
    crate::sorting::law_sorted(roles, by_sort_order());
    let out = role_list(json)->Ok_0;
    assert forall|i: int, j: int| 0 <= i < j < out.len() implies (#[trigger] out[i]).sort_order <= (
    #[trigger] out[j]).sort_order by {
        assert(!by_sort_order()(out[j], out[i]));
    }
}

/// The roles of a list that can be read are those of the items that are offered, in their order.
pub proof fn law_roles_from_items(items: Seq<JsonView>)
    requires
        roles_in(items) is Ok,
    ensures
        picks(
            items,
            |item: JsonView|
                if is_offered(item) {
                    match role_in(item) {
                        Ok(role) => Some(role),
                        Err(_) => None,
                    }
                } else {
                    None
                },
            roles_in(items)->Ok_0,
        ),
        forall|i: int|
            0 <= i < items.len() && is_offered(#[trigger] items[i]) ==> role_in(items[i]) is Ok,
    decreases items.len(),
{
    let f = |item: JsonView|
        if is_offered(item) {
            match role_in(item) {
                Ok(role) => Some(role),
                Err(_) => None,
            }
        } else {
            None
        };
    if items.len() == 0 {
        lemma_picks_none(items, f, roles_in(items)->Ok_0);
    } else {
        let front = items.drop_last();
        law_roles_from_items(front);
        lemma_picks_next(items, f, roles_in(front)->Ok_0, roles_in(items)->Ok_0);
        assert forall|i: int| 0 <= i < items.len() && is_offered(#[trigger] items[i]) implies role_in(
            items[i],
        ) is Ok by {
            if i < front.len() {
                assert(front[i] == items[i]);
            }
        }
    }
}

/// A list with an item on offer that cannot be read is refused, with what is wrong with the first
/// such item.
pub proof fn law_unreadable_role(items: Seq<JsonView>, i: int)
    requires
        0 <= i < items.len(),
        is_offered(items[i]),
        role_in(items[i]) is Err,
        forall|k: int|
            0 <= k < i && is_offered(#[trigger] items[k]) ==> role_in(items[k]) is Ok,
    ensures
        roles_in(items) == Err::<Seq<RoleView>, RoleListError>(role_in(items[i])->Err_0),
    decreases items.len(),
{
    let front = items.drop_last();
    if i < front.len() {
        assert forall|k: int| 0 <= k < i && is_offered(#[trigger] front[k]) implies role_in(
            front[k],
        ) is Ok by {
            assert(front[k] == items[k]);
        }
        assert(front[i] == items[i]);
        law_unreadable_role(front, i);
    } else {
        assert forall|k: int| 0 <= k < front.len() && is_offered(#[trigger] front[k]) implies role_in(
            front[k],
        ) is Ok by {
            assert(front[k] == items[k]);
        }
        lemma_all_readable(front);
    }
}

proof fn lemma_all_readable(items: Seq<JsonView>)
    requires
        forall|k: int|
            0 <= k < items.len() && is_offered(#[trigger] items[k]) ==> role_in(items[k]) is Ok,
    ensures
        roles_in(items) is Ok,
    decreases items.len(),
{
    if items.len() > 0 {
        let front = items.drop_last();
        assert forall|k: int| 0 <= k < front.len() && is_offered(#[trigger] front[k]) implies role_in(
            front[k],
        ) is Ok by {
            assert(front[k] == items[k]);
        }
        lemma_all_readable(front);
        assert(items[items.len() - 1] == items.last());
    }
}

/// A role is kept back exactly if a condition of kind `Ready` has a text other than `True` as its
/// status.
pub proof fn law_offered(item: JsonView)
    ensures
        reached(item, seq!["status"@, "conditions"@]) matches Some(JsonView::Array(conditions))
            ==> (is_offered(item) <==> forall|i: int|
            0 <= i < conditions.len() && text_at(#[trigger] conditions[i], seq!["type"@]) == Some(
                "Ready"@,
            ) && text_at(conditions[i], seq!["status"@]) is Some ==> text_at(
                conditions[i],
                seq!["status"@],
            ) == Some("True"@)),
        !(reached(item, seq!["status"@, "conditions"@]) matches Some(JsonView::Array(_)))
            ==> is_offered(item),
{
    lemma_reached(item, "status"@, "conditions"@);
    if let Some(JsonView::Array(conditions)) = reached(item, seq!["status"@, "conditions"@]) {
        assert forall|i: int| 0 <= i < conditions.len() implies says_not_ready(
            #[trigger] conditions[i],
        ) == (text_at(conditions[i], seq!["type"@]) == Some("Ready"@) && text_at(
            conditions[i],
            seq!["status"@],
        ) is Some && text_at(conditions[i], seq!["status"@]) != Some("True"@)) by {
            lemma_text_at(conditions[i], "type"@, "type"@, "type"@);
            lemma_text_at(conditions[i], "status"@, "status"@, "status"@);
        }
        if !is_offered(item) {
            let i = choose|i: int|
                0 <= i < conditions.len() && says_not_ready(#[trigger] conditions[i]);
            assert(text_at(conditions[i], seq!["type"@]) == Some("Ready"@));
        }
    }
}

/// What is read of a role: its name and namespace from its metadata; the name for users from the
/// annotations, else from the role, else its name; what it permits from `spec`, else from the
/// annotations; and its place as it is written there in decimal, 999 where nothing is written.
pub proof fn law_role_in(item: JsonView, n: u32)
    ensures
        ({
            let notes = |key: Seq<char>| text_at(item, seq!["metadata"@, "annotations"@, key]);
            let name = text_at(item, seq!["metadata"@, "name"@]);
            &&& reached(item, seq!["metadata"@]) is None ==> role_in(item) == Err::<
                RoleView,
                RoleListError,
            >(RoleListError::MissingMetadata)
            &&& reached(item, seq!["metadata"@]) is Some && name is None ==> role_in(item) == Err::<
                RoleView,
                RoleListError,
            >(RoleListError::MissingName)
            &&& name is Some ==> role_in(item) is Ok
            &&& role_in(item) is Ok ==> {
                let role = role_in(item)->Ok_0;
                &&& Some(role.name) == name
                &&& role.namespace == text_at(item, seq!["metadata"@, "namespace"@])
                &&& notes("kubernetes.io/display-name"@) is Some ==> role.display_name == notes(
                    "kubernetes.io/display-name"@,
                )
                &&& notes("kubernetes.io/display-name"@) is None && text_at(
                    item,
                    seq!["displayName"@],
                ) is Some ==> role.display_name == text_at(item, seq!["displayName"@])
                &&& notes("kubernetes.io/display-name"@) is None && reached(
                    item,
                    seq!["displayName"@],
                ) is None && text_at(item, seq!["spec"@, "displayName"@]) is Some
                    ==> role.display_name == text_at(item, seq!["spec"@, "displayName"@])
                &&& notes("kubernetes.io/display-name"@) is None && reached(
                    item,
                    seq!["displayName"@],
                ) is None && reached(item, seq!["spec"@, "displayName"@]) is None
                    ==> role.display_name == name
                &&& text_at(item, seq!["spec"@, "description"@]) is Some ==> role.description
                    == text_at(item, seq!["spec"@, "description"@])
                &&& text_at(item, seq!["spec"@, "description"@]) is None ==> role.description
                    == notes("kubernetes.io/description"@)
                &&& notes("taxonomy.miloapis.com/sort-order"@) == Some(decimal(n as nat))
                    ==> role.sort_order == n
                &&& notes("taxonomy.miloapis.com/sort-order"@) is None ==> role.sort_order == 999
                &&& notes("taxonomy.miloapis.com/sort-order"@) is Some && parsed(
                    notes("taxonomy.miloapis.com/sort-order"@)->0,
                    u32::MAX as nat,
                ) is None ==> role.sort_order == 999
            }
        }),
{
    lemma_reached(item, "metadata"@, "name"@);
    lemma_reached(item, "displayName"@, "displayName"@);
    lemma_reached(item, "spec"@, "displayName"@);
    lemma_text_at(item, "metadata"@, "name"@, "name"@);
    lemma_text_at(item, "metadata"@, "namespace"@, "namespace"@);
    lemma_text_at(item, "displayName"@, "displayName"@, "displayName"@);
    lemma_text_at(item, "spec"@, "displayName"@, "displayName"@);
    lemma_text_at(item, "spec"@, "description"@, "description"@);
    lemma_text_at(item, "metadata"@, "annotations"@, "kubernetes.io/display-name"@);
    lemma_text_at(item, "metadata"@, "annotations"@, "kubernetes.io/description"@);
    lemma_text_at(item, "metadata"@, "annotations"@, "taxonomy.miloapis.com/sort-order"@);
    crate::text::lemma_decimal_parses(n as nat, u32::MAX as nat);
}

} // verus!
