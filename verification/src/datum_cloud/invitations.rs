//! Invitations of users to an organization.
use crate::datum_apis::user_invitation::RoleReference;
use crate::json::{lemma_reached, lemma_text_at, pair_value, reached, text_at, Json, JsonView};
use crate::random::{is_alphanumeric, random_alphanumeric};
use crate::text::{ascii_lower, cat3, to_ascii_lower, trim, trimmed};
use crate::times::{rfc3339_text, to_rfc3339, FIRST_SECOND, LAST_SECOND, NANOS};
use vstd::prelude::*;

verus! {

/// How many random characters the name of an invitation ends with.
pub const SUFFIX_LEN: usize = 8;

/// How many seconds an invitation is valid.
pub const INVITATION_SECS: i64 = 86_400;

/// A small letter or digit of ASCII.
pub open spec fn is_small_alphanumeric(c: char) -> bool {
    'a' <= c <= 'z' || '0' <= c <= '9'
}

/// The name of an invitation, given its random part.
pub fn invitation_name_with(org_id: &str, random: &str) -> (r: String)
    ensures
        r@ == org_id@ + "-"@ + ascii_lower(random@),
{
    let suffix = to_ascii_lower(random);
    cat3(org_id, "-", suffix.as_str())
}

/// A name for an invitation: the organization, and eight random small letters and digits.
pub fn invitation_name(org_id: &str) -> (r: String)
    ensures
        r@.len() == org_id@.len() + 1 + SUFFIX_LEN,
        r@.take(org_id@.len() as int) == org_id@,
        r@[org_id@.len() as int] == '-',
        forall|i: int| org_id@.len() < i < r@.len() ==> is_small_alphanumeric(#[trigger] r@[i]),
{
    let random = random_alphanumeric(SUFFIX_LEN);
    let name = invitation_name_with(org_id, random.as_str());
    proof {
        reveal_strlit("-");
        let lower = ascii_lower(random@);
        assert(name@.take(org_id@.len() as int) =~= org_id@);
        assert forall|i: int| org_id@.len() < i < name@.len() implies is_small_alphanumeric(
            #[trigger] name@[i],
        ) by {
            let k = i - org_id@.len() - 1;
            assert(name@[i] == lower[k]);
            assert(is_alphanumeric(random@[k]));
        }
    }
    name
}

/// The namespace of an organization's invitations.
pub fn invitation_namespace(org_id: &str) -> (r: String)
    ensures
        r@ == "organization-"@ + org_id@,
{
    crate::text::cat("organization-", org_id)
}

/// A text without surrounding whitespace; null if it is missing or nothing is left.
pub open spec fn text_or_null(o: Option<&str>) -> JsonView {
    match o {
        Some(s) if trimmed(s@).len() > 0 => JsonView::Str(trimmed(s@)),
        _ => JsonView::Null,
    }
}

/// A role as it is named in an invitation. Where its namespace is missing it is that of the
/// system.
pub open spec fn role_payload(role: RoleReference) -> JsonView {
    JsonView::Object(
        seq![
            ("name"@, JsonView::Str(role.name@)),
            (
                "namespace"@,
                JsonView::Str(
                    match role.namespace {
                        Some(n) => n@,
                        None => "milo-system"@,
                    },
                ),
            ),
        ],
    )
}

pub open spec fn roles_payload(roles: Option<Vec<RoleReference>>) -> JsonView {
    match roles {
        Some(v) => JsonView::Array(Seq::new(v@.len(), |i: int| role_payload(v@[i]))),
        None => JsonView::Array(Seq::empty()),
    }
}

/// The invitation as it is sent.
pub open spec fn invitation(
    org_id: Seq<char>,
    name: Seq<char>,
    expiration: Seq<char>,
    email: Seq<char>,
    given_name: JsonView,
    family_name: JsonView,
    roles: JsonView,
) -> JsonView {
    JsonView::Object(
        seq![
            ("apiVersion"@, JsonView::Str("iam.miloapis.com/v1alpha1"@)),
            ("kind"@, JsonView::Str("UserInvitation"@)),
            ("metadata"@, JsonView::Object(seq![("name"@, JsonView::Str(name))])),
            (
                "spec"@,
                JsonView::Object(
                    seq![
                        ("email"@, JsonView::Str(trimmed(email))),
                        ("expirationDate"@, JsonView::Str(expiration)),
                        (
                            "organizationRef"@,
                            JsonView::Object(seq![("name"@, JsonView::Str(org_id))]),
                        ),
                        ("givenName"@, given_name),
                        ("familyName"@, family_name),
                        ("roles"@, roles),
                        ("state"@, JsonView::Str("Pending"@)),
                    ],
                ),
            ),
        ],
    )
}

/// The contents of a row of pairs.
pub open spec fn object_views(s: Seq<(String, Json)>) -> Seq<(Seq<char>, JsonView)> {
    Seq::new(s.len(), |i: int| (s[i].0@, s[i].1@))
}

fn object(pairs: Vec<(String, Json)>) -> (r: Json)
    ensures
        r@ == JsonView::Object(object_views(pairs@)),
{
    let r = Json::Object(pairs);
    assert(r@->Object_0 =~= object_views(pairs@));
    r
}

fn text(s: &str) -> (r: Json)
    ensures
        r@ == JsonView::Str(s@),
{
    Json::Str(s.to_owned())
}

fn named(name: &str) -> (r: Json)
    ensures
        r@ == JsonView::Object(seq![("name"@, JsonView::Str(name@))]),
{
    let mut pairs: Vec<(String, Json)> = Vec::new();
    pairs.push(("name".to_owned(), text(name)));
    assert(object_views(pairs@) =~= seq![("name"@, JsonView::Str(name@))]);
    object(pairs)
}

fn filled_or_null(o: Option<&str>) -> (r: Json)
    ensures
        r@ == text_or_null(o),
{
    match o {
        Some(s) => {
            let t = trim(s);
            if t.as_str().is_empty() {
                Json::Null
            } else {
                Json::Str(t)
            }
        },
        None => Json::Null,
    }
}

fn role_object(role: &RoleReference) -> (r: Json)
    ensures
        r@ == role_payload(*role),
{
    let namespace = match &role.namespace {
        Some(n) => n.clone(),
        None => "milo-system".to_owned(),
    };
    let mut pairs: Vec<(String, Json)> = Vec::new();
    pairs.push(("name".to_owned(), text(role.name.as_str())));
    pairs.push(("namespace".to_owned(), text(namespace.as_str())));
    assert(object_views(pairs@) =~= role_payload(*role)->Object_0);
    object(pairs)
}

fn roles_array(roles: &Option<Vec<RoleReference>>) -> (r: Json)
    ensures
        r@ == roles_payload(*roles),
{
    let mut out: Vec<Json> = Vec::new();
    if let Some(v) = roles {
        let mut i: usize = 0;
        while i < v.len()
            invariant
                i <= v@.len(),
                out@.len() == i,
                forall|k: int| 0 <= k < i ==> (#[trigger] out@[k])@ == role_payload(v@[k]),
            decreases v@.len() - i,
        {
            out.push(role_object(&v[i]));
            i += 1;
        }
    }
    let r = Json::Array(out);
    assert(r@->Array_0 =~= roles_payload(*roles)->Array_0);
    r
}

/// The invitation as it is sent, with its name and its date of expiry.
pub fn invitation_body(
    org_id: &str,
    name: &str,
    expiration: &str,
    email: &str,
    given_name: Option<&str>,
    family_name: Option<&str>,
    roles: &Option<Vec<RoleReference>>,
) -> (r: Json)
    ensures
        r@ == invitation(
            org_id@,
            name@,
            expiration@,
            email@,
            text_or_null(given_name),
            text_or_null(family_name),
            roles_payload(*roles),
        ),
{
    let address = trim(email);
    let mut spec: Vec<(String, Json)> = Vec::new();
    spec.push(("email".to_owned(), text(address.as_str())));
    spec.push(("expirationDate".to_owned(), text(expiration)));
    spec.push(("organizationRef".to_owned(), named(org_id)));
    spec.push(("givenName".to_owned(), filled_or_null(given_name)));
    spec.push(("familyName".to_owned(), filled_or_null(family_name)));
    spec.push(("roles".to_owned(), roles_array(roles)));
    spec.push(("state".to_owned(), text("Pending")));
    let ghost whole = invitation(
        org_id@,
        name@,
        expiration@,
        email@,
        text_or_null(given_name),
        text_or_null(family_name),
        roles_payload(*roles),
    );
    assert(object_views(spec@) =~= whole->Object_0[3].1->Object_0);
    let mut pairs: Vec<(String, Json)> = Vec::new();
    pairs.push(("apiVersion".to_owned(), text("iam.miloapis.com/v1alpha1")));
    pairs.push(("kind".to_owned(), text("UserInvitation")));
    pairs.push(("metadata".to_owned(), named(name)));
    pairs.push(("spec".to_owned(), object(spec)));
    assert(object_views(pairs@) =~= whole->Object_0);
    object(pairs)
}

/// When an invitation made now expires: a day later, as a date.
pub fn invitation_expiry(now_seconds: i64, now_nanos: u32) -> (r: String)
    requires
        FIRST_SECOND <= now_seconds,
        now_seconds + INVITATION_SECS <= LAST_SECOND,
        now_nanos < NANOS,
    ensures
        rfc3339_text((now_seconds + INVITATION_SECS) as i64, now_nanos) == Some(r@),
{
    match to_rfc3339(now_seconds + INVITATION_SECS, now_nanos) {
        Some(s) => s,
        None => vstd::pervasive::unreached(),
    }
}

/// The invitation of a user to an organization, made now: under a name with a random part, and
/// valid for a day.
pub fn create_user_invitation_org(
    org_id: &str,
    email: &str,
    given_name: Option<&str>,
    family_name: Option<&str>,
    roles: &Option<Vec<RoleReference>>,
    now_seconds: i64,
    now_nanos: u32,
) -> (r: Json)
    requires
        FIRST_SECOND <= now_seconds,
        now_seconds + INVITATION_SECS <= LAST_SECOND,
        now_nanos < NANOS,
    ensures
        exists|name: Seq<char>, expiration: Seq<char>|
            {
                &&& #[trigger] invitation(
                    org_id@,
                    name,
                    expiration,
                    email@,
                    text_or_null(given_name),
                    text_or_null(family_name),
                    roles_payload(*roles),
                ) == r@
                &&& rfc3339_text((now_seconds + INVITATION_SECS) as i64, now_nanos) == Some(
                    expiration,
                )
                &&& name.len() == org_id@.len() + 1 + SUFFIX_LEN
                &&& name.take(org_id@.len() as int) == org_id@
                &&& name[org_id@.len() as int] == '-'
                &&& forall|i: int|
                    org_id@.len() < i < name.len() ==> is_small_alphanumeric(#[trigger] name[i])
            },
{
    let name = invitation_name(org_id);
    let expiration = invitation_expiry(now_seconds, now_nanos);
    invitation_body(
        org_id,
        name.as_str(),
        expiration.as_str(),
        email,
        given_name,
        family_name,
        roles,
    )
}

/// What an invitation says, read from what is sent: whom it invites, to which organization, until
/// when, under which name, and that it awaits an answer.
pub proof fn law_invitation(
    org_id: Seq<char>,
    name: Seq<char>,
    expiration: Seq<char>,
    email: Seq<char>,
    given_name: JsonView,
    family_name: JsonView,
    roles: JsonView,
)
    ensures
        ({
            let sent = invitation(
                org_id,
                name,
                expiration,
                email,
                given_name,
                family_name,
                roles,
            );
            &&& text_at(sent, seq!["kind"@]) == Some("UserInvitation"@)
            &&& text_at(sent, seq!["apiVersion"@]) == Some("iam.miloapis.com/v1alpha1"@)
            &&& text_at(sent, seq!["metadata"@, "name"@]) == Some(name)
            &&& text_at(sent, seq!["spec"@, "email"@]) == Some(trimmed(email))
            &&& text_at(sent, seq!["spec"@, "expirationDate"@]) == Some(expiration)
            &&& text_at(sent, seq!["spec"@, "organizationRef"@, "name"@]) == Some(org_id)
            &&& text_at(sent, seq!["spec"@, "state"@]) == Some("Pending"@)
            &&& reached(sent, seq!["spec"@, "givenName"@]) == Some(given_name)
            &&& reached(sent, seq!["spec"@, "familyName"@]) == Some(family_name)
            &&& reached(sent, seq!["spec"@, "roles"@]) == Some(roles)
        }),
{
    let sent = invitation(org_id, name, expiration, email, given_name, family_name, roles);
    reveal_strlit("apiVersion");
    reveal_strlit("kind");
    reveal_strlit("metadata");
    reveal_strlit("spec");
    reveal_strlit("email");
    reveal_strlit("expirationDate");
    reveal_strlit("organizationRef");
    reveal_strlit("givenName");
    reveal_strlit("familyName");
    reveal_strlit("roles");
    reveal_strlit("state");
    lemma_text_at(sent, "kind"@, "kind"@, "kind"@);
    lemma_text_at(sent, "apiVersion"@, "kind"@, "kind"@);
    lemma_text_at(sent, "metadata"@, "name"@, "name"@);
    lemma_text_at(sent, "spec"@, "email"@, "name"@);
    lemma_text_at(sent, "spec"@, "expirationDate"@, "name"@);
    lemma_text_at(sent, "spec"@, "organizationRef"@, "name"@);
    lemma_text_at(sent, "spec"@, "state"@, "name"@);
    lemma_reached(sent, "spec"@, "givenName"@);
    lemma_reached(sent, "spec"@, "familyName"@);
    lemma_reached(sent, "spec"@, "roles"@);
    let top = sent->Object_0;
    assert("kind"@[0] == 'k' && "spec"@[0] == 's');
    assert("email"@[0] == 'e' && "roles"@[0] == 'r' && "state"@[0] == 's');
    assert(top[0].0 == "apiVersion"@ && top[1].0 == "kind"@ && top[2].0 == "metadata"@);
    lemma_value_at(top, 0);
    lemma_value_at(top, 1);
    lemma_value_at(top, 2);
    lemma_value_at(top, 3);
    let spec = top[3].1->Object_0;
    assert(spec[0].0 == "email"@ && spec[1].0 == "expirationDate"@ && spec[2].0
        == "organizationRef"@);
    assert(spec[3].0 == "givenName"@ && spec[4].0 == "familyName"@ && spec[5].0 == "roles"@);
    lemma_value_at(spec, 0);
    lemma_value_at(spec, 1);
    lemma_value_at(spec, 2);
    lemma_value_at(spec, 3);
    lemma_value_at(spec, 4);
    lemma_value_at(spec, 5);
    lemma_value_at(spec, 6);
    lemma_value_at(top[2].1->Object_0, 0);
    lemma_value_at(spec[2].1->Object_0, 0);
}

proof fn lemma_value_at(pairs: Seq<(Seq<char>, JsonView)>, i: int)
    requires
        0 <= i < pairs.len(),
        forall|k: int| 0 <= k < i ==> (#[trigger] pairs[k]).0 != pairs[i].0,
    ensures
        pair_value(pairs, pairs[i].0) == Some(pairs[i].1),
    decreases i,
{
    if i > 0 {
        let rest = pairs.drop_first();
        assert(pairs[0].0 != pairs[i].0);
        assert(rest[i - 1] == pairs[i]);
        assert forall|k: int| 0 <= k < i - 1 implies (#[trigger] rest[k]).0 != rest[i - 1].0 by {
            assert(rest[k] == pairs[k + 1]);
        }
        lemma_value_at(rest, i - 1);
    }
}

/// A name that is given stands in the invitation without the whitespace around it; where nothing is
/// left of it, or none is given, null stands there.
pub proof fn law_given_names(name: &str)
    ensures
        trimmed(name@).len() > 0 ==> text_or_null(Some(name)) == JsonView::Str(trimmed(name@)),
        trimmed(name@).len() == 0 ==> text_or_null(Some(name)) == JsonView::Null,
        text_or_null(None) == JsonView::Null,
{
}

/// Each role that is given stands in the invitation, in its place, with its name and with its
/// namespace or that of the system.
pub proof fn law_given_roles(roles: Vec<RoleReference>, i: int)
    requires
        0 <= i < roles@.len(),
    ensures
        roles_payload(Some(roles)) matches JsonView::Array(sent) && sent.len() == roles@.len()
            && text_at(sent[i], seq!["name"@]) == Some(roles@[i].name@) && text_at(
            sent[i],
            seq!["namespace"@],
        ) == Some(
            if roles@[i].namespace is Some {
                roles@[i].namespace->0@
            } else {
                "milo-system"@
            },
        ),
        roles_payload(None) == JsonView::Array(Seq::empty()),
{
    reveal_strlit("name");
    reveal_strlit("namespace");
    let sent = role_payload(roles@[i]);
    lemma_text_at(sent, "name"@, "name"@, "name"@);
    lemma_text_at(sent, "namespace"@, "name"@, "name"@);
    assert(sent->Object_0[0].0 == "name"@);
    lemma_value_at(sent->Object_0, 0);
    lemma_value_at(sent->Object_0, 1);
}

/// An invitation is valid for a day, and its name ends with eight random signs.
pub proof fn law_invitation_terms(now_seconds: int)
    ensures
        now_seconds + INVITATION_SECS == now_seconds + 24 * 60 * 60,
        SUFFIX_LEN == 8,
{
}

/// Small letters and digits of ASCII are just those.
pub proof fn law_small_alphanumeric(c: char)
    ensures
        is_small_alphanumeric(c) <==> 0x30 <= c as int <= 0x39 || 0x61 <= c as int <= 0x7a,
{
}

} // verus!
