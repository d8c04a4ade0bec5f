//! Requests to the API: where they go, and what their answers mean.
use super::auth::UserProfile;
use super::env::ApiEnv;
use crate::auth_retry::Attempt;
use crate::json::Json;
use crate::text::{cat, cat3, cat4};
use vstd::prelude::*;

verus! {

/// Whose part of the API a request is for.
#[derive(Debug, Clone)]
pub enum Scope {
    User(String),
    Org(String),
}

/// The resource that a request is for.
#[derive(Debug, Clone)]
pub enum Api {
    OrganizationMemberships,
    Projects,
    /// The roles in a namespace.
    NamespacedRoles(String),
    /// The invitations in a namespace.
    NamespacedUserInvitations(String),
}

impl Scope {
    pub open spec fn path(self) -> Seq<char> {
        match self {
            Scope::User(id) => "/apis/iam.miloapis.com/v1alpha1/users/"@ + id@,
            Scope::Org(id) => "/apis/resourcemanager.miloapis.com/v1alpha1/organizations/"@ + id@,
        }
    }

    /// The part of the API of a user.
    pub fn user(profile: &UserProfile) -> (r: Scope)
        ensures
            r == Scope::User(profile.user_id),
    {
        Scope::User(profile.user_id.clone())
    }

    pub fn to_path(&self) -> (r: String)
        ensures
            r@ == self.path(),
    {
        match self {
            Scope::User(id) => cat("/apis/iam.miloapis.com/v1alpha1/users/", id.as_str()),
            Scope::Org(id) => cat(
                "/apis/resourcemanager.miloapis.com/v1alpha1/organizations/",
                id.as_str(),
            ),
        }
    }
}

impl Api {
    pub open spec fn path(self) -> Seq<char> {
        match self {
            Api::OrganizationMemberships => {
                "/control-plane/apis/resourcemanager.miloapis.com/v1alpha1/organizationmemberships"@
            },
            Api::Projects => {
                "/control-plane/apis/resourcemanager.miloapis.com/v1alpha1/projects"@
            },
            Api::NamespacedRoles(ns) => {
                "/control-plane/apis/iam.miloapis.com/v1alpha1/namespaces/"@ + ns@ + "/roles"@
            },
            Api::NamespacedUserInvitations(ns) => {
                "/control-plane/apis/iam.miloapis.com/v1alpha1/namespaces/"@ + ns@
                    + "/userinvitations"@
            },
        }
    }

    pub fn to_path(&self) -> (r: String)
        ensures
            r@ == self.path(),
    {
        match self {
            Api::OrganizationMemberships => {
                "/control-plane/apis/resourcemanager.miloapis.com/v1alpha1/organizationmemberships".to_owned()
            },
            Api::Projects => {
                "/control-plane/apis/resourcemanager.miloapis.com/v1alpha1/projects".to_owned()
            },
            Api::NamespacedRoles(ns) => cat3(
                "/control-plane/apis/iam.miloapis.com/v1alpha1/namespaces/",
                ns.as_str(),
                "/roles",
            ),
            Api::NamespacedUserInvitations(ns) => cat3(
                "/control-plane/apis/iam.miloapis.com/v1alpha1/namespaces/",
                ns.as_str(),
                "/userinvitations",
            ),
        }
    }
}

/// Where a request goes.
pub fn url(env: &ApiEnv, scope: &Scope, api: &Api) -> (r: String)
    ensures
        r@ == env.api() + scope.path() + api.path(),
{
    let scope = scope.to_path();
    let api = api.to_path();
    cat3(env.api_url(), scope.as_str(), api.as_str())
}

/// Where the control plane of a project is.
pub fn project_control_plane_url(env: &ApiEnv, project_id: &str) -> (r: String)
    ensures
        r@ == env.api() + "/apis/resourcemanager.miloapis.com/v1alpha1/projects/"@ + project_id@
            + "/control-plane"@,
{
    cat4(
        env.api_url(),
        "/apis/resourcemanager.miloapis.com/v1alpha1/projects/",
        project_id,
        "/control-plane",
    )
}

/// Where the roles of a namespace are listed; without one, those of the Datum cloud.
pub fn roles_url(env: &ApiEnv, org_id: &str, namespace: Option<&str>) -> (r: String)
    ensures
        r@ == env.api() + ("/apis/resourcemanager.miloapis.com/v1alpha1/organizations/"@ + org_id@)
            + ("/control-plane/apis/iam.miloapis.com/v1alpha1/namespaces/"@ + (match namespace {
            Some(n) => n@,
            None => "datum-cloud"@,
        }) + "/roles"@),
{
    let ns = match namespace {
        Some(n) => n.to_owned(),
        None => "datum-cloud".to_owned(),
    };
    url(env, &Scope::Org(org_id.to_owned()), &Api::NamespacedRoles(ns))
}

/// Where invitations to an organization are sent.
pub fn invitations_url(env: &ApiEnv, org_id: &str) -> (r: String)
    ensures
        r@ == env.api() + ("/apis/resourcemanager.miloapis.com/v1alpha1/organizations/"@ + org_id@)
            + ("/control-plane/apis/iam.miloapis.com/v1alpha1/namespaces/"@ + ("organization-"@
            + org_id@) + "/userinvitations"@),
{
    let ns = super::invitations::invitation_namespace(org_id);
    url(env, &Scope::Org(org_id.to_owned()), &Api::NamespacedUserInvitations(ns))
}

/// The status says that the token is no longer accepted.
pub open spec fn rejects_token(status: u16) -> bool {
    status == 401 || status == 403
}

/// Whether the status says that the token is no longer accepted.
pub fn is_auth_failure(status: u16) -> (r: bool)
    ensures
        r == rejects_token(status),
{
    status == 401 || status == 403
}

/// What a run of a request came to, given its answer and the answer's status, or why there was
/// none.
pub fn attempt_of_response<T>(result: Result<(u16, T), String>) -> (r: Attempt<T, String>)
    ensures
        r == (match result {
            Ok((status, answer)) => if rejects_token(status) {
                Attempt::Rejected
            } else {
                Attempt::Done(answer)
            },
            Err(e) => Attempt::Failed(e),
        }),
{
    match result {
        Ok((status, answer)) => if is_auth_failure(status) {
            Attempt::Rejected
        } else {
            Attempt::Done(answer)
        },
        Err(e) => Attempt::Failed(e),
    }
}

/// Why an answer gives no document.
#[derive(Debug, Clone, Copy, PartialEq, Eq, Structural)]
pub enum FetchError {
    /// The request failed with this status.
    Status(u16),
    /// The answer is no JSON document.
    NotJson,
}

/// The status is one of success.
pub open spec fn succeeds(status: u16) -> bool {
    200 <= status <= 299
}

/// Whether the status is one of success.
pub fn is_success(status: u16) -> (r: bool)
    ensures
        r == succeeds(status),
{
    200 <= status && status <= 299
}

/// The document of an answer, given its status and, where it is one, its JSON document.
pub fn fetch_direct(status: u16, body: Option<Json>) -> (r: Result<Json, FetchError>)
    ensures
        r == (if !succeeds(status) {
            Err(FetchError::Status(status))
        } else {
            match body {
                Some(json) => Ok(json),
                None => Err(FetchError::NotJson),
            }
        }),
{
    if !is_success(status) {
        return Err(FetchError::Status(status));
    }
    match body {
        Some(json) => Ok(json),
        None => Err(FetchError::NotJson),
    }
}

/// Whether a posted document was accepted.
pub fn post_json(status: u16) -> (r: Result<(), FetchError>)
    ensures
        r == (if succeeds(status) {
            Ok(())
        } else {
            Err(FetchError::Status(status))
        }),
{
    if is_success(status) {
        Ok(())
    } else {
        Err(FetchError::Status(status))
    }
}

/// A status tells of success exactly in the two hundreds; a rejected token is told by 401 and 403
/// alone, and is no success.
pub proof fn law_status(status: u16)
    ensures
        succeeds(status) <==> status / 100 == 2,
        rejects_token(status) <==> status == 401 || status == 403,
        rejects_token(status) ==> !succeeds(status),
{
}

/// Where the requests go: the memberships of a user, and the projects, roles and invitations of an
/// organization, each under the user or organization that asks.
pub proof fn law_paths(user: String, org: String, namespace: String)
    ensures
        Scope::User(user).path() + Api::OrganizationMemberships.path()
            == "/apis/iam.miloapis.com/v1alpha1/users/"@ + user@
            + "/control-plane/apis/resourcemanager.miloapis.com/v1alpha1/organizationmemberships"@,
        Scope::Org(org).path() + Api::Projects.path()
            == "/apis/resourcemanager.miloapis.com/v1alpha1/organizations/"@ + org@
            + "/control-plane/apis/resourcemanager.miloapis.com/v1alpha1/projects"@,
        Scope::Org(org).path() + Api::NamespacedRoles(namespace).path()
            == "/apis/resourcemanager.miloapis.com/v1alpha1/organizations/"@ + org@
            + "/control-plane/apis/iam.miloapis.com/v1alpha1/namespaces/"@ + namespace@ + "/roles"@,
        Scope::Org(org).path() + Api::NamespacedUserInvitations(namespace).path()
            == "/apis/resourcemanager.miloapis.com/v1alpha1/organizations/"@ + org@
            + "/control-plane/apis/iam.miloapis.com/v1alpha1/namespaces/"@ + namespace@
            + "/userinvitations"@,
{
    assert(Scope::Org(org).path() + Api::NamespacedRoles(namespace).path()
        =~= "/apis/resourcemanager.miloapis.com/v1alpha1/organizations/"@ + org@
        + "/control-plane/apis/iam.miloapis.com/v1alpha1/namespaces/"@ + namespace@ + "/roles"@);
    assert(Scope::Org(org).path() + Api::NamespacedUserInvitations(namespace).path()
        =~= "/apis/resourcemanager.miloapis.com/v1alpha1/organizations/"@ + org@
        + "/control-plane/apis/iam.miloapis.com/v1alpha1/namespaces/"@ + namespace@
        + "/userinvitations"@);
}

} // verus!
