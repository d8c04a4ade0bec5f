//! Invitations of users to an organization.
use vstd::prelude::*;

verus! {

#[derive(Debug, Clone, PartialEq, Eq)]
pub struct RoleReference {
    pub name: String,
    pub namespace: Option<String>,
}

#[derive(Debug, Clone)]
pub struct UserInvitationSpec {
    pub email: String,
    pub given_name: Option<String>,
    pub family_name: Option<String>,
    pub roles: Option<Vec<RoleReference>>,
}

} // verus!
