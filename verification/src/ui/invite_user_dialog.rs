//! The dialog in which a user is invited to the selected organization.
use crate::datum_apis::user_invitation::RoleReference;
use crate::datum_cloud::roles::{RoleSummary, RoleView};
use crate::state::SelectedContext;
use crate::text::{
    ascii_lower, cat4, contains_char, copy_opt, opt_view, same, strip_back, to_ascii_lower, trim,
    trim_end_matches, trimmed,
};
use vstd::prelude::*;

verus! {

/// The label of a role: its display name, else its name.
pub open spec fn role_label(r: RoleView) -> Seq<char> {
    match r.display_name {
        Some(n) => n,
        None => r.name,
    }
}

pub fn role_display_label(r: &RoleSummary) -> (s: String)
    ensures
        s@ == role_label(r@),
{
    match &r.display_name {
        Some(n) => n.clone(),
        None => r.name.clone(),
    }
}

/// The description of a role: its own, else one for the common roles.
pub open spec fn role_description(r: RoleView) -> Option<Seq<char>> {
    match r.description {
        Some(d) => Some(d),
        None => if r.name == "Owner"@ {
            Some("Full access to all Datum Cloud resources in the organization"@)
        } else if r.name == "Editor"@ {
            Some(
                "Edit access to all Datum Cloud resources in the organization, except managing team members"@,
            )
        } else if r.name == "Viewer"@ {
            Some("View access to all Datum Cloud resources in the organization"@)
        } else {
            None
        },
    }
}

pub fn role_display_description(r: &RoleSummary) -> (s: Option<String>)
    ensures
        opt_view(s) == role_description(r@),
{
    match &r.description {
        Some(d) => Some(d.clone()),
        None => {
            let name = r.name.as_str();
            if same(name, "Owner") {
                Some("Full access to all Datum Cloud resources in the organization".to_owned())
            } else if same(name, "Editor") {
                Some(
                    "Edit access to all Datum Cloud resources in the organization, except managing team members".to_owned(),
                )
            } else if same(name, "Viewer") {
                Some("View access to all Datum Cloud resources in the organization".to_owned())
            } else {
                None
            }
        },
    }
}

/// The address has an at sign and a dot.
pub open spec fn looks_like_email(t: Seq<char>) -> bool {
    t.contains('@') && t.contains('.')
}

/// What is wrong with an email address. Nothing is wrong with an empty one as long as it is not
/// sent.
pub open spec fn email_problem(s: Seq<char>) -> Option<Seq<char>> {
    let t = trimmed(s);
    if t.len() == 0 || looks_like_email(t) {
        None
    } else {
        Some("Please enter a valid email address."@)
    }
}

pub fn validate_email(email: &str) -> (r: Option<String>)
    ensures
        opt_view(r) == email_problem(email@),
{
    let t = trim(email);
    if t.as_str().is_empty() {
        return None;
    }
    if !contains_char(t.as_str(), '@') || !contains_char(t.as_str(), '.') {
        return Some("Please enter a valid email address.".to_owned());
    }
    None
}

/// Users can be invited to the organization: it is no personal one.
pub open spec fn is_team(c: SelectedContext) -> bool {
    ascii_lower(c.org_type@) != "personal"@
}

impl SelectedContext {
    /// Whether users can be invited to the organization.
    pub fn can_send_invite(&self) -> (r: bool)
        ensures
            r == is_team(*self),
    {
        let kind = to_ascii_lower(self.org_type.as_str());
        !same(kind.as_str(), "personal")
    }
}

/// The organization is selected, and users can be invited to it.
pub open spec fn can_invite(selected: Option<SelectedContext>) -> bool {
    selected is Some && is_team(selected->0)
}

/// Nothing can be sent: users cannot be invited, the address is missing or wrong, or no role is
/// selected.
pub open spec fn cannot_invite(
    selected: Option<SelectedContext>,
    email: Seq<char>,
    role: Option<String>,
) -> bool {
    !can_invite(selected) || trimmed(email).len() == 0 || email_problem(email) is Some
        || role is None
}

/// The fields of the dialog.
#[derive(Debug)]
pub struct InviteForm {
    pub email: String,
    pub role: Option<String>,
}

/// The fields of a dialog that is closed.
pub fn empty_form() -> (r: InviteForm)
    ensures
        r.email@.len() == 0,
        r.role is None,
{
    InviteForm { email: String::new(), role: None }
}

/// The organization whose roles are asked for: that selected, while the dialog is open.
pub fn roles_to_fetch(open: bool, selected: &Option<SelectedContext>) -> (r: Option<String>)
    ensures
        r == (match *selected {
            Some(c) if open => Some(c.org_id),
            _ => None,
        }),
{
    match selected {
        Some(c) if open => Some(c.org_id.clone()),
        _ => None,
    }
}

/// What the dialog shows.
#[derive(Debug)]
pub enum InviteView {
    /// The invitation was sent; where the team is shown in the web application.
    Sent { team_url: Option<String> },
    /// Users cannot be invited to a personal organization.
    Unavailable,
    Form { email_error: Option<String>, submit_disabled: bool, submit_text: String },
}

/// The page of an organization's team in the web application.
pub open spec fn team_page(web_url: Seq<char>, org_id: Seq<char>) -> Seq<char> {
    strip_back(web_url, '/') + "/org/"@ + org_id + "/team"@
}

/// What the dialog shows. `sent` says whether an invitation was sent since it was opened.
pub fn dialog(
    sent: bool,
    pending: bool,
    form: &InviteForm,
    selected: &Option<SelectedContext>,
    web_url: &str,
) -> (r: InviteView)
    ensures
        match r {
            InviteView::Sent { team_url } => sent && opt_view(team_url) == (match *selected {
                Some(c) => Some(team_page(web_url@, c.org_id@)),
                None => None,
            }),
            InviteView::Unavailable => !sent && !can_invite(*selected),
            InviteView::Form { email_error, submit_disabled, submit_text } => {
                &&& !sent && can_invite(*selected)
                &&& opt_view(email_error) == email_problem(form.email@)
                &&& submit_disabled == cannot_invite(*selected, form.email@, form.role)
                &&& submit_text@ == (if pending {
                    "Sending…"@
                } else {
                    "Send invite"@
                })
            },
        },
{
    if sent {
        let team_url = match selected {
            Some(c) => {
                let base = trim_end_matches(web_url, '/');
                Some(cat4(base.as_str(), "/org/", c.org_id.as_str(), "/team"))
            },
            None => None,
        };
        return InviteView::Sent { team_url };
    }
    let available = match selected {
        Some(c) => c.can_send_invite(),
        None => false,
    };
    if !available {
        return InviteView::Unavailable;
    }
    let email_error = validate_email(form.email.as_str());
    let email = trim(form.email.as_str());
    let submit_disabled = email.as_str().is_empty() || email_error.is_some() || form.role.is_none();
    let text = if pending {
        "Sending…"
    } else {
        "Send invite"
    };
    InviteView::Form { email_error, submit_disabled, submit_text: text.to_owned() }
}

/// A role in the list to choose from.
#[derive(Debug)]
pub struct RoleOption {
    pub value: String,
    pub label: String,
    pub description: Option<String>,
}

impl RoleOption {
    /// The option is that of the role.
    pub open spec fn stands_for(self, r: RoleView) -> bool {
        &&& self.value@ == r.name
        &&& self.label@ == role_label(r)
        &&& opt_view(self.description) == role_description(r)
    }
}

/// What the list of roles shows.
#[derive(Debug)]
pub enum RoleOptions {
    Loading,
    Empty,
    Roles(Vec<RoleOption>),
}

/// What the list of roles shows: nothing to choose while the roles are being fetched, or where
/// there are none or fetching them failed.
pub fn role_options(roles: &Option<Result<Vec<RoleSummary>, String>>) -> (r: RoleOptions)
    ensures
        match (*roles, r) {
            (None, RoleOptions::Loading) => true,
            (Some(Err(_)), RoleOptions::Empty) => true,
            (Some(Ok(v)), RoleOptions::Empty) => v@.len() == 0,
            (Some(Ok(v)), RoleOptions::Roles(o)) => v@.len() > 0 && o@.len() == v@.len() && forall|
                i: int,
            |
                0 <= i < o@.len() ==> (#[trigger] o@[i]).stands_for(v@[i]@),
            _ => false,
        },
{
    match roles {
        None => RoleOptions::Loading,
        Some(Err(_)) => RoleOptions::Empty,
        Some(Ok(v)) => {
            if v.len() == 0 {
                return RoleOptions::Empty;
            }
            let mut out: Vec<RoleOption> = Vec::new();
            let mut i: usize = 0;
            while i < v.len()
                invariant
                    i <= v@.len(),
                    out@.len() == i,
                    forall|k: int| 0 <= k < i ==> (#[trigger] out@[k]).stands_for(v@[k]@),
                decreases v@.len() - i,
            {
                out.push(
                    RoleOption {
                        value: v[i].name.clone(),
                        label: role_display_label(&v[i]),
                        description: role_display_description(&v[i]),
                    },
                );
                i += 1;
            }
            RoleOptions::Roles(out)
        },
    }
}

/// The first role of the name.
pub open spec fn role_named(roles: Seq<RoleSummary>, name: Seq<char>) -> Option<RoleSummary>
    decreases roles.len(),
{
    if roles.len() == 0 {
        None
    } else if roles[0].name@ == name {
        Some(roles[0])
    } else {
        role_named(roles.drop_first(), name)
    }
}

/// The reference to the first role of the name.
pub fn find_role(roles: &Vec<RoleSummary>, name: &str) -> (r: Option<RoleReference>)
    ensures
        match role_named(roles@, name@) {
            Some(role) => r == Some(RoleReference { name: role.name, namespace: role.namespace }),
            None => r is None,
        },
{
    let ghost all = roles@;
    let mut i: usize = 0;
    assert(all.skip(0) =~= all);
    while i < roles.len()
        invariant
            i <= roles@.len(),
            all == roles@,
            role_named(all, name@) == role_named(all.skip(i as int), name@),
        decreases roles@.len() - i,
    {
        let ghost rest = all.skip(i as int);
        assert(rest.drop_first() =~= all.skip(i + 1));
        assert(rest[0] == all[i as int]);
        if same(roles[i].name.as_str(), name) {
            return Some(
                RoleReference {
                    name: roles[i].name.clone(),
                    namespace: copy_opt(&roles[i].namespace),
                },
            );
        }
        i += 1;
    }
    None
}

/// What the button that sends does: none where nothing can be sent, else the address and the role
/// that is selected, if it is still offered.
pub fn submit(
    form: &InviteForm,
    selected: &Option<SelectedContext>,
    roles: &Vec<RoleSummary>,
) -> (r: Option<(String, Option<RoleReference>)>)
    ensures
        r is None <==> cannot_invite(*selected, form.email@, form.role),
        r matches Some((email, role)) ==> {
            &&& email == form.email
            &&& match role_named(roles@, form.role->0@) {
                Some(x) => role == Some(RoleReference { name: x.name, namespace: x.namespace }),
                None => role is None,
            }
        },
{
    let available = match selected {
        Some(c) => c.can_send_invite(),
        None => false,
    };
    let email = trim(form.email.as_str());
    let problem = validate_email(form.email.as_str());
    if !available || email.as_str().is_empty() || problem.is_some() {
        return None;
    }
    match &form.role {
        None => None,
        Some(name) => Some((form.email.clone(), find_role(roles, name.as_str()))),
    }
}

/// Why an invitation is not sent.
#[derive(Debug, Clone, Copy, PartialEq, Eq, Structural)]
pub enum InviteError {
    NoOrganization,
    PersonalOrganization,
}

impl InviteError {
    pub fn message(self) -> (r: String)
        ensures
            r@ == match self {
                InviteError::NoOrganization => "No org selected"@,
                InviteError::PersonalOrganization => {
                    "Invitations are not available for personal organizations"@
                },
            },
    {
        match self {
            InviteError::NoOrganization => "No org selected".to_owned(),
            InviteError::PersonalOrganization => {
                "Invitations are not available for personal organizations".to_owned()
            },
        }
    }
}

/// The invitation to send: organization, address and roles. The selection may have changed since
/// the button was pressed.
pub fn invitation(
    selected: &Option<SelectedContext>,
    email: &str,
    role: Option<RoleReference>,
) -> (r: Result<(String, String, Option<Vec<RoleReference>>), InviteError>)
    ensures
        match r {
            Ok((org, address, roles)) => {
                &&& can_invite(*selected)
                &&& org == selected->0.org_id
                &&& address@ == trimmed(email@)
                &&& match role {
                    Some(x) => roles matches Some(v) && v@ == seq![x],
                    None => roles is None,
                }
            },
            Err(InviteError::NoOrganization) => selected is None,
            Err(InviteError::PersonalOrganization) => selected is Some && !is_team(selected->0),
        },
{
    match selected {
        None => Err(InviteError::NoOrganization),
        Some(c) => {
            if !c.can_send_invite() {
                return Err(InviteError::PersonalOrganization);
            }
            let roles = match role {
                Some(x) => {
                    let mut v: Vec<RoleReference> = Vec::new();
                    v.push(x);
                    assert(v@ =~= seq![x]);
                    Some(v)
                },
                None => None,
            };
            Ok((c.org_id.clone(), trim(email), roles))
        },
    }
}

/// What is sent is an invitation to a team, to an address that looks like one.
pub proof fn law_sent_invitations(
    selected: Option<SelectedContext>,
    email: Seq<char>,
    role: Option<String>,
)
    requires
        !cannot_invite(selected, email, role),
    ensures
        selected is Some && is_team(selected->0),
        looks_like_email(trimmed(email)),
        role is Some,
{
}

/// An organization is a team unless its type is `personal`, in capitals or not.
pub proof fn law_team(c: SelectedContext)
    ensures
        !is_team(c) <==> c.org_type@.len() == 8 && forall|k: int|
            0 <= k < 8 ==> #[trigger] c.org_type@[k] == seq![
                'p',
                'e',
                'r',
                's',
                'o',
                'n',
                'a',
                'l',
            ][k] || c.org_type@[k] == seq!['P', 'E', 'R', 'S', 'O', 'N', 'A', 'L'][k],
{
    let small = seq!['p', 'e', 'r', 's', 'o', 'n', 'a', 'l'];
    let big = seq!['P', 'E', 'R', 'S', 'O', 'N', 'A', 'L'];
    let t = c.org_type@;
    reveal_strlit("personal");
    assert("personal"@ =~= small);
    let l = ascii_lower(t);
    if !is_team(c) {
        assert forall|k: int| 0 <= k < 8 implies #[trigger] t[k] == small[k] || t[k] == big[k] by {
            assert(l[k] == small[k]);
        }
    }
    if t.len() == 8 && forall|k: int| 0 <= k < 8 ==> #[trigger] t[k] == small[k] || t[k] == big[k] {
        assert forall|k: int| 0 <= k < 8 implies l[k] == small[k] by {
            assert(t[k] == small[k] || t[k] == big[k]);
        }
        assert(l =~= small);
    }
}

/// An address is complained about exactly if it is entered and lacks an at sign or a dot; an
/// invitation can be sent exactly to a team, to an address that is entered and not complained about,
/// with a role.
pub proof fn law_can_invite(
    selected: Option<SelectedContext>,
    email: Seq<char>,
    role: Option<String>,
)
    ensures
        email_problem(email) is Some <==> trimmed(email).len() > 0 && !(trimmed(email).contains('@')
            && trimmed(email).contains('.')),
        !cannot_invite(selected, email, role) <==> selected is Some && is_team(selected->0)
            && role is Some && trimmed(email).contains('@') && trimmed(email).contains('.'),
        can_invite(selected) <==> selected is Some && is_team(selected->0),
{
}

/// A role is shown under its name for users, or else its name, and with what is said of it; the
/// three common roles are described where nothing is said.
pub proof fn law_role_shown(r: RoleView)
    ensures
        r.display_name is Some ==> role_label(r) == r.display_name->0,
        r.display_name is None ==> role_label(r) == r.name,
        r.description is Some ==> role_description(r) == r.description,
        r.description is None && r.name == "Owner"@ ==> role_description(r) == Some(
            "Full access to all Datum Cloud resources in the organization"@,
        ),
        r.description is None && r.name == "Editor"@ ==> role_description(r) == Some(
            "Edit access to all Datum Cloud resources in the organization, except managing team members"@,
        ),
        r.description is None && r.name == "Viewer"@ ==> role_description(r) == Some(
            "View access to all Datum Cloud resources in the organization"@,
        ),
        r.description is None && r.name != "Owner"@ && r.name != "Editor"@ && r.name != "Viewer"@
            ==> role_description(r) is None,
{
    reveal_strlit("Owner");
    reveal_strlit("Editor");
    reveal_strlit("Viewer");
    assert("Owner"@.len() == 5);
    assert("Editor"@[0] == 'E' && "Viewer"@[0] == 'V');
}

/// The role of a name is the first one that has it; where none has it there is none.
pub proof fn law_role_named(roles: Seq<RoleSummary>, name: Seq<char>, i: int)
    requires
        0 <= i <= roles.len(),
        forall|k: int| 0 <= k < i ==> (#[trigger] roles[k]).name@ != name,
        i < roles.len() ==> roles[i].name@ == name,
    ensures
        role_named(roles, name) == (if i < roles.len() {
            Some(roles[i])
        } else {
            None
        }),
    decreases i,
{
    if i > 0 {
        assert(roles[0].name@ != name);
        let rest = roles.drop_first();
        assert forall|k: int| 0 <= k < i - 1 implies (#[trigger] rest[k]).name@ != name by {
            assert(rest[k] == roles[k + 1]);
        }
        law_role_named(rest, name, i - 1);
    }
}

/// The page of a team is below the web application, whether or not that is written with slashes at
/// its end.
pub proof fn law_team_page(web_url: Seq<char>, slashes: nat, org_id: Seq<char>)
    requires
        web_url.len() > 0,
        web_url[0] != '/',
        web_url.last() != '/',
    ensures
        team_page(web_url + Seq::new(slashes, |i: int| '/'), org_id) == web_url + "/org/"@ + org_id
            + "/team"@,
{
    crate::text::law_strip(web_url, '/', slashes);
}

/// An option of the list chooses its role by its name, and shows what is shown of the role.
pub proof fn law_role_option(o: RoleOption, r: RoleView)
    requires
        o.stands_for(r),
    ensures
        o.value@ == r.name,
        o.label@ == (if r.display_name is Some {
            r.display_name->0
        } else {
            r.name
        }),
        r.description is Some ==> o.description is Some && o.description->0@ == r.description->0,
{
}

} // verus!
