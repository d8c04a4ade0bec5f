//! The settings page.
use crate::datum_cloud::auth::MaybeAuth;
use crate::http_user_agent::PKG_VERSION;
use crate::text::{cat, cat4, opt_view};
use crate::update::{UpdateChannel, UpdateInfo, UpdateSettings};
use vstd::prelude::*;

verus! {

/// The account as the page shows it.
#[derive(Debug)]
pub struct AccountView {
    pub first_name: String,
    pub last_name: String,
    pub email: String,
}

fn text_or_empty(o: &Option<String>) -> (r: String)
    ensures
        r@ == (match *o {
            Some(s) => s@,
            None => Seq::empty(),
        }),
{
    match o {
        Some(s) => s.clone(),
        None => {
            let none = String::new();
            assert(none@ =~= Seq::<char>::empty());
            none
        },
    }
}

/// The account as the page shows it; empty without a session.
pub fn account(auth: &MaybeAuth) -> (r: AccountView)
    ensures
        match auth.0 {
            Some(s) => {
                &&& r.first_name@ == (match s.profile.first_name {
                    Some(n) => n@,
                    None => Seq::empty(),
                })
                &&& r.last_name@ == (match s.profile.last_name {
                    Some(n) => n@,
                    None => Seq::empty(),
                })
                &&& r.email@ == s.profile.email@
            },
            None => r.first_name@.len() == 0 && r.last_name@.len() == 0 && r.email@.len() == 0,
        },
{
    match &auth.0 {
        Some(s) => AccountView {
            first_name: text_or_empty(&s.profile.first_name),
            last_name: text_or_empty(&s.profile.last_name),
            email: s.profile.email.clone(),
        },
        None => AccountView {
            first_name: String::new(),
            last_name: String::new(),
            email: String::new(),
        },
    }
}

/// The line on the version that runs.
pub fn version_text() -> (r: String)
    ensures
        r@ == "Current version: v"@ + PKG_VERSION@,
{
    cat("Current version: v", PKG_VERSION)
}

/// Whether pressing the button of a channel changes the channel.
pub fn channel_changes(current: UpdateChannel, pressed: UpdateChannel) -> (r: bool)
    ensures
        r == (current != pressed),
{
    current != pressed
}

/// The settings with another channel.
pub fn with_channel(settings: UpdateSettings, channel: UpdateChannel) -> (r: UpdateSettings)
    ensures
        r == (UpdateSettings { update_channel: channel, ..settings }),
{
    UpdateSettings { update_channel: channel, ..settings }
}

/// The name and the version of an update.
pub open spec fn update_text(info: UpdateInfo) -> Seq<char> {
    info.release_name@ + " (v"@ + info.version@ + ")"@
}

pub fn update_line(info: &UpdateInfo) -> (r: String)
    ensures
        r@ == update_text(*info),
{
    cat4(info.release_name.as_str(), " (v", info.version.as_str(), ")")
}

/// The updates as the page shows them.
#[derive(Debug)]
pub struct UpdatesView {
    pub downloading: bool,
    /// Whether an update waits to be installed.
    pub ready: bool,
    /// The update that waits, where it is known.
    pub ready_text: Option<String>,
    pub check_text: String,
    pub check_disabled: bool,
}

/// The updates as the page shows them.
pub fn updates(
    downloading: bool,
    has_pending_install: bool,
    pending: &Option<UpdateInfo>,
    checking: bool,
) -> (r: UpdatesView)
    ensures
        r.downloading == downloading,
        r.ready == has_pending_install,
        opt_view(r.ready_text) == (match *pending {
            Some(info) if has_pending_install => Some(update_text(info)),
            _ => None,
        }),
        r.check_text@ == (if checking {
            "Checking…"@
        } else {
            "Check for Updates"@
        }),
        r.check_disabled == checking,
{
    let ready_text = match pending {
        Some(info) if has_pending_install => Some(update_line(info)),
        _ => None,
    };
    let text = if checking {
        "Checking…"
    } else {
        "Check for Updates"
    };
    UpdatesView {
        downloading,
        ready: has_pending_install,
        ready_text,
        check_text: text.to_owned(),
        check_disabled: checking,
    }
}

/// Whether pressing the button starts a look for updates: not while one is under way.
pub fn starts_check(checking: bool) -> (r: bool)
    ensures
        r == !checking,
{
    !checking
}

/// An update is shown by its name and its version.
pub proof fn law_update_text(info: UpdateInfo)
    ensures
        update_text(info) == info.release_name@ + " (v"@ + info.version@ + ")"@,
{
}

} // verus!
