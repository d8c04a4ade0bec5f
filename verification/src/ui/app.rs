//! The frame of the application: its pages, its tray, and when it looks for updates.
use crate::datum_cloud::auth::LoginState;
use crate::http_user_agent::PKG_VERSION;
use crate::text::{cat, cat3, same};
use vstd::prelude::*;

verus! {

/// The pages.
#[derive(Debug, Clone, PartialEq, Eq)]
pub enum Route {
    Login,
    SelectProject,
    ProxiesList,
    TunnelBandwidth { id: String },
    JoinProxy,
    Settings,
}

impl Route {
    pub open spec fn text(self) -> Seq<char> {
        match self {
            Route::Login => "/"@,
            Route::SelectProject => "/select"@,
            Route::ProxiesList => "/proxies"@,
            Route::TunnelBandwidth { id } => "/proxy/edit/"@ + id@ + "/bandwidth"@,
            Route::JoinProxy => "/proxy/join"@,
            Route::Settings => "/settings"@,
        }
    }

    /// The path of the page.
    pub fn path(&self) -> (r: String)
        ensures
            r@ == self.text(),
    {
        match self {
            Route::Login => "/".to_owned(),
            Route::SelectProject => "/select".to_owned(),
            Route::ProxiesList => "/proxies".to_owned(),
            Route::TunnelBandwidth { id } => cat3("/proxy/edit/", id.as_str(), "/bandwidth"),
            Route::JoinProxy => "/proxy/join".to_owned(),
            Route::Settings => "/settings".to_owned(),
        }
    }
}

/// What an entry of the tray's menu does.
#[derive(Debug, Clone, Copy, PartialEq, Eq, Structural)]
pub enum TrayAction {
    Nothing,
    /// Open the web site in the browser.
    OpenWebsite,
    ShowWindow,
    HideWindow,
    /// Show the window and open the dialog for a new tunnel.
    NewTunnel,
}

/// The web site of the application.
pub const WEBSITE: &'static str = "https://datum.net";

/// There is a session, as far as is known.
pub open spec fn is_signed_in(state: Option<LoginState>) -> bool {
    state is Some && state->0 != LoginState::Missing
}

/// What an entry of the tray's menu does. Without a session no tunnel can be made.
pub open spec fn tray_action(id: Seq<char>, state: Option<LoginState>) -> TrayAction {
    if id == "about"@ {
        TrayAction::OpenWebsite
    } else if id == "show"@ {
        TrayAction::ShowWindow
    } else if id == "hide"@ {
        TrayAction::HideWindow
    } else if id == "new_tunnel"@ && is_signed_in(state) {
        TrayAction::NewTunnel
    } else {
        TrayAction::Nothing
    }
}

pub fn on_tray_event(id: &str, state: Option<LoginState>) -> (r: TrayAction)
    ensures
        r == tray_action(id@, state),
{
    if same(id, "about") {
        return TrayAction::OpenWebsite;
    }
    if same(id, "show") {
        return TrayAction::ShowWindow;
    }
    if same(id, "hide") {
        return TrayAction::HideWindow;
    }
    if same(id, "new_tunnel") {
        let signed_in = match state {
            Some(LoginState::Missing) => false,
            Some(_) => true,
            None => false,
        };
        if signed_in {
            return TrayAction::NewTunnel;
        }
    }
    TrayAction::Nothing
}

/// An entry of the tray's menu; none is a separator.
#[derive(Debug)]
pub struct TrayItem {
    pub id: String,
    pub text: String,
    pub enabled: bool,
}

/// The entry has the identifier and the text.
pub open spec fn is_item(item: Option<TrayItem>, id: Seq<char>, text: Seq<char>, enabled: bool) -> bool {
    item matches Some(i) && i.id@ == id && i.text@ == text && i.enabled == enabled
}

fn tray_item(id: &str, text: String, enabled: bool) -> (r: Option<TrayItem>)
    ensures
        is_item(r, id@, text@, enabled),
{
    Some(TrayItem { id: id.to_owned(), text, enabled })
}

/// The entries of the tray's menu, in their order.
pub fn tray_menu() -> (r: Vec<Option<TrayItem>>)
    ensures
        r@.len() == 7,
        is_item(r@[0], "new_tunnel"@, "New Tunnel"@, true),
        r@[1] is None,
        is_item(r@[2], "about"@, "About Datum"@, true),
        is_item(r@[3], "show"@, "Show Window"@, true),
        is_item(r@[4], "hide"@, "Hide"@, true),
        r@[5] is None,
        is_item(r@[6], "version"@, "Version "@ + PKG_VERSION@, false),
{
    let mut menu: Vec<Option<TrayItem>> = Vec::new();
    menu.push(tray_item("new_tunnel", "New Tunnel".to_owned(), true));
    menu.push(None);
    menu.push(tray_item("about", "About Datum".to_owned(), true));
    menu.push(tray_item("show", "Show Window".to_owned(), true));
    menu.push(tray_item("hide", "Hide".to_owned(), true));
    menu.push(None);
    menu.push(tray_item("version", cat("Version ", PKG_VERSION), false));
    menu
}

/// Where the tray leads: to the tunnels for a new one, to the page of a tunnel that was chosen. The
/// page of a tunnel is shown once.
pub fn tray_navigation(open_add_tunnel: bool, open_tunnel: Option<String>) -> (r: (
    Option<Route>,
    Option<Route>,
))
    ensures
        r.0 == (if open_add_tunnel {
            Some(Route::ProxiesList)
        } else {
            None
        }),
        r.1 == (match open_tunnel {
            Some(id) => Some(Route::TunnelBandwidth { id }),
            None => None,
        }),
{
    let list = if open_add_tunnel {
        Some(Route::ProxiesList)
    } else {
        None
    };
    let tunnel = match open_tunnel {
        Some(id) => Some(Route::TunnelBandwidth { id }),
        None => None,
    };
    (list, tunnel)
}

/// How many seconds lie between two looks for updates while the application runs.
pub const PERIODIC_CHECK_SECS: u64 = 43_200;

/// What one turn of the loop that looks for updates does.
#[derive(Debug, Clone, Copy, PartialEq, Eq, Structural)]
pub struct UpdateTurn {
    /// Look because the user asked for it; the request is used up and no longer shown as under way.
    pub manual: bool,
    /// Look because the time has come; the time is counted anew.
    pub periodic: bool,
}

/// What one turn of the loop that looks for updates does.
pub fn update_turn(requested: bool, elapsed_secs: u64) -> (r: UpdateTurn)
    ensures
        r == (UpdateTurn { manual: requested, periodic: elapsed_secs >= PERIODIC_CHECK_SECS }),
{
    UpdateTurn { manual: requested, periodic: elapsed_secs >= PERIODIC_CHECK_SECS }
}

/// The counter of changes of the session, after one more.
pub fn bump(auth_changed: u32) -> (r: u32)
    ensures
        r == (if auth_changed == u32::MAX {
            0
        } else {
            (auth_changed + 1) as u32
        }),
{
    auth_changed.wrapping_add(1)
}

/// Whether the profile is read anew at the start: where there is a session.
pub fn refresh_profile_on_start(state: LoginState) -> (r: bool)
    ensures
        r == (state != LoginState::Missing),
{
    match state {
        LoginState::Missing => false,
        _ => true,
    }
}

/// The look of the title bar: dark on the login page.
pub fn title_bar_class(is_login_page: bool) -> (r: &'static str)
    ensures
        r@ == (if is_login_page {
            "h-[32px] flex items-center pl-20 z-50 cursor-default bg-[var(--midnight-fjord)]"@
        } else {
            "h-[32px] flex items-center pl-20 z-50 cursor-default bg-background"@
        }),
{
    if is_login_page {
        "h-[32px] flex items-center pl-20 z-50 cursor-default bg-[var(--midnight-fjord)]"
    } else {
        "h-[32px] flex items-center pl-20 z-50 cursor-default bg-background"
    }
}

/// No tunnel is made from the tray without a session.
pub proof fn law_tray_needs_session(id: Seq<char>, state: Option<LoginState>)
    ensures
        tray_action(id, state) == TrayAction::NewTunnel ==> is_signed_in(state),
{
}

/// What the entries of the tray do: each does what it names, and the one for a new tunnel does so
/// whenever someone is signed in, also while the session needs a refresh. No other entry does
/// anything.
pub proof fn law_tray_entries(id: Seq<char>, state: Option<LoginState>)
    ensures
        tray_action("about"@, state) == TrayAction::OpenWebsite,
        tray_action("show"@, state) == TrayAction::ShowWindow,
        tray_action("hide"@, state) == TrayAction::HideWindow,
        tray_action("new_tunnel"@, Some(LoginState::Valid)) == TrayAction::NewTunnel,
        tray_action("new_tunnel"@, Some(LoginState::NeedsRefresh)) == TrayAction::NewTunnel,
        tray_action("new_tunnel"@, Some(LoginState::Missing)) == TrayAction::Nothing,
        tray_action("new_tunnel"@, None) == TrayAction::Nothing,
        id != "about"@ && id != "show"@ && id != "hide"@ && id != "new_tunnel"@ ==> tray_action(
            id,
            state,
        ) == TrayAction::Nothing,
{
    reveal_strlit("about");
    reveal_strlit("show");
    reveal_strlit("hide");
    reveal_strlit("new_tunnel");
    assert("show"@[0] == 's' && "hide"@[0] == 'h');
    assert("about"@.len() == 5 && "show"@.len() == 4 && "hide"@.len() == 4 && "new_tunnel"@.len()
        == 10);
}

/// Each page has a path of its own; that of a tunnel holds its identifier.
pub proof fn law_paths(id: String)
    ensures
        Route::Login.text() == "/"@,
        Route::SelectProject.text() == "/select"@,
        Route::ProxiesList.text() == "/proxies"@,
        Route::JoinProxy.text() == "/proxy/join"@,
        Route::Settings.text() == "/settings"@,
        (Route::TunnelBandwidth { id }).text() == "/proxy/edit/"@ + id@ + "/bandwidth"@,
{
}

/// While the application runs it looks for updates every twelve hours.
pub proof fn law_periodic_check()
    ensures
        PERIODIC_CHECK_SECS == 12 * 60 * 60,
{
}

/// An entry of the menu shows its text and can be chosen if it is enabled.
pub proof fn law_tray_item(item: Option<TrayItem>, id: Seq<char>, text: Seq<char>, enabled: bool)
    requires
        is_item(item, id, text, enabled),
    ensures
        item is Some,
        item->0.id@ == id,
        item->0.text@ == text,
        item->0.enabled == enabled,
{
}

} // verus!
