//! The window in which a user signs in.
//!
//! A login asks for the window and gets a way to close it; the window itself is made and closed on
//! the main thread, when the next event is handled there.
use vstd::prelude::*;

verus! {

/// What is known of the window between two events.
#[derive(Debug)]
pub struct AuthWindow {
    /// The page to open with the next event.
    pub pending_url: Option<String>,
    /// Whether a login can be told that the user cancelled it.
    pub cancellable: bool,
    /// Whether the window is to be closed with the next event.
    pub close_requested: bool,
    /// Whether the window is open.
    pub open: bool,
}

/// What is to be done with the window.
#[derive(Debug)]
pub enum WindowAction {
    Nothing,
    /// Close the window. With `cancel` the login is told that the user cancelled it.
    Close { cancel: bool },
    /// Open the window on this page, in place of one that is open.
    Open(String),
}

impl AuthWindow {
    pub fn new() -> (r: AuthWindow)
        ensures
            r == (AuthWindow {
                pending_url: None,
                cancellable: false,
                close_requested: false,
                open: false,
            }),
    {
        AuthWindow { pending_url: None, cancellable: false, close_requested: false, open: false }
    }

    /// A login asks for the window.
    pub fn open_auth_window(&mut self, auth_url: String)
        ensures
            *final(self) == (AuthWindow {
                pending_url: Some(auth_url),
                cancellable: true,
                ..*old(self)
            }),
    {
        self.pending_url = Some(auth_url);
        self.cancellable = true;
    }

    /// A login asks for the window to be closed.
    pub fn request_close(&mut self)
        ensures
            *final(self) == (AuthWindow { close_requested: true, ..*old(self) }),
    {
        self.close_requested = true;
    }

    /// The state and the action on an event. `user_closes` says whether the event is that the user
    /// closes this window.
    pub open spec fn on_event(self, user_closes: bool) -> (AuthWindow, WindowAction) {
        if user_closes && self.open {
            (
                AuthWindow { cancellable: false, open: false, ..self },
                WindowAction::Close { cancel: self.cancellable },
            )
        } else if self.close_requested {
            (
                AuthWindow { close_requested: false, open: false, ..self },
                WindowAction::Close { cancel: false },
            )
        } else {
            match self.pending_url {
                Some(url) => (AuthWindow { pending_url: None, ..self }, WindowAction::Open(url)),
                None => (self, WindowAction::Nothing),
            }
        }
    }

    /// What is to be done on an event.
    pub fn process_auth_window(&mut self, user_closes: bool) -> (r: WindowAction)
        ensures
            *final(self) == old(self).on_event(user_closes).0,
            r == old(self).on_event(user_closes).1,
    {
        if user_closes && self.open {
            let cancel = self.cancellable;
            self.cancellable = false;
            self.open = false;
            return WindowAction::Close { cancel };
        }
        if self.close_requested {
            self.close_requested = false;
            self.open = false;
            return WindowAction::Close { cancel: false };
        }
        let mut url: Option<String> = None;
        std::mem::swap(&mut self.pending_url, &mut url);
        match url {
            Some(url) => WindowAction::Open(url),
            None => WindowAction::Nothing,
        }
    }

    /// The window was made; if that failed the one before stays.
    pub fn opened(&mut self, made: bool)
        ensures
            *final(self) == (AuthWindow { open: old(self).open || made, ..*old(self) }),
    {
        if made {
            self.open = true;
        }
    }
}

/// A login is told that the user cancelled it only if the user closed the window, and at most once
/// for each window that was asked for.
pub proof fn law_cancel_only_by_user(w: AuthWindow, user_closes: bool)
    ensures
        w.on_event(user_closes).1 matches WindowAction::Close { cancel: true } ==> user_closes
            && w.open && w.cancellable && !w.on_event(user_closes).0.cancellable,
        !user_closes ==> w.on_event(user_closes).0.cancellable == w.cancellable,
{
}

/// A page is opened once: the event that opens it leaves none to open.
pub proof fn law_page_opened_once(w: AuthWindow, user_closes: bool)
    ensures
        w.on_event(user_closes).1 matches WindowAction::Open(url) ==> w.pending_url == Some(url)
            && w.on_event(user_closes).0.pending_url is None,
        !(w.on_event(user_closes).1 is Open) ==> w.on_event(user_closes).0.pending_url
            == w.pending_url,
{
}

/// An open window that the user closes is closed, and its login is told so if it can be; one that a
/// login wants closed is closed without a word; else a page that waits is opened. With none of these
/// nothing is done.
pub proof fn law_window_events(w: AuthWindow, user_closes: bool)
    ensures
        user_closes && w.open ==> w.on_event(user_closes).1 == (WindowAction::Close {
            cancel: w.cancellable,
        }) && !w.on_event(user_closes).0.open,
        !(user_closes && w.open) && w.close_requested ==> w.on_event(user_closes).1 == (
        WindowAction::Close { cancel: false }) && !w.on_event(user_closes).0.open && !w.on_event(
            user_closes,
        ).0.close_requested,
        !(user_closes && w.open) && !w.close_requested && w.pending_url is Some ==> w.on_event(
            user_closes,
        ).1 == WindowAction::Open(w.pending_url->0),
        !(user_closes && w.open) && !w.close_requested && w.pending_url is None ==> w.on_event(
            user_closes,
        ) == (w, WindowAction::Nothing),
        user_closes && w.open ==> w.on_event(user_closes).0.close_requested == w.close_requested,
{
}

} // verus!
