//! The application as a whole: which page shows, what it listens to, and how
//! messages move it from page to page.
use vstd::prelude::*;

use crate::screens::{Command, Elementary, LoginPage, Messages};
use crate::session::Session;

verus! {

/// What the showing page listens to besides its own widgets.
#[derive(Debug, Clone, Copy, PartialEq, Eq, Structural)]
pub enum Subscription {
    /// Key presses, for moving between text boxes.
    Keyboard,
    /// Events from the homeserver's sync loop.
    Sync,
}

/// The pages after `update` has handled a message on a sub-page that may move
/// elsewhere: `next` when it names a page, else the sub-page as changed.
pub open spec fn moved_to(stay: Elementary, next: Option<Elementary>) -> Elementary {
    match next {
        Some(p) => p,
        None => stay,
    }
}

impl Elementary {
    pub open spec fn wf(self) -> bool {
        match self {
            Elementary::HomePage(h) => h.wf(),
            _ => true,
        }
    }

    pub open spec fn accepts(self, message: Messages) -> bool {
        match self {
            Elementary::HomePage(h) => h.accepts(message),
            _ => true,
        }
    }

    /// The login page, and a login from `saved` when a session was saved.
    pub fn new(saved: Option<Session>) -> (r: (Elementary, Vec<Command>))
        ensures
            r.0 matches Elementary::LoginPage(l) && l.is_fresh(),
            r.1@ == match saved {
                Some(s) => seq![Command::RestoreLogin(s)],
                None => Seq::<Command>::empty(),
            },
    {
        let mut cmds: Vec<Command> = Vec::new();
        match saved {
            Some(session) => {
                cmds.push(Command::RestoreLogin(session));
                assert(cmds@ =~= seq![Command::RestoreLogin(session)]);
            },
            None => {},
        }
        (Elementary::LoginPage(LoginPage::default()), cmds)
    }

    pub fn title(&self) -> (r: String)
        ensures
            r@ == "Matrix"@,
    {
        "Matrix".to_owned()
    }

    pub fn subscription(&self) -> (r: Subscription)
        ensures
            r == (if self is LoginPage {
                Subscription::Keyboard
            } else {
                Subscription::Sync
            }),
    {
        match self {
            Elementary::LoginPage(_) => Subscription::Keyboard,
            _ => Subscription::Sync,
        }
    }

    /// The message for a key press on the login page: Tab moves the focus
    /// forward, Shift-Tab back; other keys give none.
    pub fn key_message(is_tab: bool, shift: bool) -> (r: Option<Messages>)
        ensures
            !is_tab ==> r is None,
            is_tab && shift ==> r matches Some(Messages::FocusPrev),
            is_tab && !shift ==> r matches Some(Messages::FocusNext),
    {
        if !is_tab {
            None
        } else if shift {
            Some(Messages::FocusPrev)
        } else {
            Some(Messages::FocusNext)
        }
    }

    /// Hands `message` to the page that shows, and moves to the page it names.
    pub fn update(&mut self, message: Messages) -> (cmds: Vec<Command>)
        requires
            old(self).wf(),
            old(self).accepts(message),
        ensures
            final(self).wf(),
            match *old(self) {
                Elementary::LoginPage(l) => exists|l2: crate::screens::LoginPage, next: Option<Elementary>|
                    l.step(l2, message, cmds@, next) && *final(self) == moved_to(
                        Elementary::LoginPage(l2),
                        next,
                    ),
                Elementary::HomePage(h) => *final(self) matches Elementary::HomePage(h2) && h.step(
                    h2,
                    message,
                    cmds@,
                ),
                Elementary::VerifyPage(v) => exists|
                    v2: crate::screens::VerifyPage,
                    next: Option<Elementary>,
                | v.step(v2, message, cmds@, next) && *final(self) == moved_to(
                    Elementary::VerifyPage(v2),
                    next,
                ),
            },
    {
        match self {
            Elementary::LoginPage(login) => {
                let (cmds, next) = login.update(message);
                match next {
                    Some(page) => {
                        *self = page;
                    },
                    None => {},
                }
                cmds
            },
            Elementary::HomePage(home) => home.update(message),
            Elementary::VerifyPage(verify) => {
                let (cmds, next) = verify.update(message);
                match next {
                    Some(page) => {
                        *self = page;
                    },
                    None => {},
                }
                cmds
            },
        }
    }
}

} // verus!
