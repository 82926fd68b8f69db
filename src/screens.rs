//! What the pages exchange with the rest of the client: the messages they take
//! and the commands they give.
use vstd::prelude::*;

use crate::message::{AnyMessageEvent, AnyRoomEvent};
use crate::room::{RoomEntry, RoomMap};
use crate::session::Session;
use crate::subscriber::MatrixEvents;
use crate::login::TextBoxes;
use crate::theme::Theme;

verus! {

/// A room that the user has joined, as the client reports it after login.
#[derive(Clone, Debug)]
pub struct JoinedRoom {
    pub room_id: String,
    /// mxc url of the room's avatar.
    pub avatar: Option<String>,
}

/// A page of older events, as the server returned it.
#[derive(Clone, Debug)]
pub struct MessagesResponse {
    pub start: Option<String>,
    pub end: Option<String>,
    /// The timeline events followed by the state events.
    pub events: Vec<AnyRoomEvent>,
}

#[derive(Clone, Debug)]
pub enum Messages {
    HomeserverChanged(String),
    UsernameChanged(String),
    PasswordChanged(String),
    FocusNext,
    FocusPrev,
    Submit,
    LoginResult(Session, Vec<JoinedRoom>),
    LoginFailed(String),
    Sync(MatrixEvents),
    FetchImage(String),
    RoomName(String, String),
    ResetRoom(String, RoomEntry),
    BackFill(String),
    BackFilled(String, MessagesResponse),
    SelectRoom(String),
    SetMessage(String),
    SendMessage,
    RoomMessage(AnyMessageEvent),
    Verification(Session),
    /// Emoji of a verification, as pairs of symbol and name.
    SetVerification(Vec<(String, String)>),
    VerificationConfirm,
    VerificationCancel,
    GoHome,
    GoBack,
}

/// Work that a page asks the client to do; each ends in a message, if any.
#[derive(Clone, Debug)]
pub enum Command {
    /// Hand the message straight back.
    Emit(Messages),
    /// Log in and sync once, then save the session: `Verification` or `LoginFailed`.
    Login { homeserver: String, username: String, password: String },
    /// Log in again with a saved session: `LoginResult` or `LoginFailed`.
    RestoreLogin(Session),
    /// Read a joined room from the server: `ResetRoom`.
    LoadRoom(String),
    /// Ask for a room's display name: `RoomName`.
    FetchRoomName(String),
    /// Move the read marker of a room to an event.
    SendReadMarker { room_id: String, event_id: String },
    /// Ask for older events of a room, from `token` if there is one, else from
    /// the room's last batch, else from `fallback`: `BackFilled` or `LoginFailed`.
    RequestMessages { room_id: String, token: Option<String>, fallback: String },
    /// Download the media at `url`: `FetchedImage` or `LoginFailed`.
    DownloadImage { url: String, server: String, path: String },
    /// Send a plain text message: `SetMessage("")` or `LoginFailed`.
    SendText { room_id: String, body: String },
    /// Accept the verification `transaction_id`: `LoginFailed` with the outcome.
    AcceptVerification(String),
    /// Show the emoji of the verification `transaction_id`: `SetVerification`.
    ShowVerificationEmoji(String),
    /// Confirm the pending verification: `GoHome` or `GoBack`.
    ConfirmVerification,
    /// Cancel the pending verification: `GoBack`.
    CancelVerification,
}

#[derive(Debug)]
pub struct LoginPage {
    pub theme: Theme,
    pub homeserver_url: String,
    pub username: String,
    pub password: String,
    /// The text box with the focus, if any has it.
    pub focus: Option<TextBoxes>,
}

#[derive(Debug)]
pub struct VerifyPage {
    pub theme: Theme,
    pub session: Session,
    /// Emoji to compare, as pairs of symbol and name.
    pub verification_emoji: Vec<(String, String)>,
    /// Whether a verification is waiting to be confirmed or cancelled.
    pub sas: bool,
}

#[derive(Debug)]
pub struct HomePage {
    pub theme: Theme,
    pub session: Session,
    pub rooms: RoomMap,
    pub selected: Option<String>,
    pub sync_token: String,
    pub draft: String,
}

/// The page that is showing.
#[derive(Debug)]
pub enum Elementary {
    LoginPage(LoginPage),
    HomePage(HomePage),
    VerifyPage(VerifyPage),
}

impl LoginPage {
    /// A login form as it first shows.
    pub open spec fn is_fresh(self) -> bool {
        &&& self.theme == Theme::Dark
        &&& self.homeserver_url@.len() == 0
        &&& self.username@.len() == 0
        &&& self.password@.len() == 0
        &&& self.focus is None
    }

    pub fn new() -> (r: LoginPage)
        ensures
            r.is_fresh(),
    {
        LoginPage {
            theme: Theme::default(),
            homeserver_url: String::new(),
            username: String::new(),
            password: String::new(),
            focus: None,
        }
    }
}

impl Default for LoginPage {
    fn default() -> (r: LoginPage)
        ensures
            r.is_fresh(),
    {
        LoginPage::new()
    }
}

impl VerifyPage {
    /// A verification page for `session` before any verification has started.
    pub open spec fn is_fresh(self, session: Session) -> bool {
        &&& self.theme == Theme::Dark
        &&& self.session == session
        &&& self.verification_emoji@.len() == 0
        &&& !self.sas
    }

    pub fn new(session: Session) -> (r: VerifyPage)
        ensures
            r.is_fresh(session),
    {
        VerifyPage {
            theme: Theme::default(),
            session,
            verification_emoji: Vec::new(),
            sas: false,
        }
    }
}

impl HomePage {
    pub open spec fn wf(self) -> bool {
        self.rooms.wf()
    }

    /// A home page for `session` that holds nothing yet.
    pub open spec fn is_fresh(self, session: Session) -> bool {
        &&& self.wf()
        &&& self.theme == Theme::Dark
        &&& self.session == session
        &&& self.rooms@ == Map::<Seq<char>, RoomEntry>::empty()
        &&& self.selected is None
        &&& self.sync_token@.len() == 0
        &&& self.draft@.len() == 0
    }

    pub fn new(session: Session) -> (r: HomePage)
        ensures
            r.is_fresh(session),
    {
        HomePage {
            theme: Theme::default(),
            session,
            rooms: RoomMap::new(),
            selected: None,
            sync_token: String::new(),
            draft: String::new(),
        }
    }
}

} // verus!
