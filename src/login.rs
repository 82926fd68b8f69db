//! The login page: the form, the focus among its text boxes, and what a
//! submitted login leads to.
use vstd::prelude::*;

use crate::screens::{Command, Elementary, HomePage, JoinedRoom, LoginPage, Messages, VerifyPage};

verus! {

/// The text boxes of the login form, in tab order.
#[derive(Debug, Clone, Copy, PartialEq, Eq, Structural)]
pub enum TextBoxes {
    Homeserver,
    Username,
    Password,
}

impl TextBoxes {
    /// Position in tab order.
    pub open spec fn spec_index(self) -> i32 {
        match self {
            TextBoxes::Homeserver => 0,
            TextBoxes::Username => 1,
            TextBoxes::Password => 2,
        }
    }

    pub fn index(self) -> (r: i32)
        ensures
            r == self.spec_index(),
    {
        match self {
            TextBoxes::Homeserver => 0,
            TextBoxes::Username => 1,
            TextBoxes::Password => 2,
        }
    }

    /// The text box at position `n` in tab order, if there is one.
    pub fn from_i32(n: i32) -> (r: Option<TextBoxes>)
        ensures
            r matches Some(t) ==> t.spec_index() == n,
            r is None <==> !(0 <= n <= 2),
    {
        if n == 0 {
            Some(TextBoxes::Homeserver)
        } else if n == 1 {
            Some(TextBoxes::Username)
        } else if n == 2 {
            Some(TextBoxes::Password)
        } else {
            None
        }
    }
}

/// Where the focus goes on Tab: to the next box, staying on the last.
pub open spec fn next_focus(f: Option<TextBoxes>) -> Option<TextBoxes> {
    match f {
        Some(TextBoxes::Homeserver) => Some(TextBoxes::Username),
        Some(TextBoxes::Username) => Some(TextBoxes::Password),
        Some(TextBoxes::Password) => Some(TextBoxes::Password),
        None => None,
    }
}

/// Where the focus goes on Shift-Tab: to the previous box, staying on the first.
pub open spec fn prev_focus(f: Option<TextBoxes>) -> Option<TextBoxes> {
    match f {
        Some(TextBoxes::Homeserver) => Some(TextBoxes::Homeserver),
        Some(TextBoxes::Username) => Some(TextBoxes::Homeserver),
        Some(TextBoxes::Password) => Some(TextBoxes::Username),
        None => None,
    }
}

/// For each joined room, in order: a fetch of its avatar when it has one, then
/// a read of the room.
pub open spec fn login_commands(rooms: Seq<JoinedRoom>) -> Seq<Command>
    decreases rooms.len(),
{
    if rooms.len() == 0 {
        Seq::empty()
    } else {
        let prev = login_commands(rooms.drop_last());
        let r = rooms.last();
        let avatar = match r.avatar {
            Some(u) => seq![Command::Emit(Messages::FetchImage(u))],
            None => Seq::empty(),
        };
        prev + avatar + seq![Command::LoadRoom(r.room_id)]
    }
}

fn clone_room_id_and_avatar(r: &JoinedRoom) -> (out: (String, Option<String>))
    ensures
        out.0 == r.room_id,
        out.1 == r.avatar,
{
    let avatar = match &r.avatar {
        Some(u) => Some(u.clone()),
        None => None,
    };
    (r.room_id.clone(), avatar)
}

impl LoginPage {
    /// How `message` changes the form, the commands it gives, and the page to
    /// move to, if any.
    pub open spec fn step(
        self,
        new: LoginPage,
        message: Messages,
        cmds: Seq<Command>,
        next: Option<Elementary>,
    ) -> bool {
        match message {
            Messages::HomeserverChanged(s) => {
                &&& new == LoginPage { homeserver_url: s, ..self }
                &&& cmds.len() == 0
                &&& next is None
            },
            Messages::UsernameChanged(s) => {
                &&& new == LoginPage { username: s, ..self }
                &&& cmds.len() == 0
                &&& next is None
            },
            Messages::PasswordChanged(s) => {
                &&& new == LoginPage { password: s, ..self }
                &&& cmds.len() == 0
                &&& next is None
            },
            Messages::FocusNext => {
                &&& new == LoginPage { focus: next_focus(self.focus), ..self }
                &&& cmds.len() == 0
                &&& next is None
            },
            Messages::FocusPrev => {
                &&& new == LoginPage { focus: prev_focus(self.focus), ..self }
                &&& cmds.len() == 0
                &&& next is None
            },
            Messages::Submit => {
                &&& new == self
                &&& cmds == seq![
                    Command::Login {
                        homeserver: self.homeserver_url,
                        username: self.username,
                        password: self.password,
                    },
                ]
                &&& next is None
            },
            Messages::LoginResult(session, rooms) => {
                &&& new == self
                &&& cmds == login_commands(rooms@)
                &&& next matches Some(Elementary::HomePage(h)) && h.is_fresh(session)
            },
            Messages::Verification(session) => {
                &&& new == self
                &&& cmds.len() == 0
                &&& next matches Some(Elementary::VerifyPage(v)) && v.is_fresh(session)
            },
            _ => {
                &&& new == self
                &&& cmds.len() == 0
                &&& next is None
            },
        }
    }

    /// Gives the focus to `to_focus`, and takes it from the other boxes.
    pub fn set_focus(&mut self, to_focus: TextBoxes)
        ensures
            *final(self) == (LoginPage { focus: Some(to_focus), ..*old(self) }),
    {
        self.focus = Some(to_focus);
    }

    pub fn update(&mut self, message: Messages) -> (r: (Vec<Command>, Option<Elementary>))
        ensures
            old(self).step(*final(self), message, r.0@, r.1),
    {
        let mut cmds: Vec<Command> = Vec::new();
        match message {
            Messages::HomeserverChanged(input) => self.homeserver_url = input,
            Messages::UsernameChanged(input) => self.username = input,
            Messages::PasswordChanged(input) => self.password = input,
            Messages::FocusNext => {
                match self.focus {
                    Some(b) => {
                        let i = b.index();
                        if i < 3 {
                            match TextBoxes::from_i32(i + 1) {
                                Some(t) => self.set_focus(t),
                                None => {},
                            }
                        }
                    },
                    None => {},
                }
            },
            Messages::FocusPrev => {
                match self.focus {
                    Some(b) => {
                        let i = b.index();
                        if 0 < i {
                            match TextBoxes::from_i32(i - 1) {
                                Some(t) => self.set_focus(t),
                                None => {},
                            }
                        }
                    },
                    None => {},
                }
            },
            Messages::Submit => {
                cmds.push(
                    Command::Login {
                        homeserver: self.homeserver_url.clone(),
                        username: self.username.clone(),
                        password: self.password.clone(),
                    },
                );
                assert(cmds@ =~= seq![
                    Command::Login {
                        homeserver: self.homeserver_url,
                        username: self.username,
                        password: self.password,
                    },
                ]);
            },
            Messages::LoginResult(session, rooms) => {
                let mut i: usize = 0;
                while i < rooms.len()
                    invariant
                        0 <= i <= rooms.len(),
                        cmds@ == login_commands(rooms@.take(i as int)),
                    decreases rooms.len() - i,
                {
                    assert(rooms@.take(i + 1).drop_last() =~= rooms@.take(i as int));
                    assert(rooms@.take(i + 1).last() == rooms@[i as int]);
                    let ghost before = cmds@;
                    let (room_id, avatar) = clone_room_id_and_avatar(&rooms[i]);
                    match avatar {
                        Some(u) => cmds.push(Command::Emit(Messages::FetchImage(u))),
                        None => {},
                    }
                    cmds.push(Command::LoadRoom(room_id));
                    proof {
                        let r = rooms@[i as int];
                        let avatar_cmds = match r.avatar {
                            Some(u) => seq![Command::Emit(Messages::FetchImage(u))],
                            None => Seq::<Command>::empty(),
                        };
                        assert(cmds@ =~= before + avatar_cmds + seq![Command::LoadRoom(r.room_id)]);
                    }
                    i += 1;
                }
                assert(rooms@.take(rooms.len() as int) =~= rooms@);
                return (cmds, Some(Elementary::HomePage(HomePage::new(session))));
            },
            Messages::Verification(session) => {
                return (cmds, Some(Elementary::VerifyPage(VerifyPage::new(session))));
            },
            _ => {},
        }
        (cmds, None)
    }
}

} // verus!
