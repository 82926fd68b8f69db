//! The home page: rooms, their messages, and the message being written.
use vstd::prelude::*;

use crate::media::{is_mxc, parse_mxc};
use crate::message::{
    AnyMessageEvent, AnyRoomEvent, AnyStateEvent, MembershipState, MessageBuffer, MessageContent,
    MessageKind, StateKind,
};
use crate::room::RoomEntry;
use crate::screens::{Command, HomePage, Messages, MessagesResponse};
use crate::subscriber::MatrixEvents;

verus! {

/// `new` holds the room `id` and every other room as `old` does; its entry for
/// `id` relates by `rel` to what `old` held there, or to a blank entry when
/// `old` held nothing.
pub open spec fn changes_room(
    old: Map<Seq<char>, RoomEntry>,
    new: Map<Seq<char>, RoomEntry>,
    id: Seq<char>,
    rel: spec_fn(RoomEntry, RoomEntry) -> bool,
) -> bool {
    &&& new.contains_key(id)
    &&& new.remove(id) == old.remove(id)
    &&& if old.contains_key(id) {
        rel(old[id], new[id])
    } else {
        exists|b: RoomEntry| #[trigger] b.is_blank() && rel(b, new[id])
    }
}

/// One command for each message event of `events`, in their order.
pub open spec fn backfill_commands(events: Seq<AnyRoomEvent>) -> Seq<Command>
    decreases events.len(),
{
    if events.len() == 0 {
        Seq::empty()
    } else {
        let prev = backfill_commands(events.drop_last());
        match events.last() {
            AnyRoomEvent::Message(m) => prev.push(Command::Emit(Messages::RoomMessage(m))),
            _ => prev,
        }
    }
}

pub open spec fn image_command(m: AnyMessageEvent) -> Seq<Command> {
    match m.kind {
        MessageKind::RoomMessage(MessageContent::Image { url: Some(u), .. }) => seq![
            Command::Emit(Messages::FetchImage(u)),
        ],
        _ => Seq::empty(),
    }
}

fn clone_opt(o: &Option<String>) -> (r: Option<String>)
    ensures
        r == *o,
{
    match o {
        Some(s) => Some(s.clone()),
        None => None,
    }
}

/// The token to ask for older events from: the end of what the room holds,
/// else the room's last batch, else the sync token.
pub fn backfill_token(end: Option<String>, prev_batch: Option<String>, sync_token: String) -> (r:
    String)
    ensures
        r == match (end, prev_batch) {
            (Some(e), _) => e,
            (None, Some(p)) => p,
            (None, None) => sync_token,
        },
{
    match end {
        Some(e) => e,
        None => match prev_batch {
            Some(p) => p,
            None => sync_token,
        },
    }
}

/// What shows above the messages of a room.
#[derive(Debug, Clone, Copy, PartialEq, Eq, Structural)]
pub enum HistoryStart {
    /// Older events are on their way.
    Loading,
    /// The room's creation is held: there is nothing older.
    Beginning,
    /// A button to ask for older events.
    LoadMore,
}

pub fn history_start(room: &RoomEntry) -> (r: HistoryStart)
    ensures
        r == if room.messages.loading {
            HistoryStart::Loading
        } else if exists|i: int|
            0 <= i < room.messages.messages@.len()
                && #[trigger] room.messages.messages@[i].is_room_create() {
            HistoryStart::Beginning
        } else {
            HistoryStart::LoadMore
        },
{
    if room.messages.loading {
        HistoryStart::Loading
    } else if room.messages.has_beginning() {
        HistoryStart::Beginning
    } else {
        HistoryStart::LoadMore
    }
}

/// For each message, whether its sender is shown above it: for the first
/// message, and wherever the sender changes.
pub fn sender_headers(list: &Vec<AnyMessageEvent>) -> (r: Vec<bool>)
    ensures
        r@.len() == list@.len(),
        forall|i: int|
            0 <= i < list@.len() ==> #[trigger] r@[i] == (i == 0 || list@[i].meta.sender@
                != list@[i - 1].meta.sender@),
{
    let mut r: Vec<bool> = Vec::new();
    let mut i: usize = 0;
    while i < list.len()
        invariant
            0 <= i <= list.len(),
            r@.len() == i,
            forall|j: int|
                0 <= j < i ==> #[trigger] r@[j] == (j == 0 || list@[j].meta.sender@
                    != list@[j - 1].meta.sender@),
        decreases list.len() - i,
    {
        let shown = i == 0 || !(list[i].meta.sender == list[i - 1].meta.sender);
        r.push(shown);
        i += 1;
    }
    r
}

impl HomePage {
    pub open spec fn same_but_rooms(self, new: HomePage) -> bool {
        &&& new.theme == self.theme
        &&& new.session == self.session
        &&& new.selected == self.selected
        &&& new.sync_token == self.sync_token
        &&& new.draft == self.draft
    }

    pub open spec fn unchanged(self, new: HomePage) -> bool {
        &&& self.same_but_rooms(new)
        &&& new.rooms@ == self.rooms@
    }

    pub open spec fn is_selected(self, id: Seq<char>) -> bool {
        self.selected matches Some(s) && s@ == id
    }

    /// What `update` needs of a message: the rooms it must find, and entries
    /// that hold together.
    pub open spec fn accepts(self, message: Messages) -> bool {
        match message {
            Messages::BackFilled(id, _) => self.rooms@.contains_key(id@),
            Messages::SelectRoom(id) => self.rooms@.contains_key(id@),
            Messages::ResetRoom(_, room) => room.wf(),
            _ => true,
        }
    }

    /// How a state event of the sync changes the page.
    pub open spec fn state_step(self, new: HomePage, e: AnyStateEvent, cmds: Seq<Command>) -> bool {
        let rid = e.meta.room_id@;
        match e.kind {
            StateKind::RoomCanonicalAlias { alias } => {
                &&& self.same_but_rooms(new)
                &&& changes_room(
                    self.rooms@,
                    new.rooms@,
                    rid,
                    |a: RoomEntry, b: RoomEntry| b == RoomEntry { alias: alias, ..a },
                )
                &&& cmds.len() == 0
            },
            StateKind::RoomName { name } => {
                &&& self.same_but_rooms(new)
                &&& changes_room(
                    self.rooms@,
                    new.rooms@,
                    rid,
                    |a: RoomEntry, b: RoomEntry| b == RoomEntry { display_name: name, ..a },
                )
                &&& cmds == seq![Command::FetchRoomName(e.meta.room_id)]
            },
            StateKind::RoomTopic { topic } => {
                &&& self.same_but_rooms(new)
                &&& changes_room(
                    self.rooms@,
                    new.rooms@,
                    rid,
                    |a: RoomEntry, b: RoomEntry| b == RoomEntry { topic: topic, ..a },
                )
                &&& cmds.len() == 0
            },
            StateKind::RoomAvatar => {
                &&& self.same_but_rooms(new)
                &&& changes_room(self.rooms@, new.rooms@, rid, |a: RoomEntry, b: RoomEntry| b == a)
                &&& cmds == if self.rooms@.contains_key(rid) && self.rooms@[rid].avatar is Some {
                    seq![Command::Emit(Messages::FetchImage(self.rooms@[rid].avatar->Some_0))]
                } else {
                    Seq::empty()
                }
            },
            StateKind::RoomCreate { .. } => {
                &&& self.unchanged(new)
                &&& cmds == seq![Command::LoadRoom(e.meta.room_id)]
            },
            StateKind::RoomMember { state_key, membership } => {
                if state_key@ == self.session.user_id@ && membership == MembershipState::Join {
                    &&& self.unchanged(new)
                    &&& cmds == seq![Command::LoadRoom(e.meta.room_id)]
                } else if state_key@ == self.session.user_id@ && membership
                    == MembershipState::Leave {
                    &&& new.rooms@ == self.rooms@.remove(rid)
                    &&& new.selected == if self.is_selected(rid) {
                        None
                    } else {
                        self.selected
                    }
                    &&& new.theme == self.theme
                    &&& new.session == self.session
                    &&& new.sync_token == self.sync_token
                    &&& new.draft == self.draft
                    &&& cmds.len() == 0
                } else {
                    &&& self.unchanged(new)
                    &&& cmds.len() == 0
                }
            },
            StateKind::Other => {
                &&& self.same_but_rooms(new)
                &&& changes_room(
                    self.rooms@,
                    new.rooms@,
                    rid,
                    |a: RoomEntry, b: RoomEntry|
                        b == RoomEntry { messages: b.messages, ..a } && a.messages.after_push(
                            b.messages,
                            AnyRoomEvent::State(e),
                        ),
                )
                &&& cmds.len() == 0
            },
        }
    }

    /// How `message` changes the page, and the commands it gives.
    pub open spec fn step(self, new: HomePage, message: Messages, cmds: Seq<Command>) -> bool {
        match message {
            Messages::Sync(MatrixEvents::Room(AnyRoomEvent::Message(m))) => {
                &&& self.unchanged(new)
                &&& cmds == seq![Command::Emit(Messages::RoomMessage(m))] + if self.is_selected(
                    m.meta.room_id@,
                ) {
                    seq![
                        Command::SendReadMarker {
                            room_id: m.meta.room_id,
                            event_id: m.meta.event_id,
                        },
                    ]
                } else {
                    Seq::empty()
                }
            },
            Messages::Sync(MatrixEvents::Room(AnyRoomEvent::State(e))) => self.state_step(
                new,
                e,
                cmds,
            ),
            Messages::RoomMessage(m) => {
                &&& self.same_but_rooms(new)
                &&& changes_room(
                    self.rooms@,
                    new.rooms@,
                    m.meta.room_id@,
                    |a: RoomEntry, b: RoomEntry|
                        if m.kind is RoomMessage {
                            b == RoomEntry { message_list: b.message_list, ..a }
                                && b.message_list@ == a.message_list@.push(m)
                        } else {
                            b == a
                        },
                )
                &&& cmds == image_command(m)
            },
            Messages::ResetRoom(id, room) => {
                &&& self.same_but_rooms(new)
                &&& new.rooms@ == self.rooms@.insert(id@, room)
                &&& cmds == seq![Command::Emit(Messages::BackFill(id))]
            },
            Messages::RoomName(id, name) => {
                &&& self.same_but_rooms(new)
                &&& new.rooms@ == if self.rooms@.contains_key(id@) {
                    self.rooms@.insert(id@, RoomEntry { name: name, ..self.rooms@[id@] })
                } else {
                    self.rooms@
                }
                &&& cmds.len() == 0
            },
            Messages::BackFill(id) => {
                &&& self.same_but_rooms(new)
                &&& changes_room(
                    self.rooms@,
                    new.rooms@,
                    id@,
                    |a: RoomEntry, b: RoomEntry|
                        b == RoomEntry {
                            messages: MessageBuffer { loading: true, ..a.messages },
                            ..a
                        },
                )
                &&& cmds == seq![
                    Command::RequestMessages {
                        room_id: id,
                        token: if self.rooms@.contains_key(id@) {
                            self.rooms@[id@].messages.end
                        } else {
                            None
                        },
                        fallback: self.sync_token,
                    },
                ]
            },
            Messages::BackFilled(id, response) => {
                let a = self.rooms@[id@];
                &&& self.same_but_rooms(new)
                &&& new.rooms@ == self.rooms@.insert(
                    id@,
                    RoomEntry {
                        messages: MessageBuffer {
                            loading: false,
                            start: if response.start is Some {
                                response.start
                            } else {
                                a.messages.start
                            },
                            end: if response.end is Some {
                                response.end
                            } else {
                                a.messages.end
                            },
                            ..a.messages
                        },
                        ..a
                    },
                )
                &&& cmds == backfill_commands(response.events@)
            },
            Messages::FetchImage(url) => {
                &&& self.unchanged(new)
                &&& cmds.len() == 1
                &&& (exists|s: Seq<char>, p: Seq<char>| is_mxc(url@, s, p)) ==> (cmds[0] matches Command::DownloadImage { url: u, server, path } && u == url && is_mxc(url@, server@, path@))
                &&& (forall|s: Seq<char>, p: Seq<char>| !is_mxc(url@, s, p)) ==> (cmds[0] matches Command::Emit(Messages::LoginFailed(_)))
            },
            Messages::SelectRoom(id) => {
                &&& new.rooms@ == self.rooms@
                &&& new.selected == Some(id)
                &&& new.theme == self.theme
                &&& new.session == self.session
                &&& new.sync_token == self.sync_token
                &&& new.draft == self.draft
                &&& cmds == if self.rooms@[id@].messages.messages@.len() == 0 {
                    seq![Command::Emit(Messages::BackFill(id))]
                } else {
                    Seq::empty()
                }
            },
            Messages::SetMessage(text) => {
                &&& new.rooms@ == self.rooms@
                &&& new.draft == text
                &&& new.theme == self.theme
                &&& new.session == self.session
                &&& new.selected == self.selected
                &&& new.sync_token == self.sync_token
                &&& cmds.len() == 0
            },
            Messages::SendMessage => {
                &&& self.unchanged(new)
                &&& cmds == match self.selected {
                    Some(s) => seq![Command::SendText { room_id: s, body: self.draft }],
                    None => Seq::empty(),
                }
            },
            _ => {
                &&& self.unchanged(new)
                &&& cmds.len() == 0
            },
        }
    }

    /// Takes the room `id` out for changing, adding it blank first when it is
    /// missing; a blank entry holds its place meanwhile.
    fn take_room(&mut self, id: &String) -> (r: (usize, RoomEntry))
        requires
            old(self).wf(),
        ensures
            final(self).wf(),
            old(self).same_but_rooms(*final(self)),
            r.0 < final(self).rooms.entries@.len(),
            final(self).rooms.keys()[r.0 as int] == id@,
            final(self).rooms@.contains_key(id@),
            final(self).rooms@.remove(id@) == old(self).rooms@.remove(id@),
            r.1.wf(),
            old(self).rooms@.contains_key(id@) ==> r.1 == old(self).rooms@[id@],
            !old(self).rooms@.contains_key(id@) ==> r.1.is_blank(),
    {
        let ghost before = self.rooms@;
        let i = self.rooms.entry_index(id);
        proof {
            self.rooms.lemma_wf_values(id@);
        }
        let ghost mid = self.rooms@;
        let r = self.rooms.replace_at(i, RoomEntry::new());
        proof {
            assert(self.rooms@.remove(id@) =~= mid.remove(id@));
            assert(mid.remove(id@) =~= before.remove(id@));
        }
        (i, r)
    }

    /// A room event from the sync: a message is handed on, with a read marker
    /// when its room is the one shown; a state event changes the room.
    fn on_sync_message(&mut self, m: AnyMessageEvent) -> (cmds: Vec<Command>)
        requires
            old(self).wf(),
        ensures
            final(self).wf(),
            old(self).step(*final(self), Messages::Sync(MatrixEvents::Room(AnyRoomEvent::Message(m))), cmds@),
    {
        let room_id = m.meta.room_id.clone();
        let event_id = m.meta.event_id.clone();
        let shown = match &self.selected {
            Some(s) => *s == room_id,
            None => false,
        };
        let mut cmds: Vec<Command> = Vec::new();
        cmds.push(Command::Emit(Messages::RoomMessage(m)));
        if shown {
            cmds.push(Command::SendReadMarker { room_id, event_id });
        }
        proof {
            if shown {
                assert(cmds@ =~= seq![Command::Emit(Messages::RoomMessage(m))] + seq![
                    Command::SendReadMarker {
                        room_id: m.meta.room_id,
                        event_id: m.meta.event_id,
                    },
                ]);
            } else {
                assert(cmds@ =~= seq![Command::Emit(Messages::RoomMessage(m))] + Seq::<Command>::empty());
            }
        }
        cmds
    }

    fn on_state(&mut self, e: AnyStateEvent) -> (cmds: Vec<Command>)
        requires
            old(self).wf(),
        ensures
            final(self).wf(),
            old(self).state_step(*final(self), e, cmds@),
    {
        let ghost e0 = e;
        let rid = e.meta.room_id.clone();
        let mut cmds: Vec<Command> = Vec::new();
        match &e.kind {
            StateKind::RoomCanonicalAlias { alias } => {
                let (i, mut room) = self.take_room(&rid);
                let ghost room0 = room;
                let ghost mid = self.rooms@;
                room.alias = clone_opt(alias);
                self.put_room(i, room);
                proof {
                    assert(self.rooms@.remove(rid@) =~= mid.remove(rid@));
                    if !old(self).rooms@.contains_key(rid@) {
                        assert(room0.is_blank());
                    }
                }
            },
            StateKind::RoomName { name } => {
                let (i, mut room) = self.take_room(&rid);
                let ghost room0 = room;
                let ghost mid = self.rooms@;
                room.display_name = clone_opt(name);
                self.put_room(i, room);
                cmds.push(Command::FetchRoomName(rid));
                proof {
                    assert(self.rooms@.remove(e0.meta.room_id@) =~= mid.remove(e0.meta.room_id@));
                    if !old(self).rooms@.contains_key(e0.meta.room_id@) {
                        assert(room0.is_blank());
                    }
                    assert(cmds@ =~= seq![Command::FetchRoomName(e0.meta.room_id)]);
                }
            },
            StateKind::RoomTopic { topic } => {
                let (i, mut room) = self.take_room(&rid);
                let ghost room0 = room;
                let ghost mid = self.rooms@;
                room.topic = topic.clone();
                self.put_room(i, room);
                proof {
                    assert(self.rooms@.remove(rid@) =~= mid.remove(rid@));
                    if !old(self).rooms@.contains_key(rid@) {
                        assert(room0.is_blank());
                    }
                }
            },
            StateKind::RoomAvatar => {
                let (i, room) = self.take_room(&rid);
                let ghost room0 = room;
                let ghost mid = self.rooms@;
                let url = clone_opt(&room.avatar);
                self.put_room(i, room);
                match url {
                    Some(u) => cmds.push(Command::Emit(Messages::FetchImage(u))),
                    None => {},
                }
                proof {
                    assert(self.rooms@.remove(rid@) =~= mid.remove(rid@));
                    if !old(self).rooms@.contains_key(rid@) {
                        assert(room0.is_blank());
                    }
                    if old(self).rooms@.contains_key(rid@) && old(self).rooms@[rid@].avatar is Some {
                        assert(cmds@ =~= seq![Command::Emit(Messages::FetchImage(old(self).rooms@[rid@].avatar->Some_0))]);
                    } else {
                        assert(cmds@ =~= Seq::<Command>::empty());
                    }
                }
            },
            StateKind::RoomCreate { .. } => {
                cmds.push(Command::LoadRoom(rid));
                assert(cmds@ =~= seq![Command::LoadRoom(e0.meta.room_id)]);
            },
            StateKind::RoomMember { state_key, membership } => {
                if *state_key == self.session.user_id {
                    match membership {
                        MembershipState::Join => {
                            cmds.push(Command::LoadRoom(rid));
                            assert(cmds@ =~= seq![Command::LoadRoom(e0.meta.room_id)]);
                        },
                        MembershipState::Leave => {
                            let shown = match &self.selected {
                                Some(s) => *s == rid,
                                None => false,
                            };
                            if shown {
                                self.selected = None;
                            }
                            self.rooms.remove(&rid);
                        },
                        _ => {},
                    }
                }
            },
            StateKind::Other => {
                let (i, mut room) = self.take_room(&rid);
                let ghost room0 = room;
                let ghost mid = self.rooms@;
                room.messages.push(AnyRoomEvent::State(e));
                self.put_room(i, room);
                proof {
                    assert(self.rooms@.remove(rid@) =~= mid.remove(rid@));
                    if !old(self).rooms@.contains_key(rid@) {
                        assert(room0.is_blank());
                    }
                }
            },
        }
        cmds
    }

    /// A room message: kept in its room's list, with its image fetched.
    fn on_room_message(&mut self, m: AnyMessageEvent) -> (cmds: Vec<Command>)
        requires
            old(self).wf(),
        ensures
            final(self).wf(),
            old(self).step(*final(self), Messages::RoomMessage(m), cmds@),
    {
        let ghost m0 = m;
        let rid = m.meta.room_id.clone();
        let (i, mut room) = self.take_room(&rid);
        let ghost room0 = room;
        let ghost mid = self.rooms@;
        let mut cmds: Vec<Command> = Vec::new();
        let is_message = match &m.kind {
            MessageKind::RoomMessage(MessageContent::Image { url: Some(u), .. }) => {
                cmds.push(Command::Emit(Messages::FetchImage(u.clone())));
                true
            },
            MessageKind::RoomMessage(_) => true,
            _ => false,
        };
        if is_message {
            room.message_list.push(m);
        }
        self.put_room(i, room);
        proof {
            assert(self.rooms@.remove(rid@) =~= mid.remove(rid@));
            if !old(self).rooms@.contains_key(rid@) {
                assert(room0.is_blank());
            }
            assert(cmds@ =~= image_command(m0));
        }
        cmds
    }

    fn on_back_fill(&mut self, id: String) -> (cmds: Vec<Command>)
        requires
            old(self).wf(),
        ensures
            final(self).wf(),
            old(self).step(*final(self), Messages::BackFill(id), cmds@),
    {
        let (i, mut room) = self.take_room(&id);
        let ghost room0 = room;
        let ghost mid = self.rooms@;
        room.messages.loading = true;
        let token = clone_opt(&room.messages.end);
        self.put_room(i, room);
        let mut cmds: Vec<Command> = Vec::new();
        cmds.push(Command::RequestMessages { room_id: id, token, fallback: self.sync_token.clone() });
        proof {
            assert(self.rooms@.remove(id@) =~= mid.remove(id@));
            if !old(self).rooms@.contains_key(id@) {
                assert(room0.is_blank());
            }
        }
        assert(cmds@ =~= seq![Command::RequestMessages { room_id: id, token: room0.messages.end, fallback: self.sync_token }]);
        cmds
    }

    fn on_back_filled(&mut self, id: String, response: MessagesResponse) -> (cmds: Vec<Command>)
        requires
            old(self).wf(),
            old(self).rooms@.contains_key(id@),
        ensures
            final(self).wf(),
            old(self).step(*final(self), Messages::BackFilled(id, response), cmds@),
    {
        let (i, mut room) = self.take_room(&id);
        let ghost mid = self.rooms@;
        room.messages.loading = false;
        let MessagesResponse { start, end, mut events } = response;
        if start.is_some() {
            room.messages.start = start;
        }
        if end.is_some() {
            room.messages.end = end;
        }
        self.put_room(i, room);
        proof {
            let o = old(self).rooms@;
            assert(mid.remove(id@) == o.remove(id@));
            assert forall|k: Seq<char>| k != id@ implies (#[trigger] self.rooms@.contains_key(k)
                == o.contains_key(k)) && (o.contains_key(k) ==> self.rooms@[k] == o[k]) by {
                assert(mid.remove(id@).contains_key(k) == mid.contains_key(k));
                assert(o.remove(id@).contains_key(k) == o.contains_key(k));
                if o.contains_key(k) {
                    assert(mid.remove(id@)[k] == o.remove(id@)[k]);
                }
            }
            assert(self.rooms@ =~= o.insert(id@, self.rooms@[id@]));
        }
        let ghost all = events@;
        let mut cmds: Vec<Command> = Vec::new();
        assert(all.take(0) =~= Seq::<AnyRoomEvent>::empty());
        assert(all.skip(0) =~= all);
        while events.len() > 0
            invariant
                events.len() <= all.len(),
                events@ == all.skip(all.len() - events.len()),
                cmds@ == backfill_commands(all.take(all.len() - events.len())),
            decreases events.len(),
        {
            let ghost j = all.len() - events.len();
            let e = events.remove(0);
            assert(e == all[j]);
            assert(events@ =~= all.skip(j + 1));
            assert(all.take(j + 1).drop_last() =~= all.take(j));
            assert(all.take(j + 1).last() == e);
            match e {
                AnyRoomEvent::Message(m) => cmds.push(Command::Emit(Messages::RoomMessage(m))),
                _ => {},
            }
        }
        assert(all.take(all.len() as int) =~= all);
        cmds
    }

    fn on_fetch_image(&mut self, url: String) -> (cmds: Vec<Command>)
        requires
            old(self).wf(),
        ensures
            final(self).wf(),
            old(self).step(*final(self), Messages::FetchImage(url), cmds@),
    {
        let mut cmds: Vec<Command> = Vec::new();
        match parse_mxc(url.as_str()) {
            Ok((server, path)) => {
                proof {
                    assert(is_mxc(url@, server@, path@));
                }
                cmds.push(Command::DownloadImage { url, server, path });
            },
            Err(e) => {
                cmds.push(Command::Emit(Messages::LoginFailed(e.to_string())));
            },
        }
        cmds
    }

    /// Takes `message` and gives the commands it calls for.
    pub fn update(&mut self, message: Messages) -> (cmds: Vec<Command>)
        requires
            old(self).wf(),
            old(self).accepts(message),
        ensures
            final(self).wf(),
            old(self).step(*final(self), message, cmds@),
    {
        match message {
            Messages::Sync(MatrixEvents::Room(AnyRoomEvent::Message(m))) => self.on_sync_message(m),
            Messages::Sync(MatrixEvents::Room(AnyRoomEvent::State(e))) => self.on_state(e),
            Messages::RoomMessage(m) => self.on_room_message(m),
            Messages::ResetRoom(id, room) => {
                let back = id.clone();
                self.rooms.insert(id, room);
                let mut cmds: Vec<Command> = Vec::new();
                cmds.push(Command::Emit(Messages::BackFill(back)));
                assert(cmds@ =~= seq![Command::Emit(Messages::BackFill(back))]);
                cmds
            },
            Messages::RoomName(id, name) => {
                match self.rooms.find(&id) {
                    Some(i) => {
                        proof {
                            self.rooms.lemma_wf_values(id@);
                        }
                        let ghost before = self.rooms@;
                        let mut room = self.rooms.replace_at(i, RoomEntry::new());
                        room.name = name;
                        let _ = self.rooms.replace_at(i, room);
                        assert(self.rooms@ =~= before.insert(id@, room));
                    },
                    None => {},
                }
                Vec::new()
            },
            Messages::BackFill(id) => self.on_back_fill(id),
            Messages::BackFilled(id, response) => self.on_back_filled(id, response),
            Messages::FetchImage(url) => self.on_fetch_image(url),
            Messages::SelectRoom(id) => {
                let empty = match self.rooms.get(&id) {
                    Some(room) => room.messages.messages.len() == 0,
                    None => false,
                };
                self.selected = Some(id.clone());
                let mut cmds: Vec<Command> = Vec::new();
                if empty {
                    cmds.push(Command::Emit(Messages::BackFill(id)));
                }
                cmds
            },
            Messages::SetMessage(text) => {
                self.draft = text;
                Vec::new()
            },
            Messages::SendMessage => {
                let mut cmds: Vec<Command> = Vec::new();
                match &self.selected {
                    Some(s) => {
                        cmds.push(Command::SendText { room_id: s.clone(), body: self.draft.clone() });
                    },
                    None => {},
                }
                cmds
            },
            _ => Vec::new(),
        }
    }

    /// Puts back the room taken out at `i`.
    fn put_room(&mut self, i: usize, entry: RoomEntry)
        requires
            old(self).wf(),
            i < old(self).rooms.entries@.len(),
            entry.wf(),
        ensures
            final(self).wf(),
            old(self).same_but_rooms(*final(self)),
            final(self).rooms@ == old(self).rooms@.insert(old(self).rooms.keys()[i as int], entry),
    {
        let _ = self.rooms.replace_at(i, entry);
    }
}

} // verus!
