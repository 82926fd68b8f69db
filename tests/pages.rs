use elementary::elementary::Subscription;
use elementary::home::{backfill_token, history_start, sender_headers, HistoryStart};
use elementary::login::TextBoxes;
use elementary::message::{
    AnyMessageEvent, AnyRoomEvent, AnyStateEvent, EventMeta, MembershipState, MessageContent,
    MessageKind, StateKind,
};
use elementary::room::RoomEntry;
use elementary::screens::{
    Command, Elementary, HomePage, JoinedRoom, LoginPage, Messages, MessagesResponse, VerifyPage,
};
use elementary::session::{session_path, Session};
use elementary::subscriber::{MatrixEvents, ToDeviceEvent};
use elementary::theme::Theme;
use elementary::verify::{emoji_grid, EmojiHandler};

fn session() -> Session {
    Session {
        access_token: "SECRET-REDACTED".to_string(),
        user_id: "@me:x".to_string(),
        device_id: "DEV".to_string(),
        homeserver: "https://x".to_string(),
    }
}

fn meta(id: &str, room: &str) -> EventMeta {
    EventMeta { event_id: id.to_string(), room_id: room.to_string(), sender: "@a:x".to_string(), origin_server_ts: 10 }
}

fn state(room: &str, kind: StateKind) -> Messages {
    Messages::Sync(MatrixEvents::Room(AnyRoomEvent::State(AnyStateEvent { meta: meta("$s", room), kind })))
}

fn text_message(id: &str, room: &str) -> AnyMessageEvent {
    AnyMessageEvent {
        meta: meta(id, room),
        kind: MessageKind::RoomMessage(MessageContent::Text { body: "hi".to_string(), replaces: None }),
    }
}

#[test]
fn login_focus_moves_and_stops_at_ends() {
    let mut page = LoginPage::default();
    page.update(Messages::FocusNext);
    assert_eq!(page.focus, None);
    page.set_focus(TextBoxes::Homeserver);
    page.update(Messages::FocusNext);
    assert_eq!(page.focus, Some(TextBoxes::Username));
    page.update(Messages::FocusNext);
    assert_eq!(page.focus, Some(TextBoxes::Password));
    page.update(Messages::FocusNext);
    assert_eq!(page.focus, Some(TextBoxes::Password));
    page.update(Messages::FocusPrev);
    assert_eq!(page.focus, Some(TextBoxes::Username));
    page.update(Messages::FocusPrev);
    page.update(Messages::FocusPrev);
    assert_eq!(page.focus, Some(TextBoxes::Homeserver));
}

#[test]
fn text_boxes_from_i32() {
    assert_eq!(TextBoxes::from_i32(0), Some(TextBoxes::Homeserver));
    assert_eq!(TextBoxes::from_i32(2), Some(TextBoxes::Password));
    assert_eq!(TextBoxes::from_i32(3), None);
    assert_eq!(TextBoxes::from_i32(-1), None);
    assert_eq!(TextBoxes::Username.index(), 1);
}

#[test]
fn login_submit_sends_form() {
    let mut page = LoginPage::default();
    page.update(Messages::HomeserverChanged("https://x".to_string()));
    page.update(Messages::UsernameChanged("me".to_string()));
    page.update(Messages::PasswordChanged("pw".to_string()));
    let (cmds, next) = page.update(Messages::Submit);
    assert!(next.is_none());
    assert_eq!(cmds.len(), 1);
    match &cmds[0] {
        Command::Login { homeserver, username, password } => {
            assert_eq!((homeserver.as_str(), username.as_str(), password.as_str()), ("https://x", "me", "pw"));
        }
        other => panic!("unexpected {:?}", other),
    }
}

#[test]
fn login_result_loads_rooms_and_goes_home() {
    let mut page = LoginPage::default();
    let rooms = vec![
        JoinedRoom { room_id: "!a".to_string(), avatar: Some("mxc://x/av".to_string()) },
        JoinedRoom { room_id: "!b".to_string(), avatar: None },
    ];
    let (cmds, next) = page.update(Messages::LoginResult(session(), rooms));
    assert_eq!(cmds.len(), 3);
    assert!(matches!(&cmds[0], Command::Emit(Messages::FetchImage(u)) if u == "mxc://x/av"));
    assert!(matches!(&cmds[1], Command::LoadRoom(r) if r == "!a"));
    assert!(matches!(&cmds[2], Command::LoadRoom(r) if r == "!b"));
    match next {
        Some(Elementary::HomePage(h)) => {
            assert_eq!(h.session.user_id, "@me:x");
            assert!(h.rooms.entries.is_empty());
            assert_eq!(h.theme, Theme::Dark);
        }
        _ => panic!("expected the home page"),
    }
}

#[test]
fn verification_moves_to_verify_page() {
    let mut page = LoginPage::default();
    let (cmds, next) = page.update(Messages::Verification(session()));
    assert!(cmds.is_empty());
    match next {
        Some(Elementary::VerifyPage(v)) => assert!(!v.sas && v.verification_emoji.is_empty()),
        _ => panic!("expected the verify page"),
    }
}

#[test]
fn verify_page_answers_device_events() {
    let mut v = VerifyPage::new(session());
    let (cmds, _) = v.update(Messages::Sync(MatrixEvents::ToDevice(ToDeviceEvent::KeyVerificationStart {
        transaction_id: "t1".to_string(),
    })));
    assert!(matches!(&cmds[..], [Command::AcceptVerification(t)] if t == "t1"));
    let (cmds, _) = v.update(Messages::Sync(MatrixEvents::ToDevice(ToDeviceEvent::KeyVerificationKey {
        transaction_id: "t1".to_string(),
    })));
    assert!(matches!(&cmds[..], [Command::ShowVerificationEmoji(t)] if t == "t1"));
    let (cmds, _) = v.update(Messages::VerificationConfirm);
    assert!(cmds.is_empty());
    v.update(Messages::SetVerification(vec![("🐶".to_string(), "Dog".to_string())]));
    assert!(v.sas);
    let (cmds, _) = v.update(Messages::VerificationConfirm);
    assert!(matches!(&cmds[..], [Command::ConfirmVerification]));
    let (cmds, _) = v.update(Messages::VerificationCancel);
    assert!(matches!(&cmds[..], [Command::CancelVerification]));
    let (_, next) = v.update(Messages::GoBack);
    assert!(matches!(next, Some(Elementary::LoginPage(_))));
    let (_, next) = v.update(Messages::GoHome);
    assert!(matches!(next, Some(Elementary::HomePage(h)) if h.session.user_id == "@me:x"));
}

#[test]
fn emoji_handler_get() {
    let h = EmojiHandler { stride: 4, data: vec![1, 2, 3, 4, 5, 6] };
    assert_eq!(h.get(0, 0), Some(&1));
    assert_eq!(h.get(1, 1), Some(&6));
    assert_eq!(h.get(1, 2), None);
    assert_eq!(h.get(5, 0), None);
}

#[test]
fn emoji_grid_rows_of_four() {
    let emoji: Vec<(String, String)> = (0..7).map(|i| (format!("e{}", i), format!("n{}", i))).collect();
    let grid = emoji_grid(&emoji);
    assert_eq!(grid.len(), 2);
    assert_eq!(grid[0].len(), 4);
    assert_eq!(grid[1].len(), 3);
    assert_eq!(grid[1][2], ("e6".to_string(), "n6".to_string()));
    assert!(emoji_grid(&Vec::new()).is_empty());
    let eight: Vec<(String, String)> = (0..8).map(|i| (i.to_string(), i.to_string())).collect();
    assert_eq!(emoji_grid(&eight).len(), 2);
}

#[test]
fn home_state_events_fill_rooms() {
    let mut h = HomePage::new(session());
    let cmds = h.update(state("!r", StateKind::RoomCanonicalAlias { alias: Some("#r:x".to_string()) }));
    assert!(cmds.is_empty());
    let cmds = h.update(state("!r", StateKind::RoomName { name: Some("Room".to_string()) }));
    assert!(matches!(&cmds[..], [Command::FetchRoomName(r)] if r == "!r"));
    h.update(state("!r", StateKind::RoomTopic { topic: "chat".to_string() }));
    let room = h.rooms.get(&"!r".to_string()).unwrap();
    assert_eq!(room.alias.as_deref(), Some("#r:x"));
    assert_eq!(room.display_name.as_deref(), Some("Room"));
    assert_eq!(room.topic, "chat");
    assert_eq!(h.rooms.entries.len(), 1);
    let cmds = h.update(state("!r", StateKind::RoomCreate { predecessor: None }));
    assert!(matches!(&cmds[..], [Command::LoadRoom(r)] if r == "!r"));
    h.update(state("!r", StateKind::Other));
    assert_eq!(h.rooms.get(&"!r".to_string()).unwrap().messages.messages.len(), 1);
}

#[test]
fn home_avatar_fetches_known_avatar() {
    let mut h = HomePage::new(session());
    let cmds = h.update(state("!r", StateKind::RoomAvatar));
    assert!(cmds.is_empty());
    h.update(Messages::ResetRoom(
        "!r".to_string(),
        RoomEntry::from_sdk(None, None, None, None, Some("mxc://x/av".to_string())),
    ));
    let cmds = h.update(state("!r", StateKind::RoomAvatar));
    assert!(matches!(&cmds[..], [Command::Emit(Messages::FetchImage(u))] if u == "mxc://x/av"));
}

#[test]
fn home_leave_removes_and_deselects() {
    let mut h = HomePage::new(session());
    h.update(Messages::ResetRoom("!r".to_string(), RoomEntry::default()));
    h.update(Messages::SelectRoom("!r".to_string()));
    assert_eq!(h.selected.as_deref(), Some("!r"));
    let other = state("!r", StateKind::RoomMember { state_key: "@bob:x".to_string(), membership: MembershipState::Leave });
    assert!(h.update(other).is_empty());
    assert!(h.rooms.get(&"!r".to_string()).is_some());
    let join = state("!r", StateKind::RoomMember { state_key: "@me:x".to_string(), membership: MembershipState::Join });
    assert!(matches!(&h.update(join)[..], [Command::LoadRoom(r)] if r == "!r"));
    let leave = state("!r", StateKind::RoomMember { state_key: "@me:x".to_string(), membership: MembershipState::Leave });
    assert!(h.update(leave).is_empty());
    assert!(h.rooms.get(&"!r".to_string()).is_none());
    assert_eq!(h.selected, None);
}

#[test]
fn home_sync_message_marks_read_in_selected_room() {
    let mut h = HomePage::new(session());
    let cmds = h.update(Messages::Sync(MatrixEvents::Room(AnyRoomEvent::Message(text_message("$1", "!r")))));
    assert_eq!(cmds.len(), 1);
    h.update(Messages::ResetRoom("!r".to_string(), RoomEntry::default()));
    h.update(Messages::SelectRoom("!r".to_string()));
    let cmds = h.update(Messages::Sync(MatrixEvents::Room(AnyRoomEvent::Message(text_message("$2", "!r")))));
    assert_eq!(cmds.len(), 2);
    assert!(matches!(&cmds[0], Command::Emit(Messages::RoomMessage(m)) if m.meta.event_id == "$2"));
    assert!(matches!(&cmds[1], Command::SendReadMarker { room_id, event_id } if room_id == "!r" && event_id == "$2"));
}

#[test]
fn home_room_message_is_listed_and_image_fetched() {
    let mut h = HomePage::new(session());
    assert!(h.update(Messages::RoomMessage(text_message("$1", "!r"))).is_empty());
    let image = AnyMessageEvent {
        meta: meta("$2", "!r"),
        kind: MessageKind::RoomMessage(MessageContent::Image { body: "p".to_string(), url: Some("mxc://x/p".to_string()) }),
    };
    let cmds = h.update(Messages::RoomMessage(image));
    assert!(matches!(&cmds[..], [Command::Emit(Messages::FetchImage(u))] if u == "mxc://x/p"));
    let reaction = AnyMessageEvent { meta: meta("$3", "!r"), kind: MessageKind::Reaction };
    h.update(Messages::RoomMessage(reaction));
    assert_eq!(h.rooms.get(&"!r".to_string()).unwrap().message_list.len(), 2);
}

#[test]
fn home_backfill_round_trip() {
    let mut h = HomePage::new(session());
    h.sync_token = "sync1".to_string();
    let cmds = h.update(Messages::ResetRoom("!r".to_string(), RoomEntry::default()));
    assert!(matches!(&cmds[..], [Command::Emit(Messages::BackFill(r))] if r == "!r"));
    let cmds = h.update(Messages::BackFill("!r".to_string()));
    assert!(matches!(&cmds[..], [Command::RequestMessages { room_id, token: None, fallback }] if room_id == "!r" && fallback == "sync1"));
    assert!(h.rooms.get(&"!r".to_string()).unwrap().messages.loading);
    let response = MessagesResponse {
        start: Some("s".to_string()),
        end: Some("e".to_string()),
        events: vec![
            AnyRoomEvent::Message(text_message("$1", "!r")),
            AnyRoomEvent::State(AnyStateEvent { meta: meta("$c", "!r"), kind: StateKind::RoomCreate { predecessor: None } }),
            AnyRoomEvent::Message(text_message("$2", "!r")),
        ],
    };
    let cmds = h.update(Messages::BackFilled("!r".to_string(), response));
    assert_eq!(cmds.len(), 2);
    assert!(matches!(&cmds[1], Command::Emit(Messages::RoomMessage(m)) if m.meta.event_id == "$2"));
    let room = h.rooms.get(&"!r".to_string()).unwrap();
    assert!(!room.messages.loading);
    assert_eq!(room.messages.end.as_deref(), Some("e"));
    let cmds = h.update(Messages::BackFill("!r".to_string()));
    assert!(matches!(&cmds[..], [Command::RequestMessages { token: Some(t), .. }] if t == "e"));
}

#[test]
fn home_select_room_backfills_empty_room() {
    let mut h = HomePage::new(session());
    h.update(Messages::ResetRoom("!r".to_string(), RoomEntry::default()));
    let cmds = h.update(Messages::SelectRoom("!r".to_string()));
    assert!(matches!(&cmds[..], [Command::Emit(Messages::BackFill(r))] if r == "!r"));
}

#[test]
fn home_room_name_only_for_known_rooms() {
    let mut h = HomePage::new(session());
    h.update(Messages::RoomName("!nope".to_string(), "X".to_string()));
    assert!(h.rooms.entries.is_empty());
    h.update(Messages::ResetRoom("!r".to_string(), RoomEntry::default()));
    h.update(Messages::RoomName("!r".to_string(), "Named".to_string()));
    assert_eq!(h.rooms.get(&"!r".to_string()).unwrap().name, "Named");
}

#[test]
fn home_fetch_image_parses_url() {
    let mut h = HomePage::new(session());
    let cmds = h.update(Messages::FetchImage("mxc://srv/media".to_string()));
    assert!(matches!(&cmds[..], [Command::DownloadImage { url, server, path }] if url == "mxc://srv/media" && server == "srv" && path == "media"));
    let cmds = h.update(Messages::FetchImage("http://srv/media".to_string()));
    assert!(matches!(&cmds[..], [Command::Emit(Messages::LoginFailed(_))]));
}

#[test]
fn home_draft_and_send() {
    let mut h = HomePage::new(session());
    h.update(Messages::SetMessage("hello".to_string()));
    assert_eq!(h.draft, "hello");
    assert!(h.update(Messages::SendMessage).is_empty());
    h.update(Messages::ResetRoom("!r".to_string(), RoomEntry::default()));
    h.update(Messages::SelectRoom("!r".to_string()));
    let cmds = h.update(Messages::SendMessage);
    assert!(matches!(&cmds[..], [Command::SendText { room_id, body }] if room_id == "!r" && body == "hello"));
}

#[test]
fn backfill_token_prefers_end_then_batch() {
    assert_eq!(backfill_token(Some("e".to_string()), Some("p".to_string()), "s".to_string()), "e");
    assert_eq!(backfill_token(None, Some("p".to_string()), "s".to_string()), "p");
    assert_eq!(backfill_token(None, None, "s".to_string()), "s");
}

#[test]
fn history_start_and_sender_headers() {
    let mut room = RoomEntry::default();
    assert_eq!(history_start(&room), HistoryStart::LoadMore);
    room.messages.loading = true;
    assert_eq!(history_start(&room), HistoryStart::Loading);
    room.messages.loading = false;
    room.messages.push(AnyRoomEvent::State(AnyStateEvent { meta: meta("$c", "!r"), kind: StateKind::RoomCreate { predecessor: None } }));
    assert_eq!(history_start(&room), HistoryStart::Beginning);
    let mut a = text_message("$1", "!r");
    let b = text_message("$2", "!r");
    let mut c = text_message("$3", "!r");
    c.meta.sender = "@c:x".to_string();
    a.meta.sender = "@a:x".to_string();
    assert_eq!(sender_headers(&vec![a, b, c]), vec![true, false, true]);
    assert!(sender_headers(&Vec::new()).is_empty());
}

#[test]
fn elementary_starts_on_login() {
    let (page, cmds) = Elementary::new(None);
    assert!(cmds.is_empty());
    assert_eq!(page.subscription(), Subscription::Keyboard);
    assert_eq!(page.title(), "Matrix");
    let (_, cmds) = Elementary::new(Some(session()));
    assert!(matches!(&cmds[..], [Command::RestoreLogin(s)] if s.user_id == "@me:x"));
}

#[test]
fn elementary_moves_between_pages() {
    let (mut app, _) = Elementary::new(None);
    app.update(Messages::Verification(session()));
    assert!(matches!(app, Elementary::VerifyPage(_)));
    assert_eq!(app.subscription(), Subscription::Sync);
    app.update(Messages::GoHome);
    assert!(matches!(app, Elementary::HomePage(_)));
    app.update(Messages::SetMessage("x".to_string()));
    assert!(matches!(&app, Elementary::HomePage(h) if h.draft == "x"));
}

#[test]
fn key_messages() {
    assert!(Elementary::key_message(false, false).is_none());
    assert!(matches!(Elementary::key_message(true, true), Some(Messages::FocusPrev)));
    assert!(matches!(Elementary::key_message(true, false), Some(Messages::FocusNext)));
}

#[test]
fn defaults_and_paths() {
    assert_eq!(Theme::default(), Theme::Dark);
    assert_eq!(Theme::ALL, [Theme::Light, Theme::Dark]);
    assert_eq!(session_path(), "./data/config/session.toml");
    let s = session();
    let d = s.duplicate();
    assert_eq!((d.user_id, d.device_id, d.homeserver), (s.user_id, s.device_id, s.homeserver));
}
