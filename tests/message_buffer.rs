use elementary::message::{
    AnyMessageEvent, AnyMessageEventExt, AnyRoomEvent, AnyRoomEventExt, AnyStateEvent, EventMeta,
    MessageBuffer, MessageContent, MessageKind, StateKind,
};

fn meta(id: &str, ts: u64) -> EventMeta {
    EventMeta {
        event_id: id.to_string(),
        room_id: "!room:example.org".to_string(),
        sender: "@alice:example.org".to_string(),
        origin_server_ts: ts,
    }
}

fn text(id: &str, ts: u64, body: &str) -> AnyRoomEvent {
    AnyRoomEvent::Message(AnyMessageEvent {
        meta: meta(id, ts),
        kind: MessageKind::RoomMessage(MessageContent::Text { body: body.to_string(), replaces: None }),
    })
}

fn edit(id: &str, ts: u64, target: &str) -> AnyRoomEvent {
    AnyRoomEvent::Message(AnyMessageEvent {
        meta: meta(id, ts),
        kind: MessageKind::RoomMessage(MessageContent::Text {
            body: "* fixed".to_string(),
            replaces: Some(target.to_string()),
        }),
    })
}

fn redaction(id: &str, ts: u64, target: &str) -> AnyRoomEvent {
    AnyRoomEvent::Message(AnyMessageEvent {
        meta: meta(id, ts),
        kind: MessageKind::RoomRedaction { redacts: target.to_string() },
    })
}

fn create(id: &str, ts: u64) -> AnyRoomEvent {
    AnyRoomEvent::State(AnyStateEvent { meta: meta(id, ts), kind: StateKind::RoomCreate { predecessor: None } })
}

fn ids(b: &MessageBuffer) -> Vec<String> {
    b.messages.iter().map(|e| e.event_id().clone()).collect()
}

#[test]
fn new_buffer_is_empty() {
    let b = MessageBuffer::default();
    assert!(b.messages.is_empty());
    assert!(b.known_ids.is_empty());
    assert_eq!(b.updated, 0);
    assert!(!b.loading);
    assert!(b.start.is_none() && b.end.is_none());
}

#[test]
fn push_keeps_send_order() {
    let mut b = MessageBuffer::new();
    b.push(text("$b", 20, "second"));
    b.push(text("$a", 10, "first"));
    b.push(text("$c", 30, "third"));
    assert_eq!(ids(&b), vec!["$a", "$b", "$c"]);
    assert_eq!(b.updated, 30);
    assert_eq!(b.known_ids.len(), 3);
}

#[test]
fn push_equal_times_keeps_arrival_order() {
    let mut b = MessageBuffer::new();
    b.push(text("$x", 5, "x"));
    b.push(text("$y", 5, "y"));
    assert_eq!(ids(&b), vec!["$x", "$y"]);
}

#[test]
fn push_edit_replaces_target() {
    let mut b = MessageBuffer::new();
    b.push(text("$a", 10, "hello"));
    b.push(text("$b", 20, "world"));
    b.push(edit("$c", 30, "$a"));
    assert_eq!(ids(&b), vec!["$b", "$c"]);
    assert!(!b.known_ids.contains(&"$a".to_string()));
    assert!(b.known_ids.contains(&"$c".to_string()));
    assert_eq!(b.updated, 30);
}

#[test]
fn push_redaction_removes_target() {
    let mut b = MessageBuffer::new();
    b.push(text("$a", 10, "oops"));
    b.push(redaction("$r", 15, "$a"));
    assert_eq!(ids(&b), vec!["$r"]);
    assert_eq!(b.updated, 15);
}

#[test]
fn push_skips_known_event() {
    let mut b = MessageBuffer::new();
    b.push(text("$a", 10, "hello"));
    b.push(text("$a", 10, "hello"));
    assert_eq!(b.messages.len(), 1);
    assert_eq!(b.known_ids, vec!["$a".to_string()]);
    // A known edit is skipped too, and leaves its target in place.
    b.push(text("$b", 20, "world"));
    b.push(edit("$c", 30, "$b"));
    b.push(text("$b2", 40, "again"));
    let before = ids(&b);
    b.push(edit("$c", 30, "$b2"));
    assert_eq!(ids(&b), before);
}

#[test]
fn append_skips_known_events() {
    let mut b = MessageBuffer::new();
    b.push(text("$a", 10, "hello"));
    b.append(vec![text("$a", 10, "hello"), text("$b", 5, "older")]);
    assert_eq!(ids(&b), vec!["$b", "$a"]);
    assert_eq!(b.updated, 10);
}

#[test]
fn append_edit_removes_earlier_message_only() {
    let mut b = MessageBuffer::new();
    b.push(text("$a", 10, "hello"));
    // The edit of `$x` arrives in the same batch as `$x`: only events held
    // before the call are taken out.
    b.append(vec![edit("$e", 30, "$a"), text("$x", 20, "x"), redaction("$r", 40, "$x")]);
    assert_eq!(ids(&b), vec!["$x", "$e", "$r"]);
    assert!(!b.known_ids.contains(&"$a".to_string()));
    assert_eq!(b.updated, 40);
}

#[test]
fn append_empty_batch_keeps_buffer() {
    let mut b = MessageBuffer::new();
    b.push(text("$a", 10, "hello"));
    b.append(Vec::new());
    assert_eq!(ids(&b), vec!["$a"]);
    assert_eq!(b.updated, 10);
}

#[test]
fn has_beginning_needs_room_create() {
    let mut b = MessageBuffer::new();
    b.push(text("$a", 10, "hello"));
    assert!(!b.has_beginning());
    b.append(vec![create("$create", 1)]);
    assert!(b.has_beginning());
    assert_eq!(ids(&b)[0], "$create");
}

#[test]
fn image_url_of_image_message() {
    let image = AnyMessageEvent {
        meta: meta("$i", 1),
        kind: MessageKind::RoomMessage(MessageContent::Image {
            body: "cat.png".to_string(),
            url: Some("mxc://example.org/cat".to_string()),
        }),
    };
    assert_eq!(AnyMessageEventExt::image_url(&image), Some("mxc://example.org/cat".to_string()));
    let ev = AnyRoomEvent::Message(image);
    assert_eq!(AnyRoomEventExt::image_url(&ev), Some("mxc://example.org/cat".to_string()));
    assert_eq!(AnyRoomEventExt::image_url(&text("$t", 1, "no")), None);
    assert_eq!(AnyRoomEventExt::image_url(&create("$c", 1)), None);
}

#[test]
fn event_accessors() {
    let ev = AnyRoomEvent::RedactedState(meta("$gone", 77));
    assert_eq!(ev.event_id(), "$gone");
    assert_eq!(ev.origin_server_ts(), 77);
    assert_eq!(edit("$e", 1, "$t").target(), Some("$t".to_string()));
    assert_eq!(redaction("$r", 1, "$t").target(), Some("$t".to_string()));
    assert_eq!(text("$p", 1, "plain").target(), None);
}
