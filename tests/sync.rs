use elementary::message::{AnyMessageEvent, AnyRoomEvent, AnyStateEvent, EventMeta, MessageContent, MessageKind, StateKind};
use elementary::subscriber::{sync_events, JoinedRoomSync, MatrixEvents, SyncResponse, ToDeviceEvent};

fn meta(id: &str) -> EventMeta {
    EventMeta { event_id: id.to_string(), room_id: String::new(), sender: "@a:x".to_string(), origin_server_ts: 1 }
}

fn room_of(e: &MatrixEvents) -> Option<String> {
    match e {
        MatrixEvents::Room(AnyRoomEvent::Message(m)) => Some(m.meta.room_id.clone()),
        MatrixEvents::Room(AnyRoomEvent::State(s)) => Some(s.meta.room_id.clone()),
        MatrixEvents::Room(AnyRoomEvent::RedactedMessage(m)) => Some(m.room_id.clone()),
        MatrixEvents::Room(AnyRoomEvent::RedactedState(m)) => Some(m.room_id.clone()),
        MatrixEvents::ToDevice(_) => None,
    }
}

#[test]
fn sync_orders_state_timeline_then_device_events() {
    let response = SyncResponse {
        rooms: vec![
            JoinedRoomSync {
                room_id: "!one".to_string(),
                state: vec![AnyStateEvent { meta: meta("$s1"), kind: StateKind::RoomTopic { topic: "t".to_string() } }],
                timeline: vec![AnyRoomEvent::Message(AnyMessageEvent {
                    meta: meta("$m1"),
                    kind: MessageKind::RoomMessage(MessageContent::Notice { body: "n".to_string() }),
                })],
            },
            JoinedRoomSync {
                room_id: "!two".to_string(),
                state: Vec::new(),
                timeline: vec![AnyRoomEvent::RedactedMessage(meta("$m2"))],
            },
        ],
        to_device: vec![ToDeviceEvent::KeyVerificationKey { transaction_id: "tx".to_string() }],
    };
    let out = sync_events(response);
    assert_eq!(out.len(), 4);
    let rooms: Vec<Option<String>> = out.iter().map(room_of).collect();
    assert_eq!(
        rooms,
        vec![Some("!one".to_string()), Some("!one".to_string()), Some("!two".to_string()), None]
    );
    assert!(matches!(&out[0], MatrixEvents::Room(AnyRoomEvent::State(s)) if s.meta.event_id == "$s1"));
    assert!(matches!(&out[1], MatrixEvents::Room(AnyRoomEvent::Message(m)) if m.meta.event_id == "$m1"));
    assert!(matches!(&out[3], MatrixEvents::ToDevice(ToDeviceEvent::KeyVerificationKey { transaction_id }) if transaction_id == "tx"));
}

#[test]
fn empty_sync_gives_nothing() {
    let out = sync_events(SyncResponse { rooms: Vec::new(), to_device: Vec::new() });
    assert!(out.is_empty());
}
