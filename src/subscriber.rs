//! Events as the sync loop hands them to the pages.
use vstd::prelude::*;

use crate::message::{AnyMessageEvent, AnyRoomEvent, AnyStateEvent, EventMeta};

verus! {

/// Device-to-device events that the client acts on.
#[derive(Clone, Debug)]
pub enum ToDeviceEvent {
    KeyVerificationStart { transaction_id: String },
    KeyVerificationKey { transaction_id: String },
    Other,
}

#[derive(Clone, Debug)]
pub enum MatrixEvents {
    Room(AnyRoomEvent),
    ToDevice(ToDeviceEvent),
}

/// What one sync reports of a joined room. Its events do not say which room
/// they belong to until they are placed in it.
#[derive(Debug)]
pub struct JoinedRoomSync {
    pub room_id: String,
    pub state: Vec<AnyStateEvent>,
    pub timeline: Vec<AnyRoomEvent>,
}

/// What one sync reports.
#[derive(Debug)]
pub struct SyncResponse {
    pub rooms: Vec<JoinedRoomSync>,
    pub to_device: Vec<ToDeviceEvent>,
}

pub open spec fn meta_in_room(m: EventMeta, id: String) -> EventMeta {
    EventMeta { room_id: id, ..m }
}

pub open spec fn state_in_room(e: AnyStateEvent, id: String) -> AnyStateEvent {
    AnyStateEvent { meta: meta_in_room(e.meta, id), ..e }
}

/// `e` as an event of the room `id`.
pub open spec fn in_room(e: AnyRoomEvent, id: String) -> AnyRoomEvent {
    match e {
        AnyRoomEvent::Message(m) => AnyRoomEvent::Message(
            AnyMessageEvent { meta: meta_in_room(m.meta, id), ..m },
        ),
        AnyRoomEvent::State(s) => AnyRoomEvent::State(state_in_room(s, id)),
        AnyRoomEvent::RedactedMessage(m) => AnyRoomEvent::RedactedMessage(meta_in_room(m, id)),
        AnyRoomEvent::RedactedState(m) => AnyRoomEvent::RedactedState(meta_in_room(m, id)),
    }
}

/// The events of one joined room: its state events, then its timeline.
pub open spec fn room_batch(r: JoinedRoomSync) -> Seq<MatrixEvents> {
    r.state@.map_values(|e: AnyStateEvent| MatrixEvents::Room(AnyRoomEvent::State(state_in_room(e, r.room_id))))
        + r.timeline@.map_values(|e: AnyRoomEvent| MatrixEvents::Room(in_room(e, r.room_id)))
}

/// The events of the joined rooms, room after room.
pub open spec fn rooms_batch(rooms: Seq<JoinedRoomSync>) -> Seq<MatrixEvents>
    decreases rooms.len(),
{
    if rooms.len() == 0 {
        Seq::empty()
    } else {
        rooms_batch(rooms.drop_last()) + room_batch(rooms.last())
    }
}

fn place_state(e: AnyStateEvent, id: String) -> (r: AnyStateEvent)
    ensures
        r == state_in_room(e, id),
{
    let mut e = e;
    e.meta.room_id = id;
    e
}

fn place_event(e: AnyRoomEvent, id: String) -> (r: AnyRoomEvent)
    ensures
        r == in_room(e, id),
{
    match e {
        AnyRoomEvent::Message(mut m) => {
            m.meta.room_id = id;
            AnyRoomEvent::Message(m)
        },
        AnyRoomEvent::State(s) => AnyRoomEvent::State(place_state(s, id)),
        AnyRoomEvent::RedactedMessage(mut m) => {
            m.room_id = id;
            AnyRoomEvent::RedactedMessage(m)
        },
        AnyRoomEvent::RedactedState(mut m) => {
            m.room_id = id;
            AnyRoomEvent::RedactedState(m)
        },
    }
}

fn push_room_batch(out: &mut Vec<MatrixEvents>, r: JoinedRoomSync)
    ensures
        final(out)@ == old(out)@ + room_batch(r),
{
    let ghost r0 = r;
    let JoinedRoomSync { room_id, mut state, mut timeline } = r;
    let ghost st = state@;
    let ghost tl = timeline@;
    let ghost base = out@;
    assert(st.take(0) =~= Seq::<AnyStateEvent>::empty());
    assert(st.skip(0) =~= st);
    while state.len() > 0
        invariant
            state.len() <= st.len(),
            state@ == st.skip(st.len() - state.len()),
            out@ == base + st.take(st.len() - state.len()).map_values(
                |e: AnyStateEvent| MatrixEvents::Room(AnyRoomEvent::State(state_in_room(e, room_id))),
            ),
        decreases state.len(),
    {
        let ghost j = st.len() - state.len();
        let e = state.remove(0);
        assert(state@ =~= st.skip(j + 1));
        out.push(MatrixEvents::Room(AnyRoomEvent::State(place_state(e, room_id.clone()))));
        assert(st.take(j + 1) =~= st.take(j).push(e));
        assert(out@ =~= base + st.take(j + 1).map_values(
            |e: AnyStateEvent| MatrixEvents::Room(AnyRoomEvent::State(state_in_room(e, room_id))),
        ));
    }
    assert(st.take(st.len() as int) =~= st);
    let ghost base2 = out@;
    assert(tl.take(0) =~= Seq::<AnyRoomEvent>::empty());
    assert(tl.skip(0) =~= tl);
    while timeline.len() > 0
        invariant
            timeline.len() <= tl.len(),
            timeline@ == tl.skip(tl.len() - timeline.len()),
            out@ == base2 + tl.take(tl.len() - timeline.len()).map_values(
                |e: AnyRoomEvent| MatrixEvents::Room(in_room(e, room_id)),
            ),
        decreases timeline.len(),
    {
        let ghost j = tl.len() - timeline.len();
        let e = timeline.remove(0);
        assert(timeline@ =~= tl.skip(j + 1));
        out.push(MatrixEvents::Room(place_event(e, room_id.clone())));
        assert(tl.take(j + 1) =~= tl.take(j).push(e));
        assert(out@ =~= base2 + tl.take(j + 1).map_values(
            |e: AnyRoomEvent| MatrixEvents::Room(in_room(e, room_id)),
        ));
    }
    assert(tl.take(tl.len() as int) =~= tl);
    assert(out@ =~= base + room_batch(r0));
}

/// The events of one sync in the order the pages get them: for each joined
/// room its state events and then its timeline, each placed in the room; then
/// the device-to-device events.
pub fn sync_events(response: SyncResponse) -> (r: Vec<MatrixEvents>)
    ensures
        r@ == rooms_batch(response.rooms@) + response.to_device@.map_values(
            |e: ToDeviceEvent| MatrixEvents::ToDevice(e),
        ),
{
    let SyncResponse { mut rooms, mut to_device } = response;
    let ghost all = rooms@;
    let ghost dev = to_device@;
    let mut out: Vec<MatrixEvents> = Vec::new();
    assert(all.take(0) =~= Seq::<JoinedRoomSync>::empty());
    assert(all.skip(0) =~= all);
    while rooms.len() > 0
        invariant
            rooms.len() <= all.len(),
            rooms@ == all.skip(all.len() - rooms.len()),
            out@ == rooms_batch(all.take(all.len() - rooms.len())),
        decreases rooms.len(),
    {
        let ghost j = all.len() - rooms.len();
        let r = rooms.remove(0);
        assert(rooms@ =~= all.skip(j + 1));
        assert(all.take(j + 1).drop_last() =~= all.take(j));
        assert(all.take(j + 1).last() == r);
        push_room_batch(&mut out, r);
    }
    assert(all.take(all.len() as int) =~= all);
    let ghost base = out@;
    assert(dev.take(0) =~= Seq::<ToDeviceEvent>::empty());
    assert(dev.skip(0) =~= dev);
    while to_device.len() > 0
        invariant
            to_device.len() <= dev.len(),
            to_device@ == dev.skip(dev.len() - to_device.len()),
            out@ == base + dev.take(dev.len() - to_device.len()).map_values(
                |e: ToDeviceEvent| MatrixEvents::ToDevice(e),
            ),
        decreases to_device.len(),
    {
        let ghost j = dev.len() - to_device.len();
        let e = to_device.remove(0);
        assert(to_device@ =~= dev.skip(j + 1));
        out.push(MatrixEvents::ToDevice(e));
        assert(dev.take(j + 1) =~= dev.take(j).push(e));
        assert(out@ =~= base + dev.take(j + 1).map_values(|e: ToDeviceEvent| MatrixEvents::ToDevice(e)));
    }
    assert(dev.take(dev.len() as int) =~= dev);
    out
}

} // verus!
