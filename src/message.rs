//! Room events as the client keeps them, and the per-room message buffer.
use vstd::prelude::*;

verus! {

/// What every room event carries, whatever its kind.
#[derive(Clone, Debug, PartialEq, Eq)]
pub struct EventMeta {
    pub event_id: String,
    pub room_id: String,
    pub sender: String,
    /// Send time, in milliseconds since the Unix epoch.
    pub origin_server_ts: u64,
}

/// Content of an `m.room.message` event.
#[derive(Clone, Debug, PartialEq, Eq)]
pub enum MessageContent {
    /// A text message; `replaces` names the event it edits, if any.
    Text { body: String, replaces: Option<String> },
    /// An image; `url` is its `mxc://` location when unencrypted.
    Image { body: String, url: Option<String> },
    Notice { body: String },
    Other,
}

#[derive(Clone, Debug, PartialEq, Eq)]
pub enum MessageKind {
    RoomMessage(MessageContent),
    RoomRedaction { redacts: String },
    Reaction,
    RoomEncrypted,
    Other,
}

#[derive(Clone, Debug, PartialEq, Eq)]
pub struct AnyMessageEvent {
    pub meta: EventMeta,
    pub kind: MessageKind,
}

#[derive(Clone, Copy, Debug, PartialEq, Eq, Structural)]
pub enum MembershipState {
    Join,
    Leave,
    Invite,
    Ban,
    Knock,
    /// A membership state that the client does not know.
    Other,
}

#[derive(Clone, Debug, PartialEq, Eq)]
pub enum StateKind {
    /// Creation of the room; `predecessor` is the room it upgrades, if any.
    RoomCreate { predecessor: Option<String> },
    RoomCanonicalAlias { alias: Option<String> },
    RoomName { name: Option<String> },
    RoomTopic { topic: String },
    RoomAvatar,
    RoomMember { state_key: String, membership: MembershipState },
    Other,
}

#[derive(Clone, Debug, PartialEq, Eq)]
pub struct AnyStateEvent {
    pub meta: EventMeta,
    pub kind: StateKind,
}

#[derive(Clone, Debug, PartialEq, Eq)]
pub enum AnyRoomEvent {
    Message(AnyMessageEvent),
    State(AnyStateEvent),
    RedactedMessage(EventMeta),
    RedactedState(EventMeta),
}

impl AnyRoomEvent {
    pub open spec fn meta_of(self) -> EventMeta {
        match self {
            AnyRoomEvent::Message(e) => e.meta,
            AnyRoomEvent::State(e) => e.meta,
            AnyRoomEvent::RedactedMessage(m) => m,
            AnyRoomEvent::RedactedState(m) => m,
        }
    }

    /// The event that this one edits or redacts, if it does either.
    pub open spec fn target_of(self) -> Option<Seq<char>> {
        match self {
            AnyRoomEvent::Message(AnyMessageEvent {
                kind: MessageKind::RoomMessage(MessageContent::Text { replaces: Some(r), .. }),
                ..
            }) => Some(r@),
            AnyRoomEvent::Message(AnyMessageEvent {
                kind: MessageKind::RoomRedaction { redacts },
                ..
            }) => Some(redacts@),
            _ => None,
        }
    }

    /// The id of the event that this one edits or redacts, if it does either.
    pub fn target(&self) -> (r: Option<String>)
        ensures
            r matches Some(t) ==> self.target_of() == Some(t@),
            r is None ==> self.target_of() is None,
    {
        match self {
            AnyRoomEvent::Message(AnyMessageEvent {
                kind: MessageKind::RoomMessage(MessageContent::Text { replaces: Some(r), .. }),
                ..
            }) => Some(r.clone()),
            AnyRoomEvent::Message(AnyMessageEvent {
                kind: MessageKind::RoomRedaction { redacts },
                ..
            }) => Some(redacts.clone()),
            _ => None,
        }
    }

    pub fn is_create(&self) -> (r: bool)
        ensures
            r == self.is_room_create(),
    {
        matches!(self, AnyRoomEvent::State(AnyStateEvent { kind: StateKind::RoomCreate { .. }, .. }))
    }

    pub open spec fn is_room_create(self) -> bool {
        self matches AnyRoomEvent::State(AnyStateEvent { kind: StateKind::RoomCreate { .. }, .. })
    }
}

pub open spec fn image_url_of_message(e: AnyMessageEvent) -> Option<Seq<char>> {
    match e.kind {
        MessageKind::RoomMessage(MessageContent::Image { url: Some(u), .. }) => Some(u@),
        _ => None,
    }
}

pub trait AnyMessageEventExt {
    spec fn spec_image_url(&self) -> Option<Seq<char>>;

    /// The `mxc://` url of an image message, if this is one and has it.
    fn image_url(&self) -> (r: Option<String>)
        ensures
            r matches Some(u) ==> self.spec_image_url() == Some(u@),
            r is None ==> self.spec_image_url() is None,
    ;
}

impl AnyMessageEventExt for AnyMessageEvent {
    open spec fn spec_image_url(&self) -> Option<Seq<char>> {
        image_url_of_message(*self)
    }

    fn image_url(&self) -> (r: Option<String>) {
        match &self.kind {
            MessageKind::RoomMessage(MessageContent::Image { url: Some(u), .. }) => Some(u.clone()),
            _ => None,
        }
    }
}

pub trait AnyRoomEventExt {
    spec fn spec_event_id(&self) -> Seq<char>;

    spec fn spec_origin_server_ts(&self) -> u64;

    spec fn spec_image_url(&self) -> Option<Seq<char>>;

    /// Gets the event id of the underlying event.
    fn event_id(&self) -> (r: &String)
        ensures
            r@ == self.spec_event_id(),
    ;

    /// Gets the send time of the underlying event.
    fn origin_server_ts(&self) -> (r: u64)
        ensures
            r == self.spec_origin_server_ts(),
    ;

    /// Gets the mxc url of an image message, if there is one.
    fn image_url(&self) -> (r: Option<String>)
        ensures
            r matches Some(u) ==> self.spec_image_url() == Some(u@),
            r is None ==> self.spec_image_url() is None,
    ;
}

impl AnyRoomEventExt for AnyRoomEvent {
    open spec fn spec_event_id(&self) -> Seq<char> {
        self.meta_of().event_id@
    }

    open spec fn spec_origin_server_ts(&self) -> u64 {
        self.meta_of().origin_server_ts
    }

    open spec fn spec_image_url(&self) -> Option<Seq<char>> {
        match *self {
            AnyRoomEvent::Message(m) => image_url_of_message(m),
            _ => None,
        }
    }

    fn event_id(&self) -> (r: &String) {
        match self {
            AnyRoomEvent::Message(e) => &e.meta.event_id,
            AnyRoomEvent::State(e) => &e.meta.event_id,
            AnyRoomEvent::RedactedMessage(m) => &m.event_id,
            AnyRoomEvent::RedactedState(m) => &m.event_id,
        }
    }

    fn origin_server_ts(&self) -> (r: u64) {
        match self {
            AnyRoomEvent::Message(e) => e.meta.origin_server_ts,
            AnyRoomEvent::State(e) => e.meta.origin_server_ts,
            AnyRoomEvent::RedactedMessage(m) => m.origin_server_ts,
            AnyRoomEvent::RedactedState(m) => m.origin_server_ts,
        }
    }

    fn image_url(&self) -> (r: Option<String>) {
        match self {
            AnyRoomEvent::Message(m) => m.image_url(),
            _ => None,
        }
    }
}


pub open spec fn event_time(e: AnyRoomEvent) -> u64 {
    e.meta_of().origin_server_ts
}

pub open spec fn event_id_of(e: AnyRoomEvent) -> Seq<char> {
    e.meta_of().event_id@
}

/// Every event is sent no later than the events after it.
pub open spec fn sorted_by_time(s: Seq<AnyRoomEvent>) -> bool {
    forall|i: int, j: int| 0 <= i <= j < s.len() ==> event_time(s[i]) <= event_time(s[j])
}

/// The events of `s` whose id is not `id`, in their order.
pub open spec fn without_id(s: Seq<AnyRoomEvent>, id: Seq<char>) -> Seq<AnyRoomEvent> {
    s.filter(|e: AnyRoomEvent| event_id_of(e) != id)
}

/// `e` placed into `s` after every event that was sent no later than it, counted
/// from the back: for a sorted `s` the result is sorted and keeps the order of
/// events sent at the same time.
pub open spec fn insert_by_time(s: Seq<AnyRoomEvent>, e: AnyRoomEvent) -> Seq<AnyRoomEvent>
    decreases s.len(),
{
    if s.len() == 0 {
        seq![e]
    } else if event_time(e) < event_time(s.last()) {
        insert_by_time(s.drop_last(), e).push(s.last())
    } else {
        s.push(e)
    }
}

/// The events of `es` placed into `s` one after the other.
pub open spec fn insert_all_by_time(s: Seq<AnyRoomEvent>, es: Seq<AnyRoomEvent>) -> Seq<
    AnyRoomEvent,
>
    decreases es.len(),
{
    if es.len() == 0 {
        s
    } else {
        insert_by_time(insert_all_by_time(s, es.drop_last()), es.last())
    }
}

/// What is left of `s` once every edit and redaction in `es` has taken out its target.
pub open spec fn without_targets(s: Seq<AnyRoomEvent>, es: Seq<AnyRoomEvent>) -> Seq<AnyRoomEvent>
    decreases es.len(),
{
    if es.len() == 0 {
        s
    } else {
        let prev = without_targets(s, es.drop_last());
        match es.last().target_of() {
            Some(t) => without_id(prev, t),
            None => prev,
        }
    }
}

/// The known ids once each event of `es` has forgotten its target and been recorded.
pub open spec fn ids_after(ids: Set<Seq<char>>, es: Seq<AnyRoomEvent>) -> Set<Seq<char>>
    decreases es.len(),
{
    if es.len() == 0 {
        ids
    } else {
        let prev = ids_after(ids, es.drop_last());
        let e = es.last();
        match e.target_of() {
            Some(t) => prev.remove(t).insert(event_id_of(e)),
            None => prev.insert(event_id_of(e)),
        }
    }
}

/// Send time of the last event, or the epoch when there is none.
pub open spec fn latest_time(s: Seq<AnyRoomEvent>) -> u64 {
    if s.len() == 0 {
        0
    } else {
        event_time(s.last())
    }
}

/// The events of `es` whose id is not in `ids`, in their order.
pub open spec fn unseen_events(ids: Set<Seq<char>>, es: Seq<AnyRoomEvent>) -> Seq<AnyRoomEvent> {
    es.filter(|e: AnyRoomEvent| !ids.contains(event_id_of(e)))
}

proof fn lemma_without_id_push(s: Seq<AnyRoomEvent>, e: AnyRoomEvent, id: Seq<char>)
    ensures
        without_id(s.push(e), id) == if event_id_of(e) != id {
            without_id(s, id).push(e)
        } else {
            without_id(s, id)
        },
{
    reveal(Seq::filter);
    assert(s.push(e).drop_last() =~= s);
}

proof fn lemma_unseen_events_push(ids: Set<Seq<char>>, s: Seq<AnyRoomEvent>, e: AnyRoomEvent)
    ensures
        unseen_events(ids, s.push(e)) == if !ids.contains(event_id_of(e)) {
            unseen_events(ids, s).push(e)
        } else {
            unseen_events(ids, s)
        },
{
    reveal(Seq::filter);
    assert(s.push(e).drop_last() =~= s);
}

pub open spec fn string_views(v: Seq<String>) -> Seq<Seq<char>> {
    v.map_values(|x: String| x@)
}

/// Whether `ids` holds `id`.
fn contains_id(ids: &Vec<String>, id: &String) -> (r: bool)
    ensures
        r == string_views(ids@).contains(id@),
{
    let mut i: usize = 0;
    while i < ids.len()
        invariant
            0 <= i <= ids.len(),
            forall|j: int| 0 <= j < i ==> ids@[j]@ != id@,
        decreases ids.len() - i,
    {
        if ids[i] == *id {
            assert(string_views(ids@)[i as int] == id@);
            return true;
        }
        i += 1;
    }
    assert forall|k: int| 0 <= k < string_views(ids@).len() implies string_views(ids@)[k]
        != id@ by {
        assert(string_views(ids@)[k] == ids@[k]@);
    }
    false
}

/// Records `id` unless it is already there.
fn insert_id(ids: &mut Vec<String>, id: String)
    requires
        string_views(old(ids)@).no_duplicates(),
    ensures
        string_views(final(ids)@).no_duplicates(),
        string_views(final(ids)@).to_set() == string_views(old(ids)@).to_set().insert(id@),
{
    if !contains_id(ids, &id) {
        let ghost before = string_views(ids@);
        let ghost v = id@;
        ids.push(id);
        assert(string_views(ids@) =~= before.push(v));
        assert(string_views(ids@).to_set() =~= before.to_set().insert(v)) by {
            assert forall|x: Seq<char>| #[trigger] before.push(v).contains(x) <==> (before.contains(x) || x == v) by {
                if before.contains(x) {
                    let k = choose|k: int| 0 <= k < before.len() && #[trigger] before[k] == x;
                    assert(before.push(v)[k] == x);
                }
                if x == v {
                    assert(before.push(v)[before.len() as int] == x);
                }
            }
        }
    } else {
        assert(string_views(ids@).to_set() =~= string_views(ids@).to_set().insert(id@));
    }
}

/// Forgets `id`.
fn remove_id(ids: &mut Vec<String>, id: &String)
    requires
        string_views(old(ids)@).no_duplicates(),
    ensures
        string_views(final(ids)@).no_duplicates(),
        string_views(final(ids)@).to_set() == string_views(old(ids)@).to_set().remove(id@),
{
    let ghost orig = string_views(ids@);
    let mut out: Vec<String> = Vec::new();
    let mut i: usize = 0;
    while i < ids.len()
        invariant
            0 <= i <= ids.len(),
            orig == string_views(ids@),
            orig.no_duplicates(),
            string_views(out@).no_duplicates(),
            forall|x: Seq<char>|
                #[trigger] string_views(out@).contains(x) <==> (orig.take(i as int).contains(x)
                    && x != id@),
        decreases ids.len() - i,
    {
        let ghost o = string_views(out@);
        let ghost y = orig[i as int];
        assert(orig.take(i as int + 1) =~= orig.take(i as int).push(y));
        if ids[i] != *id {
            out.push(ids[i].clone());
            assert(string_views(out@) =~= o.push(y));
            assert(!o.contains(y)) by {
                if o.contains(y) {
                    let k = choose|k: int| 0 <= k < i && #[trigger] orig.take(i as int)[k] == y;
                    assert(orig[k] == orig[i as int]);
                }
            }
            assert forall|x: Seq<char>| #[trigger] o.push(y).contains(x) <==> (orig.take(
                i as int + 1,
            ).contains(x) && x != id@) by {
                if o.contains(x) {
                    let k = choose|k: int| 0 <= k < o.len() && #[trigger] o[k] == x;
                    assert(o.push(y)[k] == x);
                }
                if orig.take(i as int).contains(x) {
                    let k = choose|k: int| 0 <= k < i && #[trigger] orig.take(i as int)[k] == x;
                    assert(orig.take(i as int + 1)[k] == x);
                }
                if o.push(y).contains(x) && x != y {
                    let k = choose|k: int| 0 <= k < o.len() + 1 && #[trigger] o.push(y)[k] == x;
                    assert(o[k] == x);
                }
                if orig.take(i as int + 1).contains(x) && x != y {
                    let k = choose|k: int| 0 <= k <= i && #[trigger] orig.take(i as int + 1)[k] == x;
                    assert(orig.take(i as int)[k] == x);
                }
                assert(o.push(y)[o.len() as int] == y);
                assert(orig.take(i as int + 1)[i as int] == y);
            }
        } else {
            assert forall|x: Seq<char>| #[trigger] o.contains(x) <==> (orig.take(i as int + 1).contains(
                x,
            ) && x != id@) by {
                if orig.take(i as int).contains(x) {
                    let k = choose|k: int| 0 <= k < i && #[trigger] orig.take(i as int)[k] == x;
                    assert(orig.take(i as int + 1)[k] == x);
                }
                if orig.take(i as int + 1).contains(x) && x != y {
                    let k = choose|k: int| 0 <= k <= i && #[trigger] orig.take(i as int + 1)[k] == x;
                    assert(orig.take(i as int)[k] == x);
                }
            }
        }
        i += 1;
    }
    assert(orig.take(orig.len() as int) =~= orig);
    assert(string_views(out@).to_set() =~= orig.to_set().remove(id@));
    *ids = out;
}

/// Takes out every event whose id is `id`.
fn drop_id(msgs: &mut Vec<AnyRoomEvent>, id: &String)
    ensures
        final(msgs)@ == without_id(old(msgs)@, id@),
        sorted_by_time(old(msgs)@) ==> sorted_by_time(final(msgs)@),
{
    let ghost orig = msgs@;
    let mut rest: Vec<AnyRoomEvent> = Vec::new();
    std::mem::swap(msgs, &mut rest);
    assert(orig.take(0) =~= Seq::<AnyRoomEvent>::empty());
    assert(orig.skip(0) =~= orig);
    reveal(Seq::filter);
    while rest.len() > 0
        invariant
            rest.len() <= orig.len(),
            rest@ == orig.skip(orig.len() - rest.len()),
            msgs@ == without_id(orig.take(orig.len() - rest.len()), id@),
            sorted_by_time(orig) ==> sorted_by_time(msgs@),
            sorted_by_time(orig) ==> forall|k: int, m: int|
                0 <= k < msgs.len() && 0 <= m < rest.len() ==> event_time(#[trigger] msgs@[k])
                    <= event_time(#[trigger] rest@[m]),
        decreases rest.len(),
    {
        let ghost j = orig.len() - rest.len();
        let ghost r0 = rest@;
        let ghost m0 = msgs@;
        let e = rest.remove(0);
        assert(e == orig[j]);
        assert(rest@ =~= orig.skip(j + 1));
        assert(orig.take(j + 1) =~= orig.take(j).push(e));
        proof {
            lemma_without_id_push(orig.take(j), e, id@);
        }
        let keep = !(*e.event_id() == *id);
        if keep {
            msgs.push(e);
            assert(msgs@ =~= m0.push(e));
        }
        proof {
            if sorted_by_time(orig) {
                assert forall|m: int| 0 <= m < rest.len() implies event_time(e) <= event_time(
                    #[trigger] rest@[m],
                ) by {
                    assert(rest@[m] == orig[j + 1 + m]);
                }
                assert forall|k: int, m: int|
                    0 <= k < msgs.len() && 0 <= m < rest.len() implies event_time(#[trigger] msgs@[k])
                    <= event_time(#[trigger] rest@[m]) by {
                    assert(rest@[m] == r0[m + 1]);
                }
                assert(forall|k: int| 0 <= k < m0.len() ==> event_time(m0[k]) <= event_time(
                    r0[0],
                ));
            }
        }
    }
    assert(orig.take(orig.len() as int) =~= orig);
}

/// Places `e` after every event sent no later than it, counted from the back.
fn insert_event(msgs: &mut Vec<AnyRoomEvent>, e: AnyRoomEvent)
    ensures
        final(msgs)@ == insert_by_time(old(msgs)@, e),
        final(msgs)@.to_multiset() == old(msgs)@.to_multiset().insert(e),
        sorted_by_time(old(msgs)@) ==> sorted_by_time(final(msgs)@),
{
    let ghost orig = msgs@;
    let t = e.origin_server_ts();
    let mut p: usize = msgs.len();
    assert(orig.take(p as int) =~= orig);
    assert(orig.skip(p as int) =~= Seq::<AnyRoomEvent>::empty());
    assert(insert_by_time(orig, e) =~= insert_by_time(orig.take(p as int), e) + orig.skip(
        p as int,
    ));
    loop
        invariant
            p <= msgs.len(),
            msgs@ == orig,
            t == event_time(e),
            insert_by_time(orig, e) == insert_by_time(orig.take(p as int), e) + orig.skip(
                p as int,
            ),
            forall|k: int| p <= k < orig.len() ==> event_time(#[trigger] orig[k]) > t,
        ensures
            p <= msgs.len(),
            msgs@ == orig,
            insert_by_time(orig, e) == insert_by_time(orig.take(p as int), e) + orig.skip(
                p as int,
            ),
            forall|k: int| p <= k < orig.len() ==> event_time(#[trigger] orig[k]) > t,
            p == 0 || event_time(orig[p - 1]) <= t,
        decreases p,
    {
        if p == 0 {
            break;
        }
        if msgs[p - 1].origin_server_ts() <= t {
            break;
        }
        let ghost q = p - 1;
        assert(orig.take(p as int).drop_last() =~= orig.take(q));
        assert(orig.take(p as int).last() == orig[q]);
        assert(orig.skip(q) =~= seq![orig[q]] + orig.skip(p as int));
        assert(insert_by_time(orig.take(q), e).push(orig[q]) + orig.skip(p as int)
            =~= insert_by_time(orig.take(q), e) + orig.skip(q));
        p -= 1;
    }
    proof {
        if p == 0 {
            assert(orig.take(0) =~= Seq::<AnyRoomEvent>::empty());
            assert(insert_by_time(orig.take(0), e) == seq![e]);
        } else {
            assert(orig.take(p as int).last() == orig[p - 1]);
            assert(insert_by_time(orig.take(p as int), e) == orig.take(p as int).push(e));
        }
    }
    msgs.insert(p, e);
    proof {
        vstd::seq_lib::to_multiset_insert(orig, p as int, e);
    }
    assert(msgs@ =~= insert_by_time(orig.take(p as int), e) + orig.skip(p as int));
    proof {
        if sorted_by_time(orig) {
            let r = msgs@;
            assert forall|k: int| 0 <= k < r.len() implies #[trigger] r[k] == if k < p {
                orig[k]
            } else if k == p {
                e
            } else {
                orig[k - 1]
            } by {}
            assert forall|i: int, j: int| 0 <= i <= j < r.len() implies event_time(r[i])
                <= event_time(r[j]) by {
                if i < p && p > 0 {
                    assert(event_time(orig[i]) <= event_time(orig[p - 1]));
                }
            }
        }
    }
}

/// The events of a room that the client holds, oldest first.
#[derive(Clone, Debug)]
pub struct MessageBuffer {
    /// The messages we have stored.
    pub messages: Vec<AnyRoomEvent>,
    /// The ids of the events we have seen, each once.
    pub known_ids: Vec<String>,
    /// Token for the start of the messages we have.
    pub start: Option<String>,
    /// Token for the end of the messages we have.
    pub end: Option<String>,
    /// Send time of the most recent message, in milliseconds since the epoch.
    pub updated: u64,
    /// Whether we are waiting for older messages to arrive.
    pub loading: bool,
}

impl MessageBuffer {
    pub open spec fn id_set(self) -> Set<Seq<char>> {
        string_views(self.known_ids@).to_set()
    }

    /// Messages in send order, each known id held once.
    pub open spec fn ordered(self) -> bool {
        &&& sorted_by_time(self.messages@)
        &&& string_views(self.known_ids@).no_duplicates()
    }

    pub open spec fn wf(self) -> bool {
        &&& self.ordered()
        &&& self.updated == latest_time(self.messages@)
    }

    /// The messages once `event` has taken out what it edits or redacts.
    pub open spec fn cleaned_for(self, event: AnyRoomEvent) -> Seq<AnyRoomEvent> {
        match event.target_of() {
            Some(t) => without_id(self.messages@, t),
            None => self.messages@,
        }
    }

    /// `new` is this buffer once `event` has been pushed onto it.
    /// An event whose id is known leaves the buffer as it was.
    pub open spec fn after_push(self, new: MessageBuffer, event: AnyRoomEvent) -> bool {
        if self.id_set().contains(event_id_of(event)) {
            new == self
        } else {
            self.after_new_push(new, event)
        }
    }

    /// `new` is this buffer once `event`, whose id it did not know, has been added.
    pub open spec fn after_new_push(self, new: MessageBuffer, event: AnyRoomEvent) -> bool {
        &&& new.wf()
        &&& new.messages@ == insert_by_time(self.cleaned_for(event), event)
        &&& new.messages@.to_multiset() == self.cleaned_for(event).to_multiset().insert(event)
        &&& new.id_set() == match event.target_of() {
            Some(t) => self.id_set().insert(event_id_of(event)).remove(t),
            None => self.id_set().insert(event_id_of(event)),
        }
        &&& new.start == self.start
        &&& new.end == self.end
        &&& new.loading == self.loading
    }

    /// Sets the time of the most recent activity from the last message.
    fn update_time(&mut self)
        ensures
            final(self).updated == latest_time(final(self).messages@),
            final(self).messages == old(self).messages,
            final(self).known_ids == old(self).known_ids,
            final(self).start == old(self).start,
            final(self).end == old(self).end,
            final(self).loading == old(self).loading,
    {
        let n = self.messages.len();
        self.updated = if n == 0 {
            0
        } else {
            self.messages[n - 1].origin_server_ts()
        };
    }

    /// Forgets the event `id` and takes it out of the messages.
    fn remove(&mut self, id: &String)
        requires
            old(self).ordered(),
        ensures
            final(self).ordered(),
            final(self).messages@ == without_id(old(self).messages@, id@),
            final(self).id_set() == old(self).id_set().remove(id@),
            final(self).updated == old(self).updated,
            final(self).start == old(self).start,
            final(self).end == old(self).end,
            final(self).loading == old(self).loading,
    {
        drop_id(&mut self.messages, id);
        remove_id(&mut self.known_ids, id);
    }

    /// Adds a message to the buffer, unless its id is already known. An edit or
    /// a redaction first takes out the event it targets; the event then takes its
    /// place by send time.
    pub fn push(&mut self, event: AnyRoomEvent)
        requires
            old(self).wf(),
        ensures
            final(self).wf(),
            old(self).after_push(*final(self), event),
    {
        if contains_id(&self.known_ids, event.event_id()) {
            return;
        }
        insert_id(&mut self.known_ids, event.event_id().clone());
        match event.target() {
            Some(t) => self.remove(&t),
            None => {},
        }
        insert_event(&mut self.messages, event);
        self.update_time();
    }

    /// Adds several messages to the buffer. Events whose id was already known are
    /// left out; each edit or redaction among the others takes out its target from
    /// the messages held before the call; all then take their place by send time.
    pub fn append(&mut self, events: Vec<AnyRoomEvent>)
        requires
            old(self).wf(),
        ensures
            final(self).wf(),
            final(self).messages@ == insert_all_by_time(
                without_targets(old(self).messages@, unseen_events(old(self).id_set(), events@)),
                unseen_events(old(self).id_set(), events@),
            ),
            final(self).messages@.to_multiset() == without_targets(
                old(self).messages@,
                unseen_events(old(self).id_set(), events@),
            ).to_multiset().add(unseen_events(old(self).id_set(), events@).to_multiset()),
            final(self).id_set() == ids_after(
                old(self).id_set(),
                unseen_events(old(self).id_set(), events@),
            ),
            final(self).start == old(self).start,
            final(self).end == old(self).end,
            final(self).loading == old(self).loading,
    {
        let ghost ids0 = self.id_set();
        let ghost m0 = self.messages@;
        let ghost orig = events@;
        let mut events = events;
        let mut kept: Vec<AnyRoomEvent> = Vec::new();
        assert(orig.take(0) =~= Seq::<AnyRoomEvent>::empty());
        assert(orig.skip(0) =~= orig);
        reveal(Seq::filter);
        while events.len() > 0
            invariant
                events.len() <= orig.len(),
                events@ == orig.skip(orig.len() - events.len()),
                kept@ == unseen_events(ids0, orig.take(orig.len() - events.len())),
                self.id_set() == ids0,
                self.messages@ == m0,
                self.wf(),
                self.start == old(self).start,
                self.end == old(self).end,
                self.loading == old(self).loading,
            decreases events.len(),
        {
            let ghost j = orig.len() - events.len();
            let ghost k0 = kept@;
            let e = events.remove(0);
            assert(e == orig[j]);
            assert(events@ =~= orig.skip(j + 1));
            assert(orig.take(j + 1) =~= orig.take(j).push(e));
            proof {
                lemma_unseen_events_push(ids0, orig.take(j), e);
            }
            let seen = contains_id(&self.known_ids, e.event_id());
            if !seen {
                kept.push(e);
                assert(kept@ =~= k0.push(e));
            }
        }
        assert(orig.take(orig.len() as int) =~= orig);
        let ghost all = kept@;
        let mut i: usize = 0;
        while i < kept.len()
            invariant
                0 <= i <= kept.len(),
                kept@ == all,
                self.ordered(),
                self.messages@ == without_targets(m0, all.take(i as int)),
                self.id_set() == ids_after(ids0, all.take(i as int)),
                self.start == old(self).start,
                self.end == old(self).end,
                self.loading == old(self).loading,
            decreases kept.len() - i,
        {
            assert(all.take(i as int + 1).drop_last() =~= all.take(i as int));
            assert(all.take(i as int + 1).last() == all[i as int]);
            match kept[i].target() {
                Some(t) => self.remove(&t),
                None => {},
            }
            insert_id(&mut self.known_ids, kept[i].event_id().clone());
            i += 1;
        }
        assert(all.take(all.len() as int) =~= all);
        let ghost cleaned = self.messages@;
        let mut n: usize = 0;
        assert(all.take(0) =~= Seq::<AnyRoomEvent>::empty());
        assert(all.skip(0) =~= all);
        proof {
            vstd::seq_lib::to_multiset_len(all.take(0));
            assert(cleaned.to_multiset().add(all.take(0).to_multiset()) =~= cleaned.to_multiset());
        }
        while kept.len() > 0
            invariant
                kept.len() <= all.len(),
                all.len() <= usize::MAX,
                n == all.len() - kept.len(),
                kept@ == all.skip(n as int),
                self.ordered(),
                self.messages@ == insert_all_by_time(cleaned, all.take(n as int)),
                self.messages@.to_multiset() == cleaned.to_multiset().add(
                    all.take(n as int).to_multiset(),
                ),
                self.id_set() == ids_after(ids0, all),
                self.start == old(self).start,
                self.end == old(self).end,
                self.loading == old(self).loading,
            decreases kept.len(),
        {
            let e = kept.remove(0);
            assert(e == all[n as int]);
            assert(kept@ =~= all.skip(n + 1));
            assert(all.take(n + 1).drop_last() =~= all.take(n as int));
            assert(all.take(n + 1).last() == e);
            let ghost before = self.messages@;
            insert_event(&mut self.messages, e);
            proof {
                assert(all.take(n + 1) =~= all.take(n as int).push(e));
                vstd::seq_lib::to_multiset_build(all.take(n as int), e);
                assert(self.messages@.to_multiset() =~= cleaned.to_multiset().add(
                    all.take(n + 1).to_multiset(),
                ));
            }
            n += 1;
        }
        assert(all.take(all.len() as int) =~= all);
        self.update_time();
    }

    /// Whether the buffer holds the event that created the room.
    pub fn has_beginning(&self) -> (r: bool)
        ensures
            r == exists|i: int| 0 <= i < self.messages@.len() && #[trigger] self.messages@[i].is_room_create(),
    {
        let mut i: usize = 0;
        while i < self.messages.len()
            invariant
                0 <= i <= self.messages.len(),
                forall|j: int| 0 <= j < i ==> !(#[trigger] self.messages@[j]).is_room_create(),
            decreases self.messages.len() - i,
        {
            if self.messages[i].is_create() {
                return true;
            }
            i += 1;
        }
        false
    }

    /// An empty buffer.
    pub fn new() -> (r: MessageBuffer)
        ensures
            r.wf(),
            r.messages@.len() == 0,
            r.id_set() == Set::<Seq<char>>::empty(),
            r.start is None,
            r.end is None,
            r.updated == 0,
            !r.loading,
    {
        let r = MessageBuffer {
            messages: Vec::new(),
            known_ids: Vec::new(),
            start: None,
            end: None,
            updated: 0,
            loading: false,
        };
        assert(string_views(r.known_ids@) =~= Seq::<Seq<char>>::empty());
        assert(r.id_set() =~= Set::<Seq<char>>::empty());
        r
    }
}

impl Default for MessageBuffer {
    fn default() -> (r: MessageBuffer)
        ensures
            r.wf(),
            r.messages@.len() == 0,
            r.id_set() == Set::<Seq<char>>::empty(),
            r.start is None,
            r.end is None,
            r.updated == 0,
            !r.loading,
    {
        MessageBuffer::new()
    }
}

} // verus!
