//! Rooms as the client lists them.
use vstd::prelude::*;

use crate::message::{AnyMessageEvent, MessageBuffer};

verus! {

/// What the client holds of one joined room.
#[derive(Clone, Debug)]
pub struct RoomEntry {
    /// Cached calculated name.
    pub name: String,
    /// Room topic.
    pub topic: String,
    /// Canonical alias.
    pub alias: Option<String>,
    /// Defined display name.
    pub display_name: Option<String>,
    /// mxc url of the room's avatar.
    pub avatar: Option<String>,
    /// Person we are in a direct chat with.
    pub direct: Option<String>,
    /// Cache of events.
    pub messages: MessageBuffer,
    /// Room messages, in the order they arrived.
    pub message_list: Vec<AnyMessageEvent>,
}

impl RoomEntry {
    pub open spec fn wf(self) -> bool {
        self.messages.wf()
    }

    /// An entry that holds nothing yet.
    pub open spec fn is_blank(self) -> bool {
        &&& self.name@.len() == 0
        &&& self.topic@.len() == 0
        &&& self.alias is None
        &&& self.display_name is None
        &&& self.avatar is None
        &&& self.direct is None
        &&& self.messages.messages@.len() == 0
        &&& self.messages.id_set() == Set::<Seq<char>>::empty()
        &&& self.messages.start is None
        &&& self.messages.end is None
        &&& self.messages.updated == 0
        &&& !self.messages.loading
        &&& self.message_list@.len() == 0
    }

    pub fn new() -> (r: RoomEntry)
        ensures
            r.wf(),
            r.is_blank(),
    {
        RoomEntry {
            name: String::new(),
            topic: String::new(),
            alias: None,
            display_name: None,
            avatar: None,
            direct: None,
            messages: MessageBuffer::new(),
            message_list: Vec::new(),
        }
    }

    /// An entry from what the server reports of a joined room; a missing name or
    /// topic becomes empty.
    pub fn from_sdk(
        direct: Option<String>,
        name: Option<String>,
        topic: Option<String>,
        alias: Option<String>,
        avatar: Option<String>,
    ) -> (r: RoomEntry)
        ensures
            r.wf(),
            r.direct == direct,
            r.name@ == (match name {
                Some(n) => n@,
                None => Seq::<char>::empty(),
            }),
            r.topic@ == (match topic {
                Some(t) => t@,
                None => Seq::<char>::empty(),
            }),
            r.alias == alias,
            r.avatar == avatar,
            r.display_name is None,
            r.messages.messages@.len() == 0,
            r.messages.id_set() == Set::<Seq<char>>::empty(),
            r.messages.start is None,
            r.messages.end is None,
            !r.messages.loading,
            r.message_list@.len() == 0,
    {
        let mut r = RoomEntry::new();
        r.direct = direct;
        r.name = match name {
            Some(n) => n,
            None => String::new(),
        };
        r.topic = match topic {
            Some(t) => t,
            None => String::new(),
        };
        r.alias = alias;
        r.avatar = avatar;
        r
    }
}

impl Default for RoomEntry {
    fn default() -> (r: RoomEntry)
        ensures
            r.wf(),
            r.is_blank(),
    {
        RoomEntry::new()
    }
}

/// `a` comes before `b` when their characters are compared one by one, a
/// proper prefix coming first: the order of room ids as text.
pub open spec fn key_lt(a: Seq<char>, b: Seq<char>) -> bool
    decreases a.len(),
{
    if a.len() == 0 {
        b.len() > 0
    } else if b.len() == 0 {
        false
    } else if a[0] != b[0] {
        (a[0] as int) < (b[0] as int)
    } else {
        key_lt(a.drop_first(), b.drop_first())
    }
}

/// Every id comes before the ids after it.
pub open spec fn keys_ascending(k: Seq<Seq<char>>) -> bool {
    forall|i: int, j: int| 0 <= i < j < k.len() ==> #[trigger] key_lt(k[i], k[j])
}

pub proof fn lemma_key_lt_irreflexive(a: Seq<char>)
    ensures
        !key_lt(a, a),
    decreases a.len(),
{
    if a.len() > 0 {
        lemma_key_lt_irreflexive(a.drop_first());
    }
}

pub proof fn lemma_key_lt_total(a: Seq<char>, b: Seq<char>)
    requires
        a != b,
    ensures
        key_lt(a, b) || key_lt(b, a),
    decreases a.len(),
{
    if a.len() == 0 {
        if b.len() == 0 {
            assert(a =~= b);
        }
    } else if b.len() == 0 {
    } else if a[0] != b[0] {
        assert((a[0] as int) != (b[0] as int));
    } else {
        if a.drop_first() == b.drop_first() {
            assert(a =~= seq![a[0]] + a.drop_first());
            assert(b =~= seq![b[0]] + b.drop_first());
        }
        lemma_key_lt_total(a.drop_first(), b.drop_first());
    }
}

pub proof fn lemma_key_lt_transitive(a: Seq<char>, b: Seq<char>, c: Seq<char>)
    requires
        key_lt(a, b),
        key_lt(b, c),
    ensures
        key_lt(a, c),
    decreases a.len(),
{
    if a.len() > 0 && a[0] == b[0] && b[0] == c[0] {
        lemma_key_lt_transitive(a.drop_first(), b.drop_first(), c.drop_first());
    }
}

/// Whether `a` comes before `b`.
pub fn key_less(a: &String, b: &String) -> (r: bool)
    ensures
        r == key_lt(a@, b@),
{
    let n = a.unicode_len();
    let m = b.unicode_len();
    let mut i: usize = 0;
    assert(a@.skip(0) =~= a@);
    assert(b@.skip(0) =~= b@);
    while i < n && i < m
        invariant
            i <= n,
            i <= m,
            n == a@.len(),
            m == b@.len(),
            key_lt(a@, b@) == key_lt(a@.skip(i as int), b@.skip(i as int)),
        decreases n - i,
    {
        let x = a.as_str().get_char(i);
        let y = b.as_str().get_char(i);
        assert(a@.skip(i as int)[0] == x);
        assert(b@.skip(i as int)[0] == y);
        if x != y {
            return (x as u32) < (y as u32);
        }
        assert(a@.skip(i as int).drop_first() =~= a@.skip(i + 1));
        assert(b@.skip(i as int).drop_first() =~= b@.skip(i + 1));
        i += 1;
    }
    i == n && i < m
}

/// Rooms by id. Each id is held once, and entries are kept in the order of
/// their ids.
#[derive(Clone, Debug)]
pub struct RoomMap {
    pub entries: Vec<(String, RoomEntry)>,
}

impl View for RoomMap {
    type V = Map<Seq<char>, RoomEntry>;

    open spec fn view(&self) -> Map<Seq<char>, RoomEntry> {
        Map::new(|k: Seq<char>| self.keys().contains(k), |k: Seq<char>| self.entries@[self.key_index(k)].1)
    }
}

impl RoomMap {
    pub open spec fn keys(self) -> Seq<Seq<char>> {
        self.entries@.map_values(|p: (String, RoomEntry)| p.0@)
    }

    /// The position of the room `k`.
    pub open spec fn key_index(self, k: Seq<char>) -> int {
        choose|i: int| 0 <= i < self.keys().len() && self.keys()[i] == k
    }

    pub open spec fn wf(self) -> bool {
        &&& self.keys().no_duplicates()
        &&& keys_ascending(self.keys())
        &&& forall|i: int| 0 <= i < self.entries@.len() ==> (#[trigger] self.entries@[i]).1.wf()
    }

    pub proof fn lemma_key_index(self, i: int)
        requires
            self.keys().no_duplicates(),
            0 <= i < self.entries@.len(),
        ensures
            self.key_index(self.keys()[i]) == i,
            self@.contains_key(self.keys()[i]),
            self@[self.keys()[i]] == self.entries@[i].1,
    {
        let k = self.keys()[i];
        assert(self.keys().contains(k));
    }

    pub proof fn lemma_wf_values(self, k: Seq<char>)
        requires
            self.wf(),
            self@.contains_key(k),
        ensures
            self@[k].wf(),
            0 <= self.key_index(k) < self.entries@.len(),
            self.keys()[self.key_index(k)] == k,
    {
        let i = self.key_index(k);
        assert(self.entries@[i].1.wf());
    }

    pub fn new() -> (r: RoomMap)
        ensures
            r.wf(),
            r@ == Map::<Seq<char>, RoomEntry>::empty(),
    {
        let r = RoomMap { entries: Vec::new() };
        assert(r@ =~= Map::<Seq<char>, RoomEntry>::empty());
        r
    }

    /// The position of the room `id`, if it is held.
    pub fn find(&self, id: &String) -> (r: Option<usize>)
        requires
            self.wf(),
        ensures
            r matches Some(i) ==> i < self.entries@.len() && self.keys()[i as int] == id@
                && self.key_index(id@) == i && self@.contains_key(id@),
            r is None ==> !self@.contains_key(id@),
    {
        let mut i: usize = 0;
        while i < self.entries.len()
            invariant
                0 <= i <= self.entries.len(),
                self.wf(),
                forall|j: int| 0 <= j < i ==> self.keys()[j] != id@,
            decreases self.entries.len() - i,
        {
            if self.entries[i].0 == *id {
                proof {
                    self.lemma_key_index(i as int);
                }
                return Some(i);
            }
            i += 1;
        }
        None
    }

    /// The room `id`, if it is held.
    pub fn get(&self, id: &String) -> (r: Option<&RoomEntry>)
        requires
            self.wf(),
        ensures
            r matches Some(e) ==> self@.contains_key(id@) && *e == self@[id@],
            r is None ==> !self@.contains_key(id@),
    {
        match self.find(id) {
            Some(i) => Some(&self.entries[i].1),
            None => None,
        }
    }

    /// Puts `entry` at position `i`, keeping its id, and hands back what was there.
    pub fn replace_at(&mut self, i: usize, entry: RoomEntry) -> (prev: RoomEntry)
        requires
            old(self).wf(),
            i < old(self).entries@.len(),
            entry.wf(),
        ensures
            final(self).wf(),
            final(self).keys() == old(self).keys(),
            final(self)@ == old(self)@.insert(old(self).keys()[i as int], entry),
            prev == old(self)@[old(self).keys()[i as int]],
    {
        proof {
            old(self).lemma_key_index(i as int);
        }
        let ghost before = self.entries@;
        let (k, prev) = self.entries.remove(i);
        self.entries.insert(i, (k, entry));
        assert(self.entries@ =~= before.update(i as int, (k, entry)));
        assert(self.keys() =~= old(self).keys());
        assert(self.keys().no_duplicates());
        proof {
            assert forall|j: int| 0 <= j < self.entries@.len() implies (
            #[trigger] self.entries@[j]).1.wf() by {
                if j != i {
                    assert(self.entries@[j] == before[j]);
                }
            }
            self.lemma_key_index(i as int);
            assert(self@ =~= old(self)@.insert(old(self).keys()[i as int], entry));
        }
        prev
    }

    /// The position of the room `id`, added blank if it was not held.
    pub fn entry_index(&mut self, id: &String) -> (i: usize)
        requires
            old(self).wf(),
        ensures
            final(self).wf(),
            i < final(self).entries@.len(),
            final(self).keys()[i as int] == id@,
            final(self).key_index(id@) == i,
            final(self)@.contains_key(id@),
            old(self)@.contains_key(id@) ==> *final(self) == *old(self),
            !old(self)@.contains_key(id@) ==> final(self)@ == old(self)@.insert(
                id@,
                final(self)@[id@],
            ) && final(self)@[id@].is_blank(),
    {
        match self.find(id) {
            Some(i) => i,
            None => {
                let ghost before = *self;
                let ghost bk = before.keys();
                assert(bk.len() == self.entries@.len());
                assert(forall|j: int| 0 <= j < bk.len() ==> bk[j] == #[trigger] self.entries@[j].0@);
                let mut p: usize = 0;
                loop
                    invariant
                        p <= self.entries.len(),
                        *self == before,
                        bk.len() == self.entries@.len(),
                        forall|j: int| 0 <= j < bk.len() ==> bk[j] == #[trigger] self.entries@[j].0@,
                        forall|j: int| 0 <= j < p ==> key_lt(#[trigger] bk[j], id@),
                    ensures
                        p <= self.entries.len(),
                        *self == before,
                        forall|j: int| 0 <= j < p ==> key_lt(#[trigger] bk[j], id@),
                        p == self.entries.len() || !key_lt(bk[p as int], id@),
                    decreases self.entries.len() - p,
                {
                    if p == self.entries.len() {
                        break;
                    }
                    if !key_less(&self.entries[p].0, id) {
                        break;
                    }
                    p += 1;
                }
                proof {
                    assert forall|j: int| p <= j < bk.len() implies key_lt(id@, #[trigger] bk[j]) by {
                        assert(bk[p as int] != id@) by {
                            assert(!bk.contains(id@));
                            if bk[p as int] == id@ {
                                assert(bk.contains(id@));
                            }
                        }
                        lemma_key_lt_total(bk[p as int], id@);
                        if j > p {
                            assert(key_lt(bk[p as int], bk[j]));
                            lemma_key_lt_transitive(id@, bk[p as int], bk[j]);
                        }
                    }
                }
                let i = p;
                self.entries.insert(i, (id.clone(), RoomEntry::new()));
                assert(self.keys() =~= bk.insert(i as int, id@));
                proof {
                    let k = self.keys();
                    assert forall|a: int, b: int| 0 <= a < b < k.len() implies #[trigger] key_lt(k[a], k[b]) by {
                        let a2 = if a < i { a } else { a - 1 };
                        let b2 = if b < i { b } else { b - 1 };
                        if a != i && b != i {
                            assert(k[a] == bk[a2]);
                            assert(k[b] == bk[b2]);
                        } else if a == i {
                            assert(k[b] == bk[b2]);
                        } else {
                            assert(k[a] == bk[a2]);
                        }
                    }
                    assert(k.no_duplicates()) by {
                        assert forall|a: int, b: int| 0 <= a < b < k.len() implies k[a] != k[b] by {
                            assert(key_lt(k[a], k[b]));
                            if k[a] == k[b] {
                                lemma_key_lt_irreflexive(k[a]);
                            }
                        }
                    }
                    assert forall|j: int| 0 <= j < self.entries@.len() implies (
                    #[trigger] self.entries@[j]).1.wf() by {
                        if j < i {
                            assert(self.entries@[j] == before.entries@[j]);
                        } else if j > i {
                            assert(self.entries@[j] == before.entries@[j - 1]);
                        }
                    }
                    self.lemma_key_index(i as int);
                    assert forall|kk: Seq<char>| before@.contains_key(kk) implies self@.contains_key(kk)
                        && self@[kk] == before@[kk] by {
                        before.lemma_wf_values(kk);
                        let j = before.key_index(kk);
                        let j2 = if j < i { j } else { j + 1 };
                        assert(k[j2] == kk);
                        assert(self.entries@[j2] == before.entries@[j]);
                        self.lemma_key_index(j2);
                    }
                    assert forall|kk: Seq<char>| #[trigger] self@.contains_key(kk) && kk != id@ implies before@.contains_key(kk) by {
                        let j = self.key_index(kk);
                        let j2 = if j < i { j } else { j - 1 };
                        assert(bk[j2] == kk);
                        assert(bk.contains(kk));
                    }
                    assert(self@.contains_key(id@));
                    assert forall|kk: Seq<char>| #[trigger] self@.dom().contains(kk) <==> before@.dom().insert(id@).contains(kk) by {
                        if kk != id@ && before@.contains_key(kk) {
                            before.lemma_wf_values(kk);
                            let j = before.key_index(kk);
                            let j2 = if j < i { j } else { j + 1 };
                            assert(k[j2] == kk);
                            self.lemma_key_index(j2);
                        }
                        if kk != id@ && self@.contains_key(kk) {
                            assert(before@.contains_key(kk));
                        }
                    }
                    assert(self@.dom() =~= before@.dom().insert(id@));
                    assert(self@ =~= before@.insert(id@, self@[id@]));
                }
                i
            },
        }
    }

    /// Holds `entry` as the room `id`, in place of what was there.
    pub fn insert(&mut self, id: String, entry: RoomEntry)
        requires
            old(self).wf(),
            entry.wf(),
        ensures
            final(self).wf(),
            final(self)@ == old(self)@.insert(id@, entry),
    {
        let i = self.entry_index(&id);
        let _ = self.replace_at(i, entry);
    }

    /// Drops the room `id`.
    pub fn remove(&mut self, id: &String)
        requires
            old(self).wf(),
        ensures
            final(self).wf(),
            final(self)@ == old(self)@.remove(id@),
    {
        match self.find(id) {
            None => {
                assert(self@ =~= self@.remove(id@));
            },
            Some(i) => {
                let ghost before = *self;
                let _ = self.entries.remove(i);
                assert(self.keys() =~= before.keys().remove(i as int));
                proof {
                    assert forall|a: int, b: int| 0 <= a < b < self.keys().len() implies #[trigger] key_lt(self.keys()[a], self.keys()[b]) by {
                        let a2 = if a < i { a } else { a + 1 };
                        let b2 = if b < i { b } else { b + 1 };
                        assert(self.keys()[a] == before.keys()[a2]);
                        assert(self.keys()[b] == before.keys()[b2]);
                    }
                    assert(self.keys().no_duplicates()) by {
                        assert forall|a: int, b: int|
                            0 <= a < b < self.keys().len() implies self.keys()[a] != self.keys()[b] by {
                            let a2 = if a < i { a } else { a + 1 };
                            let b2 = if b < i { b } else { b + 1 };
                            assert(self.keys()[a] == before.keys()[a2]);
                            assert(self.keys()[b] == before.keys()[b2]);
                        }
                    }
                    assert forall|j: int| 0 <= j < self.entries@.len() implies (
                    #[trigger] self.entries@[j]).1.wf() by {
                        let j2 = if j < i { j } else { j + 1 };
                        assert(self.entries@[j] == before.entries@[j2]);
                    }
                    assert forall|k: Seq<char>| #[trigger] self@.contains_key(k) <==> before@.remove(id@).contains_key(k) by {
                        if self@.contains_key(k) {
                            let j = self.key_index(k);
                            let j2 = if j < i { j } else { j + 1 };
                            assert(before.keys()[j2] == k);
                            assert(before.keys().contains(k));
                        }
                        if before@.remove(id@).contains_key(k) {
                            before.lemma_wf_values(k);
                            let j2 = before.key_index(k);
                            let j = if j2 < i { j2 } else { j2 - 1 };
                            assert(self.keys()[j] == k);
                            assert(self.keys().contains(k));
                        }
                    }
                    assert forall|k: Seq<char>| #[trigger] self@.contains_key(k) implies self@[k] == before@[k] by {
                        let j = self.key_index(k);
                        let j2 = if j < i { j } else { j + 1 };
                        assert(before.keys()[j2] == k);
                        before.lemma_key_index(j2);
                    }
                    assert(self@ =~= before@.remove(id@));
                }
            },
        }
    }
}

/// The room at position `i` stays listed unless its tombstone points to a room
/// that is itself listed.
pub open spec fn is_shown(rooms: RoomMap, replacements: Seq<Option<String>>, i: int) -> bool {
    !(replacements[i] matches Some(t) && rooms@.contains_key(t@))
}

/// Positions below `n` of the listed rooms that are direct chats (`direct`) or
/// group rooms (`!direct`), in order.
pub open spec fn shown_positions(
    rooms: RoomMap,
    replacements: Seq<Option<String>>,
    n: int,
    direct: bool,
) -> Seq<usize>
    decreases n,
{
    if n <= 0 {
        Seq::empty()
    } else {
        let prev = shown_positions(rooms, replacements, n - 1, direct);
        if is_shown(rooms, replacements, n - 1) && (rooms.entries@[n - 1].1.direct is Some)
            == direct {
            prev.push((n - 1) as usize)
        } else {
            prev
        }
    }
}

/// Splits the rooms into direct chats and group rooms, as positions in
/// `rooms.entries` in the order of the rooms' ids, leaving out each room whose tombstone points to a room we
/// hold. `replacements[i]` is the room that the tombstone of the room at
/// position `i` points to, if it has one.
pub fn partition_rooms(rooms: &RoomMap, replacements: &Vec<Option<String>>) -> (r: (
    Vec<usize>,
    Vec<usize>,
))
    requires
        rooms.wf(),
        replacements@.len() == rooms.entries@.len(),
    ensures
        r.0@ == shown_positions(*rooms, replacements@, rooms.entries@.len() as int, true),
        r.1@ == shown_positions(*rooms, replacements@, rooms.entries@.len() as int, false),
        forall|a: int, b: int| 0 <= a < b < r.0@.len() ==> r.0@[a] < r.0@[b],
        forall|a: int, b: int| 0 <= a < b < r.1@.len() ==> r.1@[a] < r.1@[b],
        forall|a: int, b: int|
            0 <= a < b < r.0@.len() ==> key_lt(rooms.keys()[r.0@[a] as int], rooms.keys()[r.0@[b] as int]),
        forall|a: int, b: int|
            0 <= a < b < r.1@.len() ==> key_lt(rooms.keys()[r.1@[a] as int], rooms.keys()[r.1@[b] as int]),
        forall|p: usize|
            r.0@.contains(p) <==> (p < rooms.entries@.len() && is_shown(*rooms, replacements@, p as int)
                && rooms.entries@[p as int].1.direct is Some),
        forall|p: usize|
            r.1@.contains(p) <==> (p < rooms.entries@.len() && is_shown(*rooms, replacements@, p as int)
                && rooms.entries@[p as int].1.direct is None),
{
    let mut dms: Vec<usize> = Vec::new();
    let mut groups: Vec<usize> = Vec::new();
    let mut i: usize = 0;
    while i < rooms.entries.len()
        invariant
            0 <= i <= rooms.entries.len(),
            rooms.wf(),
            replacements@.len() == rooms.entries@.len(),
            dms@ == shown_positions(*rooms, replacements@, i as int, true),
            groups@ == shown_positions(*rooms, replacements@, i as int, false),
            forall|k: int| 0 <= k < dms@.len() ==> dms@[k] < i,
            forall|k: int| 0 <= k < groups@.len() ==> groups@[k] < i,
            forall|a: int, b: int| 0 <= a < b < dms@.len() ==> dms@[a] < dms@[b],
            forall|a: int, b: int| 0 <= a < b < groups@.len() ==> groups@[a] < groups@[b],
            forall|p: usize|
                dms@.contains(p) <==> (p < i && is_shown(*rooms, replacements@, p as int)
                    && rooms.entries@[p as int].1.direct is Some),
            forall|p: usize|
                groups@.contains(p) <==> (p < i && is_shown(*rooms, replacements@, p as int)
                    && rooms.entries@[p as int].1.direct is None),
        decreases rooms.entries.len() - i,
    {
        let ghost d0 = dms@;
        let ghost g0 = groups@;
        let hidden = match &replacements[i] {
            Some(t) => rooms.find(t).is_some(),
            None => false,
        };
        if !hidden {
            if rooms.entries[i].1.direct.is_some() {
                dms.push(i);
            } else {
                groups.push(i);
            }
        }
        proof {
            assert forall|p: usize| #[trigger] dms@.contains(p) <==> (p < i + 1 && is_shown(*rooms, replacements@, p as int)
                && rooms.entries@[p as int].1.direct is Some) by {
                if dms@.contains(p) && p != i {
                    let k = choose|k: int| 0 <= k < dms@.len() && dms@[k] == p;
                    assert(d0[k] == p);
                    assert(d0.contains(p));
                }
                if p < i && is_shown(*rooms, replacements@, p as int) && rooms.entries@[p as int].1.direct is Some {
                    assert(d0.contains(p));
                    let k = choose|k: int| 0 <= k < d0.len() && d0[k] == p;
                    assert(dms@[k] == p);
                }
                if p == i && dms@.len() > d0.len() {
                    assert(dms@[d0.len() as int] == p);
                }
            }
            assert forall|p: usize| #[trigger] groups@.contains(p) <==> (p < i + 1 && is_shown(*rooms, replacements@, p as int)
                && rooms.entries@[p as int].1.direct is None) by {
                if groups@.contains(p) && p != i {
                    let k = choose|k: int| 0 <= k < groups@.len() && groups@[k] == p;
                    assert(g0[k] == p);
                    assert(g0.contains(p));
                }
                if p < i && is_shown(*rooms, replacements@, p as int) && rooms.entries@[p as int].1.direct is None {
                    assert(g0.contains(p));
                    let k = choose|k: int| 0 <= k < g0.len() && g0[k] == p;
                    assert(groups@[k] == p);
                }
                if p == i && groups@.len() > g0.len() {
                    assert(groups@[g0.len() as int] == p);
                }
            }
        }
        i += 1;
    }
    proof {
        assert forall|a: int, b: int| 0 <= a < b < dms@.len() implies key_lt(
            rooms.keys()[dms@[a] as int],
            rooms.keys()[dms@[b] as int],
        ) by {
            assert(dms@[a] < dms@[b]);
        }
        assert forall|a: int, b: int| 0 <= a < b < groups@.len() implies key_lt(
            rooms.keys()[groups@[a] as int],
            rooms.keys()[groups@[b] as int],
        ) by {
            assert(groups@[a] < groups@[b]);
        }
    }
    (dms, groups)
}

pub open spec fn updated_at(rooms: RoomMap, p: usize) -> u64 {
    rooms.entries@[p as int].1.messages.updated
}

/// `p` placed into `s` before the first position, counted from the back,
/// whose room was active no later than it: for a list sorted from most to
/// least recent the result is sorted too.
pub open spec fn insert_by_recency(rooms: RoomMap, s: Seq<usize>, p: usize) -> Seq<usize>
    decreases s.len(),
{
    if s.len() == 0 {
        seq![p]
    } else if updated_at(rooms, p) > updated_at(rooms, s.last()) {
        insert_by_recency(rooms, s.drop_last(), p).push(s.last())
    } else {
        s.push(p)
    }
}

/// The positions of `s` sorted from most to least recently active, keeping
/// the order of rooms active at the same time.
pub open spec fn sort_by_recency(rooms: RoomMap, s: Seq<usize>) -> Seq<usize>
    decreases s.len(),
{
    if s.len() == 0 {
        s
    } else {
        insert_by_recency(rooms, sort_by_recency(rooms, s.drop_last()), s.last())
    }
}

pub open spec fn most_recent_first(rooms: RoomMap, s: Seq<usize>) -> bool {
    forall|i: int, j: int|
        0 <= i <= j < s.len() ==> updated_at(rooms, s[i]) >= updated_at(rooms, s[j])
}

fn insert_position(rooms: &RoomMap, list: &mut Vec<usize>, p: usize)
    requires
        p < rooms.entries@.len(),
        forall|k: int| 0 <= k < old(list)@.len() ==> old(list)@[k] < rooms.entries@.len(),
    ensures
        final(list)@ == insert_by_recency(*rooms, old(list)@, p),
        final(list)@.to_multiset() == old(list)@.to_multiset().insert(p),
        forall|k: int| 0 <= k < final(list)@.len() ==> final(list)@[k] < rooms.entries@.len(),
        most_recent_first(*rooms, old(list)@) ==> most_recent_first(*rooms, final(list)@),
{
    let ghost orig = list@;
    let t = rooms.entries[p].1.messages.updated;
    let mut q: usize = list.len();
    assert(orig.take(q as int) =~= orig);
    assert(orig.skip(q as int) =~= Seq::<usize>::empty());
    assert(insert_by_recency(*rooms, orig, p) =~= insert_by_recency(*rooms, orig.take(q as int), p)
        + orig.skip(q as int));
    loop
        invariant
            q <= list.len(),
            list@ == orig,
            t == updated_at(*rooms, p),
            forall|k: int| 0 <= k < orig.len() ==> orig[k] < rooms.entries@.len(),
            insert_by_recency(*rooms, orig, p) == insert_by_recency(*rooms, orig.take(q as int), p)
                + orig.skip(q as int),
            forall|k: int| q <= k < orig.len() ==> updated_at(*rooms, #[trigger] orig[k]) < t,
        ensures
            q <= list.len(),
            list@ == orig,
            insert_by_recency(*rooms, orig, p) == insert_by_recency(*rooms, orig.take(q as int), p)
                + orig.skip(q as int),
            forall|k: int| q <= k < orig.len() ==> updated_at(*rooms, #[trigger] orig[k]) < t,
            q == 0 || updated_at(*rooms, orig[q - 1]) >= t,
        decreases q,
    {
        if q == 0 {
            break;
        }
        if rooms.entries[list[q - 1]].1.messages.updated >= t {
            break;
        }
        let ghost q1 = q - 1;
        assert(orig.take(q as int).drop_last() =~= orig.take(q1));
        assert(orig.take(q as int).last() == orig[q1]);
        assert(orig.skip(q1) =~= seq![orig[q1]] + orig.skip(q as int));
        assert(insert_by_recency(*rooms, orig.take(q1), p).push(orig[q1]) + orig.skip(q as int)
            =~= insert_by_recency(*rooms, orig.take(q1), p) + orig.skip(q1));
        q -= 1;
    }
    proof {
        if q == 0 {
            assert(orig.take(0) =~= Seq::<usize>::empty());
            assert(insert_by_recency(*rooms, orig.take(0), p) == seq![p]);
        } else {
            assert(orig.take(q as int).last() == orig[q - 1]);
            assert(insert_by_recency(*rooms, orig.take(q as int), p) == orig.take(q as int).push(p));
        }
    }
    list.insert(q, p);
    proof {
        vstd::seq_lib::to_multiset_insert(orig, q as int, p);
    }
    assert(list@ =~= insert_by_recency(*rooms, orig.take(q as int), p) + orig.skip(q as int));
    proof {
        let r = list@;
        assert forall|k: int| 0 <= k < r.len() implies #[trigger] r[k] == if k < q {
            orig[k]
        } else if k == q {
            p
        } else {
            orig[k - 1]
        } by {}
        if most_recent_first(*rooms, orig) {
            assert forall|i: int, j: int| 0 <= i <= j < r.len() implies updated_at(*rooms, r[i])
                >= updated_at(*rooms, r[j]) by {
                if i < q && q > 0 {
                    assert(updated_at(*rooms, orig[i]) >= updated_at(*rooms, orig[q - 1]));
                }
            }
        }
    }
}

/// Sorts positions of `rooms` from most to least recently active.
pub fn sort_by_recent(rooms: &RoomMap, list: &mut Vec<usize>)
    requires
        forall|k: int| 0 <= k < old(list)@.len() ==> old(list)@[k] < rooms.entries@.len(),
    ensures
        final(list)@ == sort_by_recency(*rooms, old(list)@),
        final(list)@.to_multiset() == old(list)@.to_multiset(),
        most_recent_first(*rooms, final(list)@),
{
    let ghost orig = list@;
    let mut rest: Vec<usize> = Vec::new();
    std::mem::swap(list, &mut rest);
    let mut n: usize = 0;
    assert(orig.take(0) =~= Seq::<usize>::empty());
    assert(list@ =~= Seq::<usize>::empty());
    while n < rest.len()
        invariant
            0 <= n <= rest.len(),
            rest@ == orig,
            forall|k: int| 0 <= k < orig.len() ==> orig[k] < rooms.entries@.len(),
            forall|k: int| 0 <= k < list@.len() ==> list@[k] < rooms.entries@.len(),
            list@ == sort_by_recency(*rooms, orig.take(n as int)),
            list@.to_multiset() == orig.take(n as int).to_multiset(),
            most_recent_first(*rooms, list@),
        decreases rest.len() - n,
    {
        assert(orig.take(n + 1).drop_last() =~= orig.take(n as int));
        assert(orig.take(n + 1).last() == orig[n as int]);
        assert(orig.take(n + 1) =~= orig.take(n as int).push(orig[n as int]));
        proof {
            vstd::seq_lib::to_multiset_build(orig.take(n as int), orig[n as int]);
        }
        insert_position(rooms, list, rest[n]);
        n += 1;
    }
    assert(orig.take(orig.len() as int) =~= orig);
}

/// Text of a room's button in the room list.
pub fn room_label(room: &RoomEntry) -> (r: String)
    ensures
        r@ == if room.name@.len() == 0 {
            "Empty Room"@
        } else {
            room.name@
        },
{
    if room.name.unicode_len() == 0 {
        "Empty Room".to_owned()
    } else {
        room.name.clone()
    }
}

/// Title of the room that is showing: its name, followed in parentheses by
/// the user of a direct chat, else by the room's alias, if it has one.
pub fn room_title(room: &RoomEntry) -> (r: String)
    ensures
        r@ == match (room.direct, room.alias) {
            (Some(d), _) => room.name@ + " ("@ + d@ + ")"@,
            (None, Some(a)) => room.name@ + " ("@ + a@ + ")"@,
            (None, None) => room.name@,
        },
{
    let mut t = room.name.clone();
    let extra = match &room.direct {
        Some(d) => Some(d),
        None => match &room.alias {
            Some(a) => Some(a),
            None => None,
        },
    };
    match extra {
        Some(x) => {
            t.append(" (");
            t.append(x.as_str());
            t.append(")");
        },
        None => {},
    }
    t
}

/// Name and avatar to show for a sender: those of the room member when the
/// room knows one, else a stand-in name and no avatar.
pub fn get_sender_details(member: Option<(String, Option<String>)>) -> (r: (String, Option<String>))
    ensures
        member matches Some(m) ==> r == m,
        member is None ==> r.0@ == "Unknown Sender"@ && r.1 is None,
{
    match member {
        Some(m) => m,
        None => ("Unknown Sender".to_owned(), None),
    }
}

} // verus!
