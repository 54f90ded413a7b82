use vstd::prelude::*;

verus! {

/// The number of the latest messages of a room that the cache keeps.
pub const CACHE_SIZE: usize = 40;

/// A room as the cache holds it: its id, its messages in order, the token
/// for fetching earlier messages, and the rest of its details, carried
/// through unchanged.
pub struct Room<M, D> {
    pub id: String,
    pub messages: Vec<M>,
    pub prev_batch: Option<String>,
    pub details: D,
}

/// The session data stored beside the rooms.
pub struct AppState {
    pub since: Option<String>,
    pub username: String,
    pub uid: String,
    pub device_id: String,
}

/// What is written to the cache: the session data and the rooms.
pub struct CacheSnapshot<M, D> {
    pub state: AppState,
    pub rooms: Vec<Room<M, D>>,
}

/// The messages the cache keeps of a room: the last `CACHE_SIZE` of them.
pub open spec fn kept_messages<M>(m: Seq<M>) -> Seq<M> {
    if m.len() > CACHE_SIZE {
        m.subrange(m.len() - CACHE_SIZE, m.len() as int)
    } else {
        m
    }
}

/// `c` is the copy of `r` that the cache stores: same id and details, only
/// the latest messages, and no token for earlier messages, since that token
/// would no longer point behind the oldest message kept.
pub open spec fn is_cached_copy<M, D>(c: Room<M, D>, r: Room<M, D>) -> bool {
    &&& c.id@ == r.id@
    &&& c.details == r.details
    &&& c.messages@ == kept_messages(r.messages@)
    &&& c.prev_batch is None
}

/// The copy of one room that the cache stores.
pub fn room_for_cache<M, D>(room: Room<M, D>) -> (r: Room<M, D>)
    ensures
        is_cached_copy(r, room),
        r.messages@.len() <= CACHE_SIZE,
        r.messages@.len() == (if room.messages@.len() > CACHE_SIZE {
            CACHE_SIZE as int
        } else {
            room.messages@.len() as int
        }),
        forall|i: int|
            0 <= i < r.messages@.len() ==> #[trigger] r.messages@[i] == room.messages@[room.messages@.len()
                - r.messages@.len() + i],
{
    let Room { id, messages, prev_batch: _, details } = room;
    let mut messages = messages;
    let n = messages.len();
    let skip = if n > CACHE_SIZE {
        n - CACHE_SIZE
    } else {
        0
    };
    let kept = messages.split_off(skip);
    proof {
        if n <= CACHE_SIZE {
            assert(kept@ =~= room.messages@);
        }
    }
    Room { id, messages: kept, prev_batch: None, details }
}

/// The copies of `rooms` that the cache stores, in the same order.
pub fn rooms_for_cache<M, D>(rooms: Vec<Room<M, D>>) -> (r: Vec<Room<M, D>>)
    ensures
        r@.len() == rooms@.len(),
        forall|i: int| 0 <= i < r@.len() ==> is_cached_copy(#[trigger] r@[i], rooms@[i]),
{
    let ghost input = rooms@;
    let mut out: Vec<Room<M, D>> = Vec::new();
    for room in it: rooms.into_iter()
        invariant
            it.seq() == input,
            out@.len() == it.index(),
            forall|j: int| 0 <= j < it.index() ==> is_cached_copy(#[trigger] out@[j], input[j]),
    {
        out.push(room_for_cache(room));
    }
    out
}

/// What the cache writes: the session data and the cached copies of the
/// rooms.
pub fn snapshot<M, D>(
    rooms: Vec<Room<M, D>>,
    since: Option<String>,
    username: String,
    uid: String,
    device_id: String,
) -> (r: CacheSnapshot<M, D>)
    ensures
        r.state.since == since,
        r.state.username == username,
        r.state.uid == uid,
        r.state.device_id == device_id,
        r.rooms@.len() == rooms@.len(),
        forall|i: int| 0 <= i < r.rooms@.len() ==> is_cached_copy(#[trigger] r.rooms@[i], rooms@[i]),
{
    let cached = rooms_for_cache(rooms);
    CacheSnapshot { state: AppState { since, username, uid, device_id }, rooms: cached }
}

/// The rooms by id that inserting `rooms` one after the other into an
/// empty map gives: a later room replaces an earlier one with the same id.
pub open spec fn room_map<M, D>(rooms: Seq<Room<M, D>>) -> Map<Seq<char>, Room<M, D>>
    decreases rooms.len(),
{
    if rooms.len() == 0 {
        Map::empty()
    } else {
        room_map(rooms.drop_last()).insert(rooms.last().id@, rooms.last())
    }
}

/// No two rooms share an id.
pub open spec fn ids_distinct<M, D>(rooms: Seq<Room<M, D>>) -> bool {
    forall|i: int, j: int|
        0 <= i < rooms.len() && 0 <= j < rooms.len() && i != j ==> #[trigger] rooms[i].id@
            != #[trigger] rooms[j].id@
}

/// The ids of the rooms of a map are those of the list it was built from.
pub proof fn lemma_room_map_dom<M, D>(rooms: Seq<Room<M, D>>, k: Seq<char>)
    ensures
        room_map(rooms).contains_key(k) <==> exists|i: int|
            0 <= i < rooms.len() && #[trigger] rooms[i].id@ == k,
    decreases rooms.len(),
{
    if rooms.len() > 0 {
        let init = rooms.drop_last();
        lemma_room_map_dom(init, k);
        if room_map(init).contains_key(k) {
            let i = choose|i: int| 0 <= i < init.len() && #[trigger] init[i].id@ == k;
            assert(rooms[i] == init[i]);
        }
        if exists|i: int| 0 <= i < rooms.len() && #[trigger] rooms[i].id@ == k {
            let i = choose|i: int| 0 <= i < rooms.len() && #[trigger] rooms[i].id@ == k;
            if i < rooms.len() - 1 {
                assert(init[i] == rooms[i]);
            }
        }
    }
}

/// In a list without repeated ids, each room is found in the map under its id.
pub proof fn lemma_room_map_get<M, D>(rooms: Seq<Room<M, D>>, i: int)
    requires
        ids_distinct(rooms),
        0 <= i < rooms.len(),
    ensures
        room_map(rooms).contains_key(rooms[i].id@),
        room_map(rooms)[rooms[i].id@] == rooms[i],
    decreases rooms.len(),
{
    let init = rooms.drop_last();
    if i < rooms.len() - 1 {
        assert(init[i] == rooms[i]);
        assert(ids_distinct(init)) by {
            assert forall|a: int, b: int|
                0 <= a < init.len() && 0 <= b < init.len() && a != b implies #[trigger] init[a].id@
                != #[trigger] init[b].id@ by {
                assert(init[a] == rooms[a] && init[b] == rooms[b]);
            }
        }
        lemma_room_map_get(init, i);
        assert(rooms[i].id@ != rooms[rooms.len() - 1].id@);
    }
}

/// Replacing the room at `i` by one with the same id replaces it in the map.
pub proof fn lemma_room_map_update<M, D>(rooms: Seq<Room<M, D>>, i: int, room: Room<M, D>)
    requires
        ids_distinct(rooms),
        0 <= i < rooms.len(),
        room.id@ == rooms[i].id@,
    ensures
        room_map(rooms.update(i, room)) == room_map(rooms).insert(room.id@, room),
        ids_distinct(rooms.update(i, room)),
    decreases rooms.len(),
{
    let upd = rooms.update(i, room);
    let init = rooms.drop_last();
    assert(ids_distinct(upd)) by {
        assert forall|a: int, b: int|
            0 <= a < upd.len() && 0 <= b < upd.len() && a != b implies #[trigger] upd[a].id@
            != #[trigger] upd[b].id@ by {
            assert(upd[a].id@ == rooms[a].id@);
            assert(upd[b].id@ == rooms[b].id@);
        }
    }
    if i == rooms.len() - 1 {
        assert(upd.drop_last() =~= init);
        assert(room_map(upd) =~= room_map(rooms).insert(room.id@, room));
    } else {
        assert(ids_distinct(init)) by {
            assert forall|a: int, b: int|
                0 <= a < init.len() && 0 <= b < init.len() && a != b implies #[trigger] init[a].id@
                != #[trigger] init[b].id@ by {
                assert(init[a] == rooms[a] && init[b] == rooms[b]);
            }
        }
        lemma_room_map_update(init, i, room);
        assert(upd.drop_last() =~= init.update(i, room));
        assert(upd.last() == rooms.last());
        assert(rooms.last().id@ != room.id@);
        assert(room_map(upd) =~= room_map(rooms).insert(room.id@, room));
    }
}

/// The rooms of the session by id.
pub struct RoomList<M, D> {
    rooms: Vec<Room<M, D>>,
}

impl<M, D> RoomList<M, D> {
    /// No two stored rooms share an id.
    #[verifier::type_invariant]
    spec fn wf(&self) -> bool {
        ids_distinct(self.rooms@)
    }

    /// The rooms by id.
    pub closed spec fn rooms_by_id(&self) -> Map<Seq<char>, Room<M, D>> {
        room_map(self.rooms@)
    }

    /// An empty list.
    pub fn new() -> (r: RoomList<M, D>)
        ensures
            r.rooms_by_id() == Map::<Seq<char>, Room<M, D>>::empty(),
    {
        RoomList { rooms: Vec::new() }
    }

    /// The number of rooms.
    pub fn len(&self) -> (r: usize)
        ensures
            r == self.rooms_by_id().dom().len(),
    {
        proof {
            use_type_invariant(self);
            lemma_room_map_len(self.rooms@);
        }
        self.rooms.len()
    }

    /// The room with id `id`, if any.
    pub fn get(&self, id: &str) -> (r: Option<&Room<M, D>>)
        ensures
            match r {
                Some(room) => self.rooms_by_id().contains_key(id@) && *room == self.rooms_by_id()[id@],
                None => !self.rooms_by_id().contains_key(id@),
            },
    {
        proof {
            use_type_invariant(self);
        }
        let n = self.rooms.len();
        for i in 0..n
            invariant
                n == self.rooms@.len(),
                ids_distinct(self.rooms@),
                forall|j: int| 0 <= j < i ==> #[trigger] self.rooms@[j].id@ != id@,
        {
            if crate::text::same_text(self.rooms[i].id.as_str(), id) {
                proof {
                    lemma_room_map_get(self.rooms@, i as int);
                }
                return Some(&self.rooms[i]);
            }
        }
        proof {
            lemma_room_map_dom(self.rooms@, id@);
        }
        None
    }

    /// The rooms, each once, giving back the same rooms by id.
    pub fn into_rooms(self) -> (r: Vec<Room<M, D>>)
        ensures
            ids_distinct(r@),
            room_map(r@) == self.rooms_by_id(),
    {
        proof {
            use_type_invariant(&self);
        }
        self.rooms
    }

    /// Stores `room` under its id; returns the room it replaces, if any.
    pub fn insert(&mut self, room: Room<M, D>) -> (r: Option<Room<M, D>>)
        ensures
            final(self).rooms_by_id() == old(self).rooms_by_id().insert(room.id@, room),
            match r {
                Some(prev) => old(self).rooms_by_id().contains_key(room.id@) && prev == old(
                    self,
                ).rooms_by_id()[room.id@],
                None => !old(self).rooms_by_id().contains_key(room.id@),
            },
    {
        proof {
            use_type_invariant(&*self);
        }
        let mut rooms: Vec<Room<M, D>> = Vec::new();
        std::mem::swap(&mut rooms, &mut self.rooms);
        let ghost before = rooms@;
        let n = rooms.len();
        let mut i: usize = 0;
        while i < n
            invariant
                i <= n,
                n == rooms@.len(),
                rooms@ == before,
                before == old(self).rooms@,
                ids_distinct(rooms@),
                forall|j: int| 0 <= j < i ==> #[trigger] rooms@[j].id@ != room.id@,
            decreases n - i,
        {
            if crate::text::same_text(rooms[i].id.as_str(), room.id.as_str()) {
                proof {
                    lemma_room_map_get(rooms@, i as int);
                    lemma_room_map_update(rooms@, i as int, room);
                }
                let prev = rooms.remove(i);
                rooms.insert(i, room);
                proof {
                    assert(rooms@ =~= before.update(i as int, room));
                }
                self.rooms = rooms;
                return Some(prev);
            }
            i = i + 1;
        }
        proof {
            lemma_room_map_dom(rooms@, room.id@);
            assert forall|a: int, b: int|
                0 <= a < rooms@.len() + 1 && 0 <= b < rooms@.len() + 1 && a != b implies #[trigger] rooms@.push(room)[a].id@
                != #[trigger] rooms@.push(room)[b].id@ by {
            }
            assert(rooms@.push(room).drop_last() =~= rooms@);
        }
        rooms.push(room);
        self.rooms = rooms;
        None
    }
}

/// A map built from a list without repeated ids has one entry per room.
pub proof fn lemma_room_map_len<M, D>(rooms: Seq<Room<M, D>>)
    requires
        ids_distinct(rooms),
    ensures
        room_map(rooms).dom().finite(),
        room_map(rooms).dom().len() == rooms.len(),
    decreases rooms.len(),
{
    if rooms.len() > 0 {
        let init = rooms.drop_last();
        assert(ids_distinct(init)) by {
            assert forall|a: int, b: int|
                0 <= a < init.len() && 0 <= b < init.len() && a != b implies #[trigger] init[a].id@
                != #[trigger] init[b].id@ by {
                assert(init[a] == rooms[a] && init[b] == rooms[b]);
            }
        }
        lemma_room_map_len(init);
        lemma_room_map_dom(init, rooms.last().id@);
        if room_map(init).contains_key(rooms.last().id@) {
            let i = choose|i: int| 0 <= i < init.len() && #[trigger] init[i].id@ == rooms.last().id@;
            assert(rooms[i] == init[i]);
        }
    }
}

/// What is read back from the cache: the session data and the rooms by id.
pub struct CacheData<M, D> {
    pub since: Option<String>,
    pub rooms: RoomList<M, D>,
    pub username: String,
    pub uid: String,
    pub device_id: String,
}

/// Assembles what was read back from the cache: the stored session data,
/// and the stored rooms keyed by their ids, a later room replacing an
/// earlier one with the same id.
pub fn cache_data_from<M, D>(st: AppState, rooms: Vec<Room<M, D>>) -> (r: CacheData<M, D>)
    ensures
        r.rooms.rooms_by_id() == room_map(rooms@),
        r.since == st.since,
        r.username == st.username,
        r.uid == st.uid,
        r.device_id == st.device_id,
{
    let ghost input = rooms@;
    let mut cacherooms: RoomList<M, D> = RoomList::new();
    for r in it: rooms.into_iter()
        invariant
            it.seq() == input,
            cacherooms.rooms_by_id() == room_map(input.take(it.index())),
    {
        proof {
            let t = input.take(it.index() + 1);
            assert(t.drop_last() =~= input.take(it.index()));
            assert(t.last() == r);
        }
        let _ = cacherooms.insert(r);
    }
    proof {
        assert(input.take(input.len() as int) =~= input);
    }
    let AppState { since, username, uid, device_id } = st;
    CacheData { since, rooms: cacherooms, username, uid, device_id }
}

/// Reading back what was stored gives, under each room id, the cached copy
/// of the room that the stored list held last under that id, and no other
/// ids.
pub proof fn lemma_load_after_store<M, D>(input: Seq<Room<M, D>>, stored: Seq<Room<M, D>>)
    requires
        stored.len() == input.len(),
        forall|i: int| 0 <= i < stored.len() ==> is_cached_copy(#[trigger] stored[i], input[i]),
    ensures
        room_map(stored).dom() == room_map(input).dom(),
        forall|k: Seq<char>| #[trigger]
            room_map(stored).contains_key(k) ==> is_cached_copy(
                room_map(stored)[k],
                room_map(input)[k],
            ),
    decreases input.len(),
{
    if input.len() > 0 {
        let si = stored.drop_last();
        let ii = input.drop_last();
        assert forall|i: int| 0 <= i < si.len() implies is_cached_copy(#[trigger] si[i], ii[i]) by {
            assert(si[i] == stored[i] && ii[i] == input[i]);
        }
        lemma_load_after_store(ii, si);
        assert(is_cached_copy(stored.last(), input.last()));
        assert(room_map(stored).dom() =~= room_map(input).dom());
    }
}

/// A reply awaited from the backend: none yet, the backend gone, or the
/// reply itself.
pub enum Reply<T> {
    Empty,
    Disconnected,
    Ready(T),
}

/// What a poll of the backend decides: whether to poll again, and the
/// reply to act on (redraw the avatar, show the user name), if one came.
pub struct PollStep<T> {
    pub keep_polling: bool,
    pub handle: Option<T>,
}

/// Decides on one poll: keep waiting only while no reply has come and the
/// backend is still there; act on a reply that came, then stop.
pub fn poll_step<T>(reply: Reply<T>) -> (r: PollStep<T>)
    ensures
        r.keep_polling == (reply is Empty),
        r.handle == (match reply {
            Reply::Ready(v) => Some(v),
            _ => None,
        }),
{
    match reply {
        Reply::Empty => PollStep { keep_polling: true, handle: None },
        Reply::Disconnected => PollStep { keep_polling: false, handle: None },
        Reply::Ready(v) => PollStep { keep_polling: false, handle: Some(v) },
    }
}

/// The cache keeps at most `CACHE_SIZE` messages of a room, and those it
/// keeps are the latest ones, in order; storing what was kept again keeps
/// all of it.
pub proof fn lemma_kept_messages<M>(m: Seq<M>)
    ensures
        kept_messages(m).len() == (if m.len() > CACHE_SIZE {
            CACHE_SIZE as int
        } else {
            m.len() as int
        }),
        forall|i: int|
            0 <= i < kept_messages(m).len() ==> #[trigger] kept_messages(m)[i] == m[m.len()
                - kept_messages(m).len() + i],
        kept_messages(kept_messages(m)) == kept_messages(m),
{
}

/// Storing a room under its id makes it the room found under that id, and
/// leaves every other id as it was.
pub proof fn lemma_lookup_after_insert<M, D>(
    rooms: Map<Seq<char>, Room<M, D>>,
    room: Room<M, D>,
    other: Seq<char>,
)
    ensures
        rooms.insert(room.id@, room).contains_key(room.id@),
        rooms.insert(room.id@, room)[room.id@] == room,
        other != room.id@ ==> (rooms.insert(room.id@, room).contains_key(other)
            == rooms.contains_key(other)),
        other != room.id@ && rooms.contains_key(other) ==> rooms.insert(room.id@, room)[other]
            == rooms[other],
{
}

/// The cached copy of any room, whatever its token for earlier messages,
/// holds at most `CACHE_SIZE` (40) messages: all of them where the room has
/// no more, and otherwise the last 40, in order. Its id and details are the
/// room's, and it has no token for earlier messages.
pub proof fn lemma_cached_copy_keeps_latest<M, D>(c: Room<M, D>, r: Room<M, D>)
    requires
        is_cached_copy(c, r),
    ensures
        CACHE_SIZE == 40,
        c.messages@.len() <= CACHE_SIZE,
        c.messages@.len() == (if r.messages@.len() > CACHE_SIZE {
            CACHE_SIZE as int
        } else {
            r.messages@.len() as int
        }),
        forall|i: int|
            0 <= i < c.messages@.len() ==> #[trigger] c.messages@[i] == r.messages@[r.messages@.len()
                - c.messages@.len() + i],
        c.id@ == r.id@,
        c.details == r.details,
        c.prev_batch is None,
{
}

} // verus!
