//! The state of the event cache, made of per-room, per-thread and
//! pinned-events cache states, and the selectors that pick one of them.

use vstd::prelude::*;
use crate::error::EventCacheError;

verus! {

/// Whether no key occurs twice among the entries.
pub open spec fn keys_distinct<V>(entries: Seq<(String, V)>) -> bool {
    forall|i: int, j: int|
        0 <= i < j < entries.len() ==> #[trigger] entries[i].0@ != #[trigger] entries[j].0@
}

/// The map that the entries stand for.
pub open spec fn entries_map<V>(entries: Seq<(String, V)>) -> Map<Seq<char>, V> {
    Map::new(
        |k: Seq<char>| exists|i: int| 0 <= i < entries.len() && #[trigger] entries[i].0@ == k,
        |k: Seq<char>| entries[choose|i: int| 0 <= i < entries.len() && #[trigger] entries[i].0@ == k].1,
    )
}

proof fn lemma_entries_map_at<V>(entries: Seq<(String, V)>, i: int)
    requires
        keys_distinct(entries),
        0 <= i < entries.len(),
    ensures
        entries_map(entries).contains_key(entries[i].0@),
        entries_map(entries)[entries[i].0@] == entries[i].1,
{
    let k = entries[i].0@;
    assert(exists|j: int| 0 <= j < entries.len() && #[trigger] entries[j].0@ == k);
    let j = choose|j: int| 0 <= j < entries.len() && #[trigger] entries[j].0@ == k;
    if j != i {
        if j < i {
            assert(entries[j].0@ != entries[i].0@);
        } else {
            assert(entries[i].0@ != entries[j].0@);
        }
    }
}

proof fn lemma_entries_map_update<V>(entries: Seq<(String, V)>, i: int, v: V)
    requires
        keys_distinct(entries),
        0 <= i < entries.len(),
    ensures
        keys_distinct(entries.update(i, (entries[i].0, v))),
        entries_map(entries.update(i, (entries[i].0, v))) == entries_map(entries).insert(entries[i].0@, v),
{
    let t = entries.update(i, (entries[i].0, v));
    assert forall|p: int, q: int| 0 <= p < q < t.len() implies #[trigger] t[p].0@ != #[trigger] t[q].0@ by {
        assert(entries[p].0@ != entries[q].0@);
    }
    let m = entries_map(entries).insert(entries[i].0@, v);
    assert forall|k: Seq<char>| #[trigger] entries_map(t).contains_key(k) == m.contains_key(k) by {
        if m.contains_key(k) {
            if k == entries[i].0@ {
                assert(t[i].0@ == k);
            } else {
                let j = choose|j: int| 0 <= j < entries.len() && #[trigger] entries[j].0@ == k;
                assert(t[j].0@ == k);
            }
        }
        if entries_map(t).contains_key(k) {
            let j = choose|j: int| 0 <= j < t.len() && #[trigger] t[j].0@ == k;
            assert(entries[j].0@ == k);
        }
    }
    assert forall|k: Seq<char>| #[trigger] entries_map(t).contains_key(k) implies entries_map(t)[k] == m[k] by {
        let j = choose|j: int| 0 <= j < t.len() && #[trigger] t[j].0@ == k;
        lemma_entries_map_at(t, j);
        if j != i {
            lemma_entries_map_at(entries, j);
        }
    }
    assert(entries_map(t) =~= m);
}

proof fn lemma_entries_map_push<V>(entries: Seq<(String, V)>, k: String, v: V)
    requires
        keys_distinct(entries),
        !entries_map(entries).contains_key(k@),
    ensures
        keys_distinct(entries.push((k, v))),
        entries_map(entries.push((k, v))) == entries_map(entries).insert(k@, v),
{
    let t = entries.push((k, v));
    assert forall|p: int, q: int| 0 <= p < q < t.len() implies #[trigger] t[p].0@ != #[trigger] t[q].0@ by {
        if q == entries.len() {
            if t[p].0@ == k@ {
                assert(entries[p].0@ == k@);
            }
        } else {
            assert(entries[p].0@ != entries[q].0@);
        }
    }
    let m = entries_map(entries).insert(k@, v);
    assert forall|key: Seq<char>| #[trigger] entries_map(t).contains_key(key) == m.contains_key(key) by {
        if m.contains_key(key) {
            if key == k@ {
                assert(t[entries.len() as int].0@ == key);
            } else {
                let j = choose|j: int| 0 <= j < entries.len() && #[trigger] entries[j].0@ == key;
                assert(t[j].0@ == key);
            }
        }
        if entries_map(t).contains_key(key) {
            let j = choose|j: int| 0 <= j < t.len() && #[trigger] t[j].0@ == key;
            if j < entries.len() {
                assert(entries[j].0@ == key);
            }
        }
    }
    assert forall|key: Seq<char>| #[trigger] entries_map(t).contains_key(key) implies entries_map(t)[key] == m[key] by {
        let j = choose|j: int| 0 <= j < t.len() && #[trigger] t[j].0@ == key;
        lemma_entries_map_at(t, j);
        if j < entries.len() {
            lemma_entries_map_at(entries, j);
        }
    }
    assert(entries_map(t) =~= m);
}

/// A map from room or thread identifiers to cache states.
pub struct StateMap<V> {
    entries: Vec<(String, V)>,
}

impl<V> View for StateMap<V> {
    type V = Map<Seq<char>, V>;

    closed spec fn view(&self) -> Map<Seq<char>, V> {
        entries_map(self.entries@)
    }
}

impl<V> StateMap<V> {
    /// No identifier occurs twice.
    pub closed spec fn wf(&self) -> bool {
        keys_distinct(self.entries@)
    }

    /// An empty map.
    pub fn new() -> (m: StateMap<V>)
        ensures
            m.wf(),
            m@ == Map::<Seq<char>, V>::empty(),
    {
        let m = StateMap { entries: Vec::new() };
        assert(m@ =~= Map::<Seq<char>, V>::empty());
        m
    }

    /// Where the entry of `key` stands, if there is one.
    fn position(&self, key: &String) -> (pos: Option<usize>)
        requires
            self.wf(),
        ensures
            match pos {
                Some(i) => i < self.entries@.len() && self.entries@[i as int].0@ == key@,
                None => !self@.contains_key(key@),
            },
    {
        let mut i: usize = 0;
        while i < self.entries.len()
            invariant
                i <= self.entries@.len(),
                forall|j: int| 0 <= j < i ==> #[trigger] self.entries@[j].0@ != key@,
            decreases self.entries.len() - i,
        {
            if self.entries[i].0 == *key {
                return Some(i);
            }
            i = i + 1;
        }
        proof {
            if self@.contains_key(key@) {
                let j = choose|j: int| 0 <= j < self.entries@.len() && #[trigger] self.entries@[j].0@ == key@;
                assert(self.entries@[j].0@ != key@);
            }
        }
        None
    }

    /// The state of `key`.
    pub fn get(&self, key: &String) -> (v: Option<&V>)
        requires
            self.wf(),
        ensures
            match v {
                Some(v) => self@.contains_key(key@) && *v == self@[key@],
                None => !self@.contains_key(key@),
            },
    {
        match self.position(key) {
            Some(i) => {
                proof {
                    lemma_entries_map_at(self.entries@, i as int);
                }
                Some(&self.entries[i].1)
            },
            None => None,
        }
    }

    /// The state of `key`, to change it in place.
    pub fn get_mut(&mut self, key: &String) -> (v: Option<&mut V>)
        requires
            old(self).wf(),
        ensures
            final(self).wf(),
            match v {
                Some(v) => old(self)@.contains_key(key@) && *v == old(self)@[key@]
                    && final(self)@ == old(self)@.insert(key@, *final(v)),
                None => !old(self)@.contains_key(key@) && *final(self) == *old(self),
            },
    {
        match self.position(key) {
            Some(i) => {
                proof {
                    lemma_entries_map_at(self.entries@, i as int);
                    assert forall|w: V| #[trigger] entries_map(self.entries@.update(i as int, (self.entries@[i as int].0, w)))
                        == entries_map(self.entries@).insert(key@, w)
                        && keys_distinct(self.entries@.update(i as int, (self.entries@[i as int].0, w))) by {
                        lemma_entries_map_update(self.entries@, i as int, w);
                    }
                }
                Some(&mut self.entries[i].1)
            },
            None => None,
        }
    }

    /// Sets the state of `key`, handing back the one it replaces.
    pub fn insert(&mut self, key: String, value: V) -> (prev: Option<V>)
        requires
            old(self).wf(),
        ensures
            final(self).wf(),
            final(self)@ == old(self)@.insert(key@, value),
            match prev {
                Some(p) => old(self)@.contains_key(key@) && p == old(self)@[key@],
                None => !old(self)@.contains_key(key@),
            },
    {
        match self.position(&key) {
            Some(i) => {
                let (old_key, old_value) = self.entries.remove(i);
                proof {
                    lemma_entries_map_at(old(self).entries@, i as int);
                    lemma_entries_map_update(old(self).entries@, i as int, value);
                }
                self.entries.insert(i, (old_key, value));
                assert(self.entries@ =~= old(self).entries@.update(i as int, (old(self).entries@[i as int].0, value)));
                Some(old_value)
            },
            None => {
                proof {
                    lemma_entries_map_push(self.entries@, key, value);
                }
                self.entries.push((key, value));
                None
            },
        }
    }
}

/// The cache states of the event cache: one per room, one per thread of a
/// room, and one per room for its pinned events.
pub struct State<R, T, P> {
    pub rooms: StateMap<R>,
    pub threads: StateMap<StateMap<T>>,
    pub pinned_events: StateMap<P>,
}

impl<R, T, P> State<R, T, P> {
    /// Every map, and every map of threads, is well formed.
    pub open spec fn wf(&self) -> bool {
        &&& self.rooms.wf()
        &&& self.threads.wf()
        &&& self.pinned_events.wf()
        &&& forall|room: Seq<char>| #[trigger] self.threads@.contains_key(room) ==> self.threads@[room].wf()
    }

    /// No cache state at all.
    pub fn new() -> (state: State<R, T, P>)
        ensures
            state.wf(),
            state.rooms@ == Map::<Seq<char>, R>::empty(),
            state.threads@ == Map::<Seq<char>, StateMap<T>>::empty(),
            state.pinned_events@ == Map::<Seq<char>, P>::empty(),
    {
        State { rooms: StateMap::new(), threads: StateMap::new(), pinned_events: StateMap::new() }
    }

    /// Sets the cache state of a thread of a room.
    pub fn insert_thread(&mut self, room_id: String, thread_id: String, item: T)
        requires
            old(self).wf(),
        ensures
            final(self).wf(),
            final(self).rooms == old(self).rooms,
            final(self).pinned_events == old(self).pinned_events,
            final(self).threads@.dom() == old(self).threads@.dom().insert(room_id@),
            forall|r: Seq<char>| r != room_id@ && #[trigger] old(self).threads@.contains_key(r)
                ==> final(self).threads@[r] == old(self).threads@[r],
            final(self).threads@[room_id@]@ == (if old(self).threads@.contains_key(room_id@) {
                old(self).threads@[room_id@]@
            } else {
                Map::<Seq<char>, T>::empty()
            }).insert(thread_id@, item),
    {
        match self.threads.get_mut(&room_id) {
            Some(threads) => {
                threads.insert(thread_id, item);
            },
            None => {
                let mut threads = StateMap::new();
                threads.insert(thread_id, item);
                self.threads.insert(room_id, threads);
            },
        }
    }
}

/// Selects a specific state of a cache inside a [`State`].
pub trait CacheState<R, T, P> {
    /// The type of the specific state of cache.
    type Item;

    /// The state that the selector picks in `state`, if there is one.
    spec fn selected(&self, state: &State<R, T, P>) -> Option<Self::Item>;

    /// `after` is `before` with the selected state set to `item`, and
    /// nothing else changed.
    spec fn replaced(&self, before: &State<R, T, P>, after: &State<R, T, P>, item: Self::Item) -> bool;

    /// Immutably select a specific state of a cache inside a [`State`].
    fn select<'state>(&self, state: &'state State<R, T, P>) -> (r: Option<&'state Self::Item>)
        requires
            state.wf(),
        ensures
            match r {
                Some(item) => self.selected(state) == Some(*item),
                None => self.selected(state) is None,
            };

    /// Mutably select a specific state of a cache inside a [`State`].
    fn select_mut<'state>(&self, state: &'state mut State<R, T, P>) -> (r: Option<&'state mut Self::Item>)
        requires
            old(state).wf(),
        ensures
            final(state).wf(),
            match r {
                Some(item) => self.selected(old(state)) == Some(*item)
                    && self.replaced(old(state), final(state), *final(item)),
                None => self.selected(old(state)) is None && *final(state) == *old(state),
            };
}

/// The state of `key` in `m`, if there is one.
pub open spec fn lookup<V>(m: Map<Seq<char>, V>, key: Seq<char>) -> Option<V> {
    if m.contains_key(key) {
        Some(m[key])
    } else {
        None
    }
}

/// Select a room's cache state in [`State`].
pub struct RoomEventCacheStateSelector(pub String);

impl<R, T, P> CacheState<R, T, P> for RoomEventCacheStateSelector {
    type Item = R;

    open spec fn selected(&self, state: &State<R, T, P>) -> Option<R> {
        lookup(state.rooms@, self.0@)
    }

    open spec fn replaced(&self, before: &State<R, T, P>, after: &State<R, T, P>, item: R) -> bool {
        &&& after.rooms@ == before.rooms@.insert(self.0@, item)
        &&& after.threads == before.threads
        &&& after.pinned_events == before.pinned_events
    }

    fn select<'state>(&self, state: &'state State<R, T, P>) -> (r: Option<&'state R>) {
        state.rooms.get(&self.0)
    }

    fn select_mut<'state>(&self, state: &'state mut State<R, T, P>) -> (r: Option<&'state mut R>) {
        state.rooms.get_mut(&self.0)
    }
}

/// Select a thread's cache state in [`State`]: the room, then the thread.
pub struct ThreadEventCacheStateSelector(pub String, pub String);

impl<R, T, P> CacheState<R, T, P> for ThreadEventCacheStateSelector {
    type Item = T;

    open spec fn selected(&self, state: &State<R, T, P>) -> Option<T> {
        if state.threads@.contains_key(self.0@) {
            lookup(state.threads@[self.0@]@, self.1@)
        } else {
            None
        }
    }

    open spec fn replaced(&self, before: &State<R, T, P>, after: &State<R, T, P>, item: T) -> bool {
        &&& after.rooms == before.rooms
        &&& after.pinned_events == before.pinned_events
        &&& after.threads@.dom() == before.threads@.dom()
        &&& forall|room: Seq<char>| room != self.0@ && #[trigger] before.threads@.contains_key(room)
            ==> after.threads@[room] == before.threads@[room]
        &&& after.threads@[self.0@]@ == before.threads@[self.0@]@.insert(self.1@, item)
    }

    fn select<'state>(&self, state: &'state State<R, T, P>) -> (r: Option<&'state T>) {
        match state.threads.get(&self.0) {
            Some(threads_for_room) => threads_for_room.get(&self.1),
            None => None,
        }
    }

    fn select_mut<'state>(&self, state: &'state mut State<R, T, P>) -> (r: Option<&'state mut T>) {
        let present = match state.threads.get(&self.0) {
            Some(threads_for_room) => threads_for_room.get(&self.1).is_some(),
            None => false,
        };
        if !present {
            return None;
        }
        proof {
            assert(state.threads@.dom().insert(self.0@) =~= state.threads@.dom());
        }
        match state.threads.get_mut(&self.0) {
            Some(threads_for_room) => threads_for_room.get_mut(&self.1),
            None => None,
        }
    }
}

/// Select a room's pinned-events cache state in [`State`].
pub struct PinnedEventCacheStateSelector(pub String);

impl<R, T, P> CacheState<R, T, P> for PinnedEventCacheStateSelector {
    type Item = P;

    open spec fn selected(&self, state: &State<R, T, P>) -> Option<P> {
        lookup(state.pinned_events@, self.0@)
    }

    open spec fn replaced(&self, before: &State<R, T, P>, after: &State<R, T, P>, item: P) -> bool {
        &&& after.pinned_events@ == before.pinned_events@.insert(self.0@, item)
        &&& after.rooms == before.rooms
        &&& after.threads == before.threads
    }

    fn select<'state>(&self, state: &'state State<R, T, P>) -> (r: Option<&'state P>) {
        state.pinned_events.get(&self.0)
    }

    fn select_mut<'state>(&self, state: &'state mut State<R, T, P>) -> (r: Option<&'state mut P>) {
        state.pinned_events.get_mut(&self.0)
    }
}

/// A room's state changed through its selector is what the selector then
/// selects.
pub proof fn lemma_room_state_reads_back<R, T, P>(
    selector: RoomEventCacheStateSelector,
    before: State<R, T, P>,
    after: State<R, T, P>,
    item: R,
)
    requires
        CacheState::<R, T, P>::replaced(&selector, &before, &after, item),
    ensures
        CacheState::<R, T, P>::selected(&selector, &after) == Some(item),
{
}

/// Changing one room's state leaves what any other room selector selects,
/// and every thread and pinned-events selection, as it was.
pub proof fn lemma_room_state_change_is_local<R, T, P>(
    changed: RoomEventCacheStateSelector,
    other: RoomEventCacheStateSelector,
    thread: ThreadEventCacheStateSelector,
    pinned: PinnedEventCacheStateSelector,
    before: State<R, T, P>,
    after: State<R, T, P>,
    item: R,
)
    requires
        CacheState::<R, T, P>::replaced(&changed, &before, &after, item),
        changed.0@ != other.0@,
    ensures
        CacheState::<R, T, P>::selected(&other, &after) == CacheState::<R, T, P>::selected(&other, &before),
        CacheState::<R, T, P>::selected(&thread, &after) == CacheState::<R, T, P>::selected(&thread, &before),
        CacheState::<R, T, P>::selected(&pinned, &after) == CacheState::<R, T, P>::selected(&pinned, &before),
{
}

/// A thread's state changed through its selector is what the selector then
/// selects.
pub proof fn lemma_thread_state_reads_back<R, T, P>(
    selector: ThreadEventCacheStateSelector,
    before: State<R, T, P>,
    after: State<R, T, P>,
    item: T,
)
    requires
        CacheState::<R, T, P>::selected(&selector, &before) is Some,
        CacheState::<R, T, P>::replaced(&selector, &before, &after, item),
    ensures
        CacheState::<R, T, P>::selected(&selector, &after) == Some(item),
{
}

/// Changing one thread's state leaves what any other thread selector
/// selects, and every room and pinned-events selection, as it was.
pub proof fn lemma_thread_state_change_is_local<R, T, P>(
    changed: ThreadEventCacheStateSelector,
    other: ThreadEventCacheStateSelector,
    room: RoomEventCacheStateSelector,
    pinned: PinnedEventCacheStateSelector,
    before: State<R, T, P>,
    after: State<R, T, P>,
    item: T,
)
    requires
        CacheState::<R, T, P>::selected(&changed, &before) is Some,
        CacheState::<R, T, P>::replaced(&changed, &before, &after, item),
        changed.0@ != other.0@ || changed.1@ != other.1@,
    ensures
        CacheState::<R, T, P>::selected(&other, &after) == CacheState::<R, T, P>::selected(&other, &before),
        CacheState::<R, T, P>::selected(&room, &after) == CacheState::<R, T, P>::selected(&room, &before),
        CacheState::<R, T, P>::selected(&pinned, &after) == CacheState::<R, T, P>::selected(&pinned, &before),
{
}

/// A room's pinned-events state changed through its selector is what the
/// selector then selects.
pub proof fn lemma_pinned_state_reads_back<R, T, P>(
    selector: PinnedEventCacheStateSelector,
    before: State<R, T, P>,
    after: State<R, T, P>,
    item: P,
)
    requires
        CacheState::<R, T, P>::replaced(&selector, &before, &after, item),
    ensures
        CacheState::<R, T, P>::selected(&selector, &after) == Some(item),
{
}

/// For every room id, the room selector selects the state stored under that
/// id in the rooms map: there is one exactly when the map holds the id.
pub proof fn lemma_room_selector_selects_stored_state<R, T, P>(room_id: String, state: State<R, T, P>)
    ensures
        CacheState::<R, T, P>::selected(&RoomEventCacheStateSelector(room_id), &state) is Some
            <==> state.rooms@.contains_key(room_id@),
        state.rooms@.contains_key(room_id@) ==> CacheState::<R, T, P>::selected(
            &RoomEventCacheStateSelector(room_id),
            &state,
        ) == Some(state.rooms@[room_id@]),
{
}

/// Any state whose rooms map is the former one with the room's entry set,
/// and nothing else changed, is a change through the room selector.
pub proof fn lemma_room_selector_accepts_room_update<R, T, P>(
    room_id: String,
    before: State<R, T, P>,
    after: State<R, T, P>,
    item: R,
)
    requires
        after.rooms@ == before.rooms@.insert(room_id@, item),
        after.threads == before.threads,
        after.pinned_events == before.pinned_events,
    ensures
        CacheState::<R, T, P>::replaced(&RoomEventCacheStateSelector(room_id), &before, &after, item),
{
}

/// For every room and thread id, the thread selector selects the state stored
/// under the thread id in the room's map of threads: there is one exactly
/// when the room has a map of threads holding the thread id.
pub proof fn lemma_thread_selector_selects_stored_state<R, T, P>(room_id: String, thread_id: String, state: State<R, T, P>)
    ensures
        CacheState::<R, T, P>::selected(&ThreadEventCacheStateSelector(room_id, thread_id), &state) is Some
            <==> (state.threads@.contains_key(room_id@) && state.threads@[room_id@]@.contains_key(thread_id@)),
        state.threads@.contains_key(room_id@) && state.threads@[room_id@]@.contains_key(thread_id@)
            ==> CacheState::<R, T, P>::selected(&ThreadEventCacheStateSelector(room_id, thread_id), &state)
                == Some(state.threads@[room_id@]@[thread_id@]),
{
}

/// Any state whose threads differ from the former ones only by the thread's
/// entry set in the room's map of threads is a change through the thread
/// selector.
pub proof fn lemma_thread_selector_accepts_thread_update<R, T, P>(
    room_id: String,
    thread_id: String,
    before: State<R, T, P>,
    after: State<R, T, P>,
    item: T,
)
    requires
        after.rooms == before.rooms,
        after.pinned_events == before.pinned_events,
        after.threads@.dom() == before.threads@.dom(),
        forall|room: Seq<char>| room != room_id@ && #[trigger] before.threads@.contains_key(room)
            ==> after.threads@[room] == before.threads@[room],
        after.threads@[room_id@]@ == before.threads@[room_id@]@.insert(thread_id@, item),
    ensures
        CacheState::<R, T, P>::replaced(&ThreadEventCacheStateSelector(room_id, thread_id), &before, &after, item),
{
}

/// For every room id, the pinned-events selector selects the state stored
/// under that id in the pinned-events map: there is one exactly when the map
/// holds the id.
pub proof fn lemma_pinned_selector_selects_stored_state<R, T, P>(room_id: String, state: State<R, T, P>)
    ensures
        CacheState::<R, T, P>::selected(&PinnedEventCacheStateSelector(room_id), &state) is Some
            <==> state.pinned_events@.contains_key(room_id@),
        state.pinned_events@.contains_key(room_id@) ==> CacheState::<R, T, P>::selected(
            &PinnedEventCacheStateSelector(room_id),
            &state,
        ) == Some(state.pinned_events@[room_id@]),
{
}

/// Any state whose pinned-events map is the former one with the room's entry
/// set, and nothing else changed, is a change through the pinned-events
/// selector.
pub proof fn lemma_pinned_selector_accepts_pinned_update<R, T, P>(
    room_id: String,
    before: State<R, T, P>,
    after: State<R, T, P>,
    item: P,
)
    requires
        after.pinned_events@ == before.pinned_events@.insert(room_id@, item),
        after.rooms == before.rooms,
        after.threads == before.threads,
    ensures
        CacheState::<R, T, P>::replaced(&PinnedEventCacheStateSelector(room_id), &before, &after, item),
{
}

impl<'a> From<&'a RoomEventCacheStateSelector> for EventCacheError {
    fn from(value: &'a RoomEventCacheStateSelector) -> (e: EventCacheError) {
        EventCacheError::RoomNotFound { room_id: value.0.clone() }
    }
}

impl<'a> vstd::std_specs::convert::FromSpecImpl<&'a RoomEventCacheStateSelector> for EventCacheError {
    open spec fn obeys_from_spec() -> bool {
        true
    }

    open spec fn from_spec(value: &'a RoomEventCacheStateSelector) -> EventCacheError {
        EventCacheError::RoomNotFound { room_id: value.0 }
    }
}

impl<'a> From<&'a ThreadEventCacheStateSelector> for EventCacheError {
    fn from(value: &'a ThreadEventCacheStateSelector) -> (e: EventCacheError) {
        EventCacheError::ThreadNotFound { room_id: value.0.clone(), thread_id: value.1.clone() }
    }
}

impl<'a> vstd::std_specs::convert::FromSpecImpl<&'a ThreadEventCacheStateSelector> for EventCacheError {
    open spec fn obeys_from_spec() -> bool {
        true
    }

    open spec fn from_spec(value: &'a ThreadEventCacheStateSelector) -> EventCacheError {
        EventCacheError::ThreadNotFound { room_id: value.0, thread_id: value.1 }
    }
}

impl<'a> From<&'a PinnedEventCacheStateSelector> for EventCacheError {
    fn from(value: &'a PinnedEventCacheStateSelector) -> (e: EventCacheError) {
        EventCacheError::PinnedEventsNotFound { room_id: value.0.clone() }
    }
}

impl<'a> vstd::std_specs::convert::FromSpecImpl<&'a PinnedEventCacheStateSelector> for EventCacheError {
    open spec fn obeys_from_spec() -> bool {
        true
    }

    open spec fn from_spec(value: &'a PinnedEventCacheStateSelector) -> EventCacheError {
        EventCacheError::PinnedEventsNotFound { room_id: value.0 }
    }
}

/// The error of a selector that found nothing names what it looked for.
pub proof fn lemma_not_found_errors_name_the_selection(room_id: String, thread_id: String)
    ensures
        <EventCacheError as vstd::std_specs::convert::FromSpec<&RoomEventCacheStateSelector>>::from_spec(
            &RoomEventCacheStateSelector(room_id),
        ) == (EventCacheError::RoomNotFound { room_id }),
        <EventCacheError as vstd::std_specs::convert::FromSpec<&ThreadEventCacheStateSelector>>::from_spec(
            &ThreadEventCacheStateSelector(room_id, thread_id),
        ) == (EventCacheError::ThreadNotFound { room_id, thread_id }),
        <EventCacheError as vstd::std_specs::convert::FromSpec<&PinnedEventCacheStateSelector>>::from_spec(
            &PinnedEventCacheStateSelector(room_id),
        ) == (EventCacheError::PinnedEventsNotFound { room_id }),
{
}

} // verus!
