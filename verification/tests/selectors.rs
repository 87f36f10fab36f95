use matrix_client_logic::error::EventCacheError;
use matrix_client_logic::selectors::{
    CacheState, PinnedEventCacheStateSelector, RoomEventCacheStateSelector, State, StateMap,
    ThreadEventCacheStateSelector,
};

fn state() -> State<u32, &'static str, u64> {
    let mut s: State<u32, &'static str, u64> = State::new();
    s.rooms.insert("!a".to_owned(), 1);
    s.rooms.insert("!b".to_owned(), 2);
    s.insert_thread("!a".to_owned(), "$t1".to_owned(), "thread one");
    s.insert_thread("!a".to_owned(), "$t2".to_owned(), "thread two");
    s.pinned_events.insert("!b".to_owned(), 20);
    s
}

#[test]
fn state_map_insert_get() {
    let mut m: StateMap<u32> = StateMap::new();
    assert_eq!(m.insert("k".to_owned(), 1), None);
    assert_eq!(m.insert("k".to_owned(), 2), Some(1));
    assert_eq!(m.get(&"k".to_owned()), Some(&2));
    assert_eq!(m.get(&"x".to_owned()), None);
    if let Some(v) = m.get_mut(&"k".to_owned()) {
        *v = 3;
    }
    assert_eq!(m.get(&"k".to_owned()), Some(&3));
    assert!(m.get_mut(&"x".to_owned()).is_none());
}

#[test]
fn select_room() {
    let s = state();
    assert_eq!(RoomEventCacheStateSelector("!a".to_owned()).select(&s), Some(&1));
    assert_eq!(RoomEventCacheStateSelector("!b".to_owned()).select(&s), Some(&2));
    assert_eq!(RoomEventCacheStateSelector("!c".to_owned()).select(&s), None);
}

#[test]
fn select_thread() {
    let s = state();
    assert_eq!(
        ThreadEventCacheStateSelector("!a".to_owned(), "$t2".to_owned()).select(&s),
        Some(&"thread two")
    );
    assert_eq!(ThreadEventCacheStateSelector("!a".to_owned(), "$t3".to_owned()).select(&s), None);
    assert_eq!(ThreadEventCacheStateSelector("!b".to_owned(), "$t1".to_owned()).select(&s), None);
}

#[test]
fn select_pinned() {
    let s = state();
    assert_eq!(PinnedEventCacheStateSelector("!b".to_owned()).select(&s), Some(&20));
    assert_eq!(PinnedEventCacheStateSelector("!a".to_owned()).select(&s), None);
}

#[test]
fn select_mut_reads_back_and_is_local() {
    let mut s = state();
    let room = RoomEventCacheStateSelector("!a".to_owned());
    *room.select_mut(&mut s).unwrap() = 100;
    assert_eq!(room.select(&s), Some(&100));
    assert_eq!(RoomEventCacheStateSelector("!b".to_owned()).select(&s), Some(&2));

    let thread = ThreadEventCacheStateSelector("!a".to_owned(), "$t1".to_owned());
    *thread.select_mut(&mut s).unwrap() = "changed";
    assert_eq!(thread.select(&s), Some(&"changed"));
    assert_eq!(
        ThreadEventCacheStateSelector("!a".to_owned(), "$t2".to_owned()).select(&s),
        Some(&"thread two")
    );

    let pinned = PinnedEventCacheStateSelector("!b".to_owned());
    *pinned.select_mut(&mut s).unwrap() = 21;
    assert_eq!(pinned.select(&s), Some(&21));

    assert!(RoomEventCacheStateSelector("!zz".to_owned()).select_mut(&mut s).is_none());
    assert!(ThreadEventCacheStateSelector("!a".to_owned(), "$none".to_owned()).select_mut(&mut s).is_none());
    assert!(ThreadEventCacheStateSelector("!none".to_owned(), "$t1".to_owned()).select_mut(&mut s).is_none());
    assert!(PinnedEventCacheStateSelector("!a".to_owned()).select_mut(&mut s).is_none());
    assert_eq!(room.select(&s), Some(&100));
}

#[test]
fn errors_from_selectors() {
    assert_eq!(
        EventCacheError::from(&RoomEventCacheStateSelector("!a".to_owned())),
        EventCacheError::RoomNotFound { room_id: "!a".to_owned() }
    );
    assert_eq!(
        EventCacheError::from(&ThreadEventCacheStateSelector("!a".to_owned(), "$t".to_owned())),
        EventCacheError::ThreadNotFound { room_id: "!a".to_owned(), thread_id: "$t".to_owned() }
    );
    assert_eq!(
        EventCacheError::from(&PinnedEventCacheStateSelector("!p".to_owned())),
        EventCacheError::PinnedEventsNotFound { room_id: "!p".to_owned() }
    );
}
