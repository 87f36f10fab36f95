use matrix_client_logic::room_list_filter::{new_filter_by_room_name, RoomListEntry};

fn keeps(pattern: &str) -> bool {
    new_filter_by_room_name(pattern.to_owned()).matches(&RoomListEntry::Filled("!r:bar.org".to_owned()))
}

#[test]
fn pattern_matched_in_order() {
    assert!(keeps("room"));
    assert!(keeps("rn"));
    assert!(keeps("r_n"));
    assert!(keeps("room_name"));
    assert!(!keeps("mat"));
    assert!(!keeps("nameroom"));
}

#[test]
fn empty_pattern_keeps_everything() {
    assert!(keeps(""));
}

#[test]
fn smart_case() {
    // Lower-case patterns ignore case; one upper-case letter makes the match
    // case-sensitive.
    assert!(!keeps("Room"));
    assert!(!keeps("RN"));
}

#[test]
fn answer_does_not_depend_on_the_entry() {
    let f = new_filter_by_room_name("rm".to_owned());
    let entries = [
        RoomListEntry::Empty,
        RoomListEntry::Invalidated("!a:bar.org".to_owned()),
        RoomListEntry::Filled("!b:bar.org".to_owned()),
    ];
    for e in entries.iter() {
        assert!(f.matches(e));
    }
    let g = new_filter_by_room_name("Matrix".to_owned());
    for e in entries.iter() {
        assert!(!g.matches(e));
    }
}
