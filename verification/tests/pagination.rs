use matrix_client_logic::error::EventCacheError;
use matrix_client_logic::pagination::{
    check_previous_status, paginate_backwards_step, reversed, BackPaginationAccumulator,
    BackPaginationOutcome, EventsOrigin, LoadMoreEventsBackwardsOutcome, PaginationStep,
    ResetStatusOnDrop, RoomEventCacheUpdate, RoomPagination, RoomPaginationStatus, UntilStep,
    WAIT_FOR_INITIAL_PREV_TOKEN_SECS,
};

fn events(outcome: &BackPaginationOutcome<u32>) -> (Vec<u32>, bool) {
    match outcome {
        BackPaginationOutcome::Events { events, reached_start } => (events.clone(), *reached_start),
        BackPaginationOutcome::Gap { .. } => panic!("expected events"),
    }
}

#[test]
fn new_pagination_is_idle_without_timeline_start() {
    let p = RoomPagination::new();
    assert_eq!(p.status(), RoomPaginationStatus::Idle { hit_timeline_start: false });
}

#[test]
fn previous_status_check() {
    assert!(check_previous_status(RoomPaginationStatus::Idle { hit_timeline_start: true }).is_ok());
    assert!(check_previous_status(RoomPaginationStatus::Idle { hit_timeline_start: false }).is_ok());
    assert_eq!(
        check_previous_status(RoomPaginationStatus::Paginating),
        Err(EventCacheError::AlreadyBackpaginating)
    );
}

#[test]
fn second_pagination_is_refused_while_one_runs() {
    let mut p = RoomPagination::new();
    let guard = p.start_back_pagination().expect("first start");
    assert_eq!(p.status(), RoomPaginationStatus::Paginating);
    let second = p.start_back_pagination();
    assert!(matches!(second, Err(EventCacheError::AlreadyBackpaginating)));
    assert_eq!(p.status(), RoomPaginationStatus::Paginating);
    let _ = p.finish_back_pagination::<u32>(guard, Ok(None));
}

#[test]
fn failed_pagination_restores_previous_status() {
    let mut p = RoomPagination { status: RoomPaginationStatus::Idle { hit_timeline_start: true } };
    let guard = p.start_back_pagination().unwrap();
    let res = p.finish_back_pagination::<u32>(guard, Err(EventCacheError::AlreadyBackpaginating));
    assert_eq!(res.err(), Some(EventCacheError::AlreadyBackpaginating));
    assert_eq!(p.status(), RoomPaginationStatus::Idle { hit_timeline_start: true });
}

#[test]
fn pagination_without_outcome_restores_previous_status() {
    let mut p = RoomPagination { status: RoomPaginationStatus::Idle { hit_timeline_start: false } };
    let guard = p.start_back_pagination().unwrap();
    let res = p.finish_back_pagination::<u32>(guard, Ok(None));
    assert!(matches!(res, Ok(None)));
    assert_eq!(p.status(), RoomPaginationStatus::Idle { hit_timeline_start: false });
}

#[test]
fn successful_pagination_records_timeline_start() {
    let mut p = RoomPagination::new();
    let guard = p.start_back_pagination().unwrap();
    let outcome = BackPaginationOutcome::Events { events: vec![1u32, 2], reached_start: true };
    let res = p.finish_back_pagination(guard, Ok(Some(outcome)));
    assert_eq!(events(&res.unwrap().unwrap()), (vec![1, 2], true));
    assert_eq!(p.status(), RoomPaginationStatus::Idle { hit_timeline_start: true });

    let guard = p.start_back_pagination().unwrap();
    let gap: BackPaginationOutcome<u32> =
        BackPaginationOutcome::Gap { prev_token: Some("tok".to_owned()), reached_start: false };
    let _ = p.finish_back_pagination(guard, Ok(Some(gap)));
    assert_eq!(p.status(), RoomPaginationStatus::Idle { hit_timeline_start: false });
}

#[test]
fn disarmed_guard_does_not_reset() {
    let mut p = RoomPagination { status: RoomPaginationStatus::Paginating };
    let guard = ResetStatusOnDrop { prev_status: Some(RoomPaginationStatus::Idle { hit_timeline_start: true }) };
    let guard = guard.disarm();
    assert!(guard.prev_status.is_none());
    guard.reset(&mut p);
    assert_eq!(p.status(), RoomPaginationStatus::Paginating);

    let armed = ResetStatusOnDrop { prev_status: Some(RoomPaginationStatus::Idle { hit_timeline_start: true }) };
    armed.reset(&mut p);
    assert_eq!(p.status(), RoomPaginationStatus::Idle { hit_timeline_start: true });
}

#[test]
fn reached_start_of_outcomes() {
    let a: BackPaginationOutcome<u32> = BackPaginationOutcome::Events { events: vec![], reached_start: true };
    let b: BackPaginationOutcome<u32> = BackPaginationOutcome::Gap { prev_token: None, reached_start: false };
    assert!(a.reached_start());
    assert!(!b.reached_start());
}

#[test]
fn until_gathers_batches_until_enough_events() {
    let acc = BackPaginationAccumulator::<u32>::new(4);
    let acc = match acc.add_outcome(BackPaginationOutcome::Events { events: vec![1, 2], reached_start: false }) {
        UntilStep::Continue(acc) => acc,
        UntilStep::Done(_) => panic!("not enough events yet"),
    };
    assert_eq!(acc.all_events, vec![1, 2]);
    let acc = match acc.add_outcome(BackPaginationOutcome::Gap { prev_token: Some("t".to_owned()), reached_start: false }) {
        UntilStep::Continue(acc) => acc,
        UntilStep::Done(_) => panic!("a gap not at the start goes on"),
    };
    assert_eq!(acc.all_events, vec![1, 2]);
    match acc.add_outcome(BackPaginationOutcome::Events { events: vec![3, 4, 5], reached_start: false }) {
        UntilStep::Done(outcome) => assert_eq!(events(&outcome), (vec![1, 2, 3, 4, 5], false)),
        UntilStep::Continue(_) => panic!("enough events"),
    }
}

#[test]
fn until_stops_at_timeline_start() {
    let acc = BackPaginationAccumulator::<u32>::new(100);
    match acc.add_outcome(BackPaginationOutcome::Events { events: vec![7], reached_start: true }) {
        UntilStep::Done(outcome) => assert_eq!(events(&outcome), (vec![7], true)),
        UntilStep::Continue(_) => panic!("start reached"),
    }
    let acc = BackPaginationAccumulator::<u32> { all_events: vec![9, 8], num_requested_events: 100 };
    match acc.add_outcome(BackPaginationOutcome::Gap { prev_token: None, reached_start: true }) {
        UntilStep::Done(outcome) => assert_eq!(events(&outcome), (vec![9, 8], true)),
        UntilStep::Continue(_) => panic!("start reached"),
    }
}

#[test]
fn until_with_zero_requested_stops_at_first_batch() {
    let acc = BackPaginationAccumulator::<u32>::new(0);
    match acc.add_outcome(BackPaginationOutcome::Events { events: vec![], reached_start: false }) {
        UntilStep::Done(outcome) => assert_eq!(events(&outcome), (vec![], false)),
        UntilStep::Continue(_) => panic!("nothing was requested"),
    }
}

#[test]
fn reversed_events() {
    assert_eq!(reversed(vec![1u32, 2, 3]), vec![3, 2, 1]);
    assert_eq!(reversed(Vec::<u32>::new()), Vec::<u32>::new());
}

#[test]
fn step_waits_for_initial_token() {
    let step = paginate_backwards_step::<u32, u8>(LoadMoreEventsBackwardsOutcome::WaitForInitialPrevToken);
    assert!(matches!(step, PaginationStep::WaitForInitialPrevToken));
    assert_eq!(WAIT_FOR_INITIAL_PREV_TOKEN_SECS, 3);
}

#[test]
fn step_announces_gap() {
    let step = paginate_backwards_step::<u32, u8>(LoadMoreEventsBackwardsOutcome::Gap {
        prev_token: Some("prev".to_owned()),
        reached_on_disk_start: true,
    });
    match step {
        PaginationStep::Finished { outcome, update, notify_room } => {
            assert!(!notify_room);
            match outcome {
                BackPaginationOutcome::Gap { prev_token, reached_start } => {
                    assert_eq!(prev_token.as_deref(), Some("prev"));
                    assert!(reached_start);
                }
                _ => panic!("expected a gap"),
            }
            match update {
                Some(RoomEventCacheUpdate::PrependTimelineGap { prev_token, origin }) => {
                    assert_eq!(prev_token.as_deref(), Some("prev"));
                    assert_eq!(origin, EventsOrigin::Cache);
                }
                _ => panic!("expected a gap update"),
            }
        }
        PaginationStep::WaitForInitialPrevToken => panic!("expected a finished step"),
    }
}

#[test]
fn step_start_of_timeline() {
    let step = paginate_backwards_step::<u32, u8>(LoadMoreEventsBackwardsOutcome::StartOfTimeline);
    match step {
        PaginationStep::Finished { outcome, update, notify_room } => {
            assert_eq!(events(&outcome), (vec![], true));
            assert!(update.is_none());
            assert!(!notify_room);
        }
        PaginationStep::WaitForInitialPrevToken => panic!("expected a finished step"),
    }
}

#[test]
fn step_events_are_reversed_and_diffs_sent() {
    let step = paginate_backwards_step::<u32, u8>(LoadMoreEventsBackwardsOutcome::Events {
        events: vec![1, 2, 3],
        timeline_event_diffs: vec![10, 11],
        reached_on_disk_start: false,
    });
    match step {
        PaginationStep::Finished { outcome, update, notify_room } => {
            assert_eq!(events(&outcome), (vec![3, 2, 1], false));
            assert!(notify_room);
            match update {
                Some(RoomEventCacheUpdate::UpdateTimelineEvents { diffs, origin }) => {
                    assert_eq!(diffs, vec![10, 11]);
                    assert_eq!(origin, EventsOrigin::Cache);
                }
                _ => panic!("expected a timeline update"),
            }
        }
        PaginationStep::WaitForInitialPrevToken => panic!("expected a finished step"),
    }

    let step = paginate_backwards_step::<u32, u8>(LoadMoreEventsBackwardsOutcome::Events {
        events: vec![4],
        timeline_event_diffs: vec![],
        reached_on_disk_start: true,
    });
    match step {
        PaginationStep::Finished { outcome, update, notify_room } => {
            assert_eq!(events(&outcome), (vec![4], true));
            assert!(update.is_none());
            assert!(!notify_room);
        }
        PaginationStep::WaitForInitialPrevToken => panic!("expected a finished step"),
    }
}
