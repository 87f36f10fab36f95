//! Back-pagination of a room's event cache: the pagination status, the guard
//! that puts the status back when a pagination gives up, and the decisions of
//! the pagination loops.

use vstd::prelude::*;
use crate::error::EventCacheError;

verus! {

/// Status for the back-pagination on a room event cache.
#[derive(Debug, PartialEq, Eq, Structural, Clone, Copy)]
pub enum RoomPaginationStatus {
    /// No back-pagination is happening right now.
    Idle {
        /// Have we hit the start of the timeline, i.e. back-paginating
        /// wouldn't have any effect?
        hit_timeline_start: bool,
    },
    /// Back-pagination is already running in the background.
    Paginating,
}

/// The result of a back-pagination. Events are in reverse order: the first
/// one is the most recent.
pub enum BackPaginationOutcome<E> {
    /// Events were loaded.
    Events { events: Vec<E>, reached_start: bool },
    /// A gap was met; the token resolves it over the network.
    Gap { prev_token: Option<String>, reached_start: bool },
}

impl<E> BackPaginationOutcome<E> {
    /// Whether the start of the timeline was reached.
    pub open spec fn spec_reached_start(&self) -> bool {
        match self {
            BackPaginationOutcome::Events { reached_start, .. } => *reached_start,
            BackPaginationOutcome::Gap { reached_start, .. } => *reached_start,
        }
    }

    /// Whether the start of the timeline was reached.
    pub fn reached_start(&self) -> (r: bool)
        ensures
            r == self.spec_reached_start(),
            self matches BackPaginationOutcome::Events { reached_start, .. } ==> r == reached_start,
            self matches BackPaginationOutcome::Gap { reached_start, .. } ==> r == reached_start,
    {
        match self {
            BackPaginationOutcome::Events { reached_start, .. } => *reached_start,
            BackPaginationOutcome::Gap { reached_start, .. } => *reached_start,
        }
    }
}

/// Whether a back-pagination may start while the status is `status`: only
/// an idle cache may start one.
pub open spec fn may_start(status: RoomPaginationStatus) -> bool {
    status is Idle
}

/// The status after a back-pagination ended with `result`, where `restore`
/// is what the guard of the pagination holds and `current` the status
/// before.
pub open spec fn status_after<E>(
    restore: Option<RoomPaginationStatus>,
    current: RoomPaginationStatus,
    result: Result<Option<BackPaginationOutcome<E>>, EventCacheError>,
) -> RoomPaginationStatus {
    match result {
        Ok(Some(outcome)) => RoomPaginationStatus::Idle {
            hit_timeline_start: outcome.spec_reached_start(),
        },
        _ => match restore {
            Some(prev) => prev,
            None => current,
        },
    }
}

/// Checks the status that was replaced by `Paginating` when a back-pagination
/// starts: only an idle cache may start one.
pub fn check_previous_status(prev: RoomPaginationStatus) -> (res: Result<(), EventCacheError>)
    ensures
        res is Ok <==> may_start(prev),
        res is Err ==> res == Err::<(), EventCacheError>(EventCacheError::AlreadyBackpaginating),
{
    match prev {
        RoomPaginationStatus::Idle { .. } => Ok(()),
        RoomPaginationStatus::Paginating => Err(EventCacheError::AlreadyBackpaginating),
    }
}

/// Guard that puts the pagination status back to what it was before the
/// pagination started, unless it was disarmed.
pub struct ResetStatusOnDrop {
    pub prev_status: Option<RoomPaginationStatus>,
}

impl ResetStatusOnDrop {
    /// Make the guard have no effect.
    pub fn disarm(self) -> (disarmed: ResetStatusOnDrop)
        ensures
            disarmed.prev_status is None,
    {
        ResetStatusOnDrop { prev_status: None }
    }

    /// What dropping the guard does: put the status back when the guard is
    /// still armed.
    pub fn reset(self, pagination: &mut RoomPagination)
        ensures
            final(pagination).status == (match self.prev_status {
                Some(prev) => prev,
                None => old(pagination).status,
            }),
    {
        if let Some(status) = self.prev_status {
            pagination.status = status;
        }
    }
}

/// The pagination state of a room event cache.
pub struct RoomPagination {
    pub status: RoomPaginationStatus,
}

impl RoomPagination {
    /// A cache on which no back-pagination ran yet.
    pub fn new() -> (p: RoomPagination)
        ensures
            p.status == (RoomPaginationStatus::Idle { hit_timeline_start: false }),
    {
        RoomPagination { status: RoomPaginationStatus::Idle { hit_timeline_start: false } }
    }

    /// The current pagination status.
    pub fn status(&self) -> (s: RoomPaginationStatus)
        ensures
            s == self.status,
    {
        self.status
    }

    /// Marks a back-pagination as running. Fails when one is running already;
    /// the status is `Paginating` afterwards in both cases. On success, the
    /// guard holds the status to put back if the pagination gives up.
    pub fn start_back_pagination(&mut self) -> (res: Result<ResetStatusOnDrop, EventCacheError>)
        ensures
            final(self).status == RoomPaginationStatus::Paginating,
            res is Ok <==> may_start(old(self).status),
            res matches Ok(guard) ==> guard.prev_status == Some(old(self).status),
            res matches Err(e) ==> e == EventCacheError::AlreadyBackpaginating,
    {
        let prev = self.status;
        self.status = RoomPaginationStatus::Paginating;
        match check_previous_status(prev) {
            Ok(()) => Ok(ResetStatusOnDrop { prev_status: Some(prev) }),
            Err(e) => Err(e),
        }
    }

    /// Ends a back-pagination with the result of the pagination itself. A
    /// pagination that produced an outcome leaves the cache idle, recording
    /// whether the start of the timeline was hit; otherwise the guard puts
    /// the previous status back. The result is handed back unchanged.
    pub fn finish_back_pagination<E>(
        &mut self,
        guard: ResetStatusOnDrop,
        result: Result<Option<BackPaginationOutcome<E>>, EventCacheError>,
    ) -> (res: Result<Option<BackPaginationOutcome<E>>, EventCacheError>)
        ensures
            res == result,
            final(self).status == status_after(guard.prev_status, old(self).status, result),
            result matches Ok(Some(BackPaginationOutcome::Events { reached_start, .. }))
                ==> final(self).status == (RoomPaginationStatus::Idle { hit_timeline_start: reached_start }),
            result matches Ok(Some(BackPaginationOutcome::Gap { reached_start, .. }))
                ==> final(self).status == (RoomPaginationStatus::Idle { hit_timeline_start: reached_start }),
    {
        match result {
            Ok(Some(outcome)) => {
                let _disarmed = guard.disarm();
                self.status = RoomPaginationStatus::Idle {
                    hit_timeline_start: outcome.reached_start(),
                };
                Ok(Some(outcome))
            },
            other => {
                guard.reset(self);
                other
            },
        }
    }
}


/// Events gathered over the back-paginations that `run_backwards_until`
/// runs, and the number of events that was asked for.
pub struct BackPaginationAccumulator<E> {
    pub all_events: Vec<E>,
    pub num_requested_events: u16,
}

/// What the loop of `run_backwards_until` does after one back-pagination.
pub enum UntilStep<E> {
    /// Stop, and answer with this outcome.
    Done(BackPaginationOutcome<E>),
    /// Run another back-pagination.
    Continue(BackPaginationAccumulator<E>),
}

impl<E> BackPaginationAccumulator<E> {
    /// Nothing gathered yet.
    pub fn new(num_requested_events: u16) -> (acc: BackPaginationAccumulator<E>)
        ensures
            acc.all_events@ == Seq::<E>::empty(),
            acc.num_requested_events == num_requested_events,
    {
        BackPaginationAccumulator { all_events: Vec::new(), num_requested_events }
    }

    /// Takes the outcome of one back-pagination into account. Loaded events
    /// are appended to those gathered so far. The loop stops once the start
    /// of the timeline was reached or at least the requested number of
    /// events was gathered, answering with all the gathered events; a gap
    /// that does not reach the start makes it run again.
    pub fn add_outcome(self, outcome: BackPaginationOutcome<E>) -> (step: UntilStep<E>)
        ensures
            match outcome {
                BackPaginationOutcome::Events { events, reached_start } => {
                    let total = self.all_events@ + events@;
                    if reached_start || total.len() >= self.num_requested_events {
                        step matches UntilStep::Done(BackPaginationOutcome::Events { events: all, reached_start: r })
                            && all@ == total && r == reached_start
                    } else {
                        step matches UntilStep::Continue(acc)
                            && acc.all_events@ == total
                            && acc.num_requested_events == self.num_requested_events
                    }
                },
                BackPaginationOutcome::Gap { reached_start, .. } => {
                    if reached_start {
                        step matches UntilStep::Done(BackPaginationOutcome::Events { events: all, reached_start: r })
                            && all@ == self.all_events@ && r
                    } else {
                        step matches UntilStep::Continue(acc)
                            && acc.all_events@ == self.all_events@
                            && acc.num_requested_events == self.num_requested_events
                    }
                },
            },
    {
        let BackPaginationAccumulator { all_events, num_requested_events } = self;
        let mut all_events = all_events;
        match outcome {
            BackPaginationOutcome::Events { reached_start, events } => {
                let mut events = events;
                all_events.append(&mut events);
                if reached_start || all_events.len() >= num_requested_events as usize {
                    UntilStep::Done(BackPaginationOutcome::Events { events: all_events, reached_start })
                } else {
                    UntilStep::Continue(BackPaginationAccumulator { all_events, num_requested_events })
                }
            },
            BackPaginationOutcome::Gap { reached_start, .. } => {
                if reached_start {
                    UntilStep::Done(BackPaginationOutcome::Events { events: all_events, reached_start })
                } else {
                    UntilStep::Continue(BackPaginationAccumulator { all_events, num_requested_events })
                }
            },
        }
    }
}

/// Where events of a cache update come from.
#[derive(Debug, PartialEq, Eq, Structural, Clone, Copy)]
pub enum EventsOrigin {
    /// From a sync response.
    Sync,
    /// From a network back-pagination.
    Pagination,
    /// From the event cache's storage.
    Cache,
}

/// An update of a room event cache, sent to its observers.
pub enum RoomEventCacheUpdate<D> {
    /// A gap was met while back-paginating.
    PrependTimelineGap { prev_token: Option<String>, origin: EventsOrigin },
    /// The timeline changed by these diffs.
    UpdateTimelineEvents { diffs: Vec<D>, origin: EventsOrigin },
}

/// What loading more events backwards from storage gave.
pub enum LoadMoreEventsBackwardsOutcome<E, D> {
    /// A gap was met.
    Gap { prev_token: Option<String>, reached_on_disk_start: bool },
    /// The start of the timeline was reached.
    StartOfTimeline,
    /// Events were loaded, in timeline order, with the diffs they caused.
    Events { events: Vec<E>, timeline_event_diffs: Vec<D>, reached_on_disk_start: bool },
    /// No previous-batch token was ever received: wait for one first.
    WaitForInitialPrevToken,
}

/// How long a back-pagination waits, at most, for the first
/// previous-batch token, in seconds.
pub const WAIT_FOR_INITIAL_PREV_TOKEN_SECS: u64 = 3;

/// What a back-pagination from storage does after one load.
pub enum PaginationStep<E, D> {
    /// Release the state, wait for a previous-batch token (at most
    /// `WAIT_FOR_INITIAL_PREV_TOKEN_SECS`), record that it waited, and load
    /// again.
    WaitForInitialPrevToken,
    /// Send `update` to the cache's observers if there is one, send a generic
    /// update of the room if `notify_room`, and answer with `outcome`.
    Finished {
        outcome: BackPaginationOutcome<E>,
        update: Option<RoomEventCacheUpdate<D>>,
        notify_room: bool,
    },
}

/// A copy of a pagination token.
fn copy_token(token: &Option<String>) -> (copy: Option<String>)
    ensures
        copy == *token,
{
    match token {
        Some(t) => Some(t.clone()),
        None => None,
    }
}

/// The events in reverse order.
pub fn reversed<E>(events: Vec<E>) -> (rev: Vec<E>)
    ensures
        rev@ == events@.reverse(),
{
    let mut rest = events;
    let mut rev: Vec<E> = Vec::new();
    while rest.len() > 0
        invariant
            rev@ + rest@.reverse() == events@.reverse(),
        decreases rest.len(),
    {
        let ghost before = rest@;
        let e = rest.pop().unwrap();
        proof {
            assert(before == rest@.push(e));
            assert(before.reverse() =~= seq![e] + rest@.reverse());
            assert(rev@.push(e) + rest@.reverse() =~= rev@ + (seq![e] + rest@.reverse()));
        }
        rev.push(e);
    }
    proof {
        assert(rest@.reverse() =~= Seq::<E>::empty());
        assert(rev@ + rest@.reverse() =~= rev@);
    }
    rev
}

/// Decides what a back-pagination from storage does with what one load gave.
/// A gap is announced to the observers and answered with its token; the
/// start of the timeline is answered with no events; loaded events are
/// answered in reverse order, and their diffs, when there are any, are sent
/// to the observers together with a generic update of the room.
pub fn paginate_backwards_step<E, D>(loaded: LoadMoreEventsBackwardsOutcome<E, D>) -> (step: PaginationStep<E, D>)
    ensures
        match loaded {
            LoadMoreEventsBackwardsOutcome::WaitForInitialPrevToken =>
                step is WaitForInitialPrevToken,
            LoadMoreEventsBackwardsOutcome::Gap { prev_token, reached_on_disk_start } =>
                step matches PaginationStep::Finished {
                    outcome: BackPaginationOutcome::Gap { prev_token: t, reached_start },
                    update: Some(RoomEventCacheUpdate::PrependTimelineGap { prev_token: u, origin }),
                    notify_room,
                } && t == prev_token && u == prev_token && reached_start == reached_on_disk_start
                  && origin == EventsOrigin::Cache && !notify_room,
            LoadMoreEventsBackwardsOutcome::StartOfTimeline =>
                step matches PaginationStep::Finished {
                    outcome: BackPaginationOutcome::Events { events, reached_start },
                    update: None,
                    notify_room,
                } && events@.len() == 0 && reached_start && !notify_room,
            LoadMoreEventsBackwardsOutcome::Events { events, timeline_event_diffs, reached_on_disk_start } =>
                step matches PaginationStep::Finished {
                    outcome: BackPaginationOutcome::Events { events: answered, reached_start },
                    update,
                    notify_room,
                } && answered@ == events@.reverse() && reached_start == reached_on_disk_start
                  && notify_room == (timeline_event_diffs@.len() > 0)
                  && (if timeline_event_diffs@.len() > 0 {
                        update matches Some(RoomEventCacheUpdate::UpdateTimelineEvents { diffs, origin })
                          && diffs@ == timeline_event_diffs@ && origin == EventsOrigin::Cache
                     } else {
                        update is None
                     }),
        },
{
    match loaded {
        LoadMoreEventsBackwardsOutcome::WaitForInitialPrevToken => PaginationStep::WaitForInitialPrevToken,
        LoadMoreEventsBackwardsOutcome::Gap { prev_token, reached_on_disk_start } => {
            let update = RoomEventCacheUpdate::PrependTimelineGap {
                prev_token: copy_token(&prev_token),
                origin: EventsOrigin::Cache,
            };
            PaginationStep::Finished {
                outcome: BackPaginationOutcome::Gap { prev_token, reached_start: reached_on_disk_start },
                update: Some(update),
                notify_room: false,
            }
        },
        LoadMoreEventsBackwardsOutcome::StartOfTimeline => PaginationStep::Finished {
            outcome: BackPaginationOutcome::Events { events: Vec::new(), reached_start: true },
            update: None,
            notify_room: false,
        },
        LoadMoreEventsBackwardsOutcome::Events { events, timeline_event_diffs, reached_on_disk_start } => {
            let has_diffs = timeline_event_diffs.len() > 0;
            let update = if has_diffs {
                Some(RoomEventCacheUpdate::UpdateTimelineEvents {
                    diffs: timeline_event_diffs,
                    origin: EventsOrigin::Cache,
                })
            } else {
                None
            };
            PaginationStep::Finished {
                outcome: BackPaginationOutcome::Events {
                    events: reversed(events),
                    reached_start: reached_on_disk_start,
                },
                update,
                notify_room: has_diffs,
            }
        },
    }
}

/// While a back-pagination runs, another one is refused.
pub proof fn lemma_running_pagination_refuses_another()
    ensures
        !may_start(RoomPaginationStatus::Paginating),
{
}

/// A back-pagination that started on an idle cache and then failed, or
/// produced no outcome, leaves the status as it was before it started.
pub proof fn lemma_unsuccessful_pagination_restores_status<E>(
    before: RoomPaginationStatus,
    result: Result<Option<BackPaginationOutcome<E>>, EventCacheError>,
)
    requires
        may_start(before),
        !(result matches Ok(Some(_))),
    ensures
        status_after(Some(before), RoomPaginationStatus::Paginating, result) == before,
{
}

/// A back-pagination that produced an outcome leaves the cache idle and
/// records whether the start of the timeline was hit.
pub proof fn lemma_successful_pagination_records_timeline_start<E>(
    before: RoomPaginationStatus,
    outcome: BackPaginationOutcome<E>,
)
    ensures
        status_after(Some(before), RoomPaginationStatus::Paginating, Ok::<Option<BackPaginationOutcome<E>>, EventCacheError>(Some(outcome)))
            == (RoomPaginationStatus::Idle { hit_timeline_start: outcome.spec_reached_start() }),
{
}

/// Every back-pagination that was allowed to start leaves the cache idle when
/// it ends, whatever its result.
pub proof fn lemma_started_pagination_ends_idle<E>(
    before: RoomPaginationStatus,
    result: Result<Option<BackPaginationOutcome<E>>, EventCacheError>,
)
    requires
        may_start(before),
    ensures
        status_after(Some(before), RoomPaginationStatus::Paginating, result) is Idle,
{
}

/// Whether an outcome reached the start of the timeline is the
/// `reached_start` flag that the outcome carries, for loaded events and for
/// gaps alike.
pub proof fn lemma_reached_start_is_the_outcome_flag<E>(events: Vec<E>, prev_token: Option<String>, flag: bool)
    ensures
        (BackPaginationOutcome::Events { events, reached_start: flag }).spec_reached_start() == flag,
        (BackPaginationOutcome::<E>::Gap { prev_token, reached_start: flag }).spec_reached_start() == flag,
{
}

/// A back-pagination that started on an idle cache and produced an outcome
/// leaves the cache idle with `hit_timeline_start` equal to the outcome's
/// `reached_start` flag: true exactly when the outcome says the start of the
/// timeline was reached.
pub proof fn lemma_pagination_reports_outcome_flag<E>(
    before: RoomPaginationStatus,
    events: Vec<E>,
    prev_token: Option<String>,
    flag: bool,
)
    requires
        may_start(before),
    ensures
        status_after(
            Some(before),
            RoomPaginationStatus::Paginating,
            Ok::<Option<BackPaginationOutcome<E>>, EventCacheError>(Some(BackPaginationOutcome::Events { events, reached_start: flag })),
        ) == (RoomPaginationStatus::Idle { hit_timeline_start: flag }),
        status_after(
            Some(before),
            RoomPaginationStatus::Paginating,
            Ok::<Option<BackPaginationOutcome<E>>, EventCacheError>(Some(BackPaginationOutcome::Gap { prev_token, reached_start: flag })),
        ) == (RoomPaginationStatus::Idle { hit_timeline_start: flag }),
{
}

} // verus!
