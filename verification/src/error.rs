use vstd::prelude::*;

verus! {

/// Errors of the event cache.
#[derive(Debug, PartialEq, Eq)]
pub enum EventCacheError {
    /// A back-pagination was requested while another one was running.
    AlreadyBackpaginating,
    /// No cache state exists for the room.
    RoomNotFound { room_id: String },
    /// No cache state exists for the thread of the room.
    ThreadNotFound { room_id: String, thread_id: String },
    /// No pinned-events cache state exists for the room.
    PinnedEventsNotFound { room_id: String },
}

} // verus!
