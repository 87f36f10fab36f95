//! Decisions of the room key backup tasks: which undecryptable events ask for
//! a key download, the queue of running downloads, the steps of one download
//! and the upload progress after a backup.

use vstd::prelude::*;
use crate::task_queue::{has_key, lemma_room_key_lt_irreflexive, same_key, RoomKeyInfo, TaskQueue};
use ruma::events::room::encrypted::{EncryptedEventScheme, OriginalSyncRoomEncryptedEvent};

verus! {

/// How long a download waits before it looks for the key, in milliseconds:
/// the key may arrive in the meantime.
pub const DOWNLOAD_DELAY_MILLIS: u64 = 100;

/// When this many downloads are queued, the queue is emptied (its tasks are
/// awaited) before the next request is handled.
pub const MAX_QUEUED_DOWNLOADS: usize = 10;

/// The longest time a key whose download failed is not asked for again, in
/// seconds: one day.
pub const FAILURES_CACHE_MAX_DELAY_SECS: u64 = 60 * 60 * 24;

/// The backoff setting of the cache of failed downloads.
pub const FAILURES_CACHE_BACKOFF: u8 = 60;

/// Information about a request for a backup download for an undecryptable
/// event.
pub struct RoomKeyDownloadRequest {
    /// The room in which the event was sent.
    pub room_id: String,
    /// The ID of the event we could not decrypt.
    pub event_id: String,
    /// The megolm session that the event was encrypted with.
    pub megolm_session_id: String,
}

impl RoomKeyDownloadRequest {
    /// The room and the megolm session of the request.
    pub fn to_room_key_info(&self) -> (info: RoomKeyInfo)
        ensures
            info == (self.room_id, self.megolm_session_id),
    {
        (self.room_id.clone(), self.megolm_session_id.clone())
    }
}

/// The encryption scheme of a room-encrypted event.
pub enum EncryptionScheme {
    /// `m.megolm.v1.aes-sha2`, with the ID of the megolm session.
    MegolmV1AesSha2 { session_id: String },
    /// `m.olm.v1.curve25519-aes-sha2`.
    OlmV1Curve25519AesSha2,
    /// A scheme this library does not know.
    Other,
}

/// What the download logic reads of a room-encrypted event.
pub struct EncryptedEvent {
    pub event_id: String,
    pub scheme: EncryptionScheme,
}

/// What ruma gives when it deserializes `json` as a room-encrypted event of a
/// sync response: `None` when it refuses the text.
pub uninterp spec fn decoded_encrypted_event(json: Seq<char>) -> Option<EncryptedEvent>;

/// Deserializes `json` as an `OriginalSyncRoomEncryptedEvent` with ruma's
/// `Raw::from_json_string` and `Raw::deserialize`. Trusted: the result is
/// `decoded_encrypted_event(json@)`, a function of the text alone; what ruma
/// accepts is not stated here.
#[verifier::external_body]
fn decode_encrypted_event(json: &str) -> (event: Option<EncryptedEvent>)
    ensures
        event == decoded_encrypted_event(json@),
{
    let raw = ruma::serde::Raw::<OriginalSyncRoomEncryptedEvent>::from_json_string(json.to_owned()).ok()?;
    let event = raw.deserialize().ok()?;
    let scheme = match event.content.scheme {
        EncryptedEventScheme::MegolmV1AesSha2(c) => EncryptionScheme::MegolmV1AesSha2 { session_id: c.session_id },
        EncryptedEventScheme::OlmV1Curve25519AesSha2(_) => EncryptionScheme::OlmV1Curve25519AesSha2,
        _ => EncryptionScheme::Other,
    };
    Some(EncryptedEvent { event_id: event.event_id.to_string(), scheme })
}

/// The download request for an undecryptable event of the room: there is one
/// only for an event that was decoded and is encrypted with megolm.
pub open spec fn spec_download_request(room_id: String, event: Option<EncryptedEvent>) -> Option<RoomKeyDownloadRequest> {
    match event {
        Some(EncryptedEvent { event_id, scheme: EncryptionScheme::MegolmV1AesSha2 { session_id } }) =>
            Some(RoomKeyDownloadRequest { room_id, event_id, megolm_session_id: session_id }),
        _ => None,
    }
}

/// The download request for an undecryptable event of the room: there is one
/// only for an event that was decoded and is encrypted with megolm.
pub fn download_request_for_event(room_id: String, event: Option<EncryptedEvent>) -> (request: Option<RoomKeyDownloadRequest>)
    ensures
        request == spec_download_request(room_id, event),
        event matches Some(EncryptedEvent { event_id, scheme: EncryptionScheme::MegolmV1AesSha2 { session_id } })
            ==> request == Some(RoomKeyDownloadRequest { room_id, event_id, megolm_session_id: session_id }),
        !(event matches Some(EncryptedEvent { scheme: EncryptionScheme::MegolmV1AesSha2 { .. }, .. })) ==> request is None,
{
    match event {
        Some(EncryptedEvent { event_id, scheme: EncryptionScheme::MegolmV1AesSha2 { session_id } }) =>
            Some(RoomKeyDownloadRequest { room_id, event_id, megolm_session_id: session_id }),
        _ => None,
    }
}

/// The download to ask the listener for, for the undecryptable event whose
/// JSON is `event_json`: none unless the event deserializes and is encrypted
/// with `m.megolm.v1.aes-sha2`.
pub fn trigger_download_for_utd_event(room_id: String, event_json: &str) -> (request: Option<RoomKeyDownloadRequest>)
    ensures
        request == spec_download_request(room_id, decoded_encrypted_event(event_json@)),
        decoded_encrypted_event(event_json@) matches Some(EncryptedEvent { event_id, scheme: EncryptionScheme::MegolmV1AesSha2 { session_id } })
            ==> request == Some(RoomKeyDownloadRequest { room_id, event_id, megolm_session_id: session_id }),
        !(decoded_encrypted_event(event_json@) matches Some(EncryptedEvent { scheme: EncryptionScheme::MegolmV1AesSha2 { .. }, .. }))
            ==> request is None,
{
    let event = decode_encrypted_event(event_json);
    download_request_for_event(room_id, event)
}

/// Every decoded event encrypted with megolm, whatever its session id, gets a
/// download request for its room, its event id and its session id.
pub proof fn lemma_megolm_event_gets_request(room_id: String, event_id: String, session_id: String)
    ensures
        spec_download_request(
            room_id,
            Some(EncryptedEvent { event_id, scheme: EncryptionScheme::MegolmV1AesSha2 { session_id } }),
        ) == Some(RoomKeyDownloadRequest { room_id, event_id, megolm_session_id: session_id }),
{
}

/// An event that was not decoded, or is not encrypted with megolm, gets no
/// download request.
pub proof fn lemma_non_megolm_event_gets_no_request(room_id: String, event: Option<EncryptedEvent>)
    requires
        !(event matches Some(EncryptedEvent { scheme: EncryptionScheme::MegolmV1AesSha2 { .. }, .. })),
    ensures
        spec_download_request(room_id, event) is None,
{
}

/// A request, when there is one, is for the room it was asked for and for
/// the event's id and megolm session.
pub proof fn lemma_request_carries_event_identifiers(room_id: String, event: Option<EncryptedEvent>)
    ensures
        spec_download_request(room_id, event) matches Some(r) ==> {
            &&& r.room_id == room_id
            &&& event matches Some(e)
            &&& r.event_id == e.event_id
            &&& e.scheme matches EncryptionScheme::MegolmV1AesSha2 { session_id }
            &&& r.megolm_session_id == session_id
        },
{
}

/// The state of the task that listens for download requests: the downloads
/// it started and that were not awaited yet.
pub struct RoomKeyDownloadListener<H> {
    pub task_queue: TaskQueue<H>,
}

/// The handles of the entries, in order.
pub open spec fn handles<H>(entries: Seq<(RoomKeyInfo, H)>) -> Seq<H> {
    entries.map_values(|e: (RoomKeyInfo, H)| e.1)
}

impl<H> RoomKeyDownloadListener<H> {
    /// The queue is ordered and never holds more than
    /// `MAX_QUEUED_DOWNLOADS` tasks.
    pub open spec fn wf(&self) -> bool {
        &&& self.task_queue.wf()
        &&& self.task_queue@.len() <= MAX_QUEUED_DOWNLOADS
    }

    /// A listener with no running download.
    pub fn new() -> (l: RoomKeyDownloadListener<H>)
        ensures
            l.wf(),
            l.task_queue@.len() == 0,
    {
        RoomKeyDownloadListener { task_queue: TaskQueue::new() }
    }

    /// Empties the queue, handing back its tasks in key order, to be awaited.
    pub fn prune_tasks(&mut self) -> (tasks: Vec<H>)
        requires
            old(self).wf(),
        ensures
            final(self).wf(),
            final(self).task_queue@.len() == 0,
            tasks@ == handles(old(self).task_queue@),
    {
        let ghost s = self.task_queue@;
        let mut tasks: Vec<H> = Vec::new();
        while self.task_queue.len() > 0
            invariant
                self.task_queue.wf(),
                self.task_queue@.len() <= s.len(),
                s =~= (s.subrange(0, s.len() - self.task_queue@.len())) + self.task_queue@,
                tasks@ == handles(s.subrange(0, s.len() - self.task_queue@.len())),
            decreases self.task_queue@.len(),
        {
            let ghost before = self.task_queue@;
            let first = self.task_queue.pop_first();
            match first {
                Some((_key, handle)) => {
                    proof {
                        let done = s.len() - before.len();
                        assert(s.subrange(0, done + 1) =~= s.subrange(0, done).push(before[0]));
                        assert(s[done] == before[0]) by {
                            assert(s =~= s.subrange(0, done) + before);
                        }
                        assert(s =~= s.subrange(0, done + 1) + self.task_queue@);
                        assert(handles(s.subrange(0, done + 1)) =~= handles(s.subrange(0, done)).push(handle));
                    }
                    tasks.push(handle);
                },
                None => {},
            }
        }
        proof {
            assert(s.subrange(0, s.len() as int) =~= s);
        }
        tasks
    }

    /// First step for a download request: the room and session it is about,
    /// and, when the queue is full, the tasks to await first, which leave the
    /// queue.
    pub fn prepare_request(&mut self, request: &RoomKeyDownloadRequest) -> (res: (RoomKeyInfo, Vec<H>))
        requires
            old(self).wf(),
        ensures
            final(self).wf(),
            res.0 == (request.room_id, request.megolm_session_id),
            final(self).task_queue@.len() < MAX_QUEUED_DOWNLOADS,
            if old(self).task_queue@.len() >= MAX_QUEUED_DOWNLOADS {
                final(self).task_queue@.len() == 0 && res.1@ == handles(old(self).task_queue@)
            } else {
                final(self).task_queue@ == old(self).task_queue@ && res.1@.len() == 0
            },
    {
        let info = request.to_room_key_info();
        if self.task_queue.len() >= MAX_QUEUED_DOWNLOADS {
            let tasks = self.prune_tasks();
            (info, tasks)
        } else {
            (info, Vec::new())
        }
    }

    /// Whether the backups must be asked whether they are enabled, as the
    /// last condition before a download starts: the key was not tried
    /// already and no download for it runs.
    pub fn may_download(&self, info: &RoomKeyInfo, already_tried: bool) -> (r: bool)
        ensures
            r == (!already_tried && !has_key(self.task_queue@, *info)),
    {
        !already_tried && !self.task_queue.contains_key(info)
    }

    /// Records the task that downloads the key of `info`. A task is refused,
    /// and handed back, when one already runs for the key or the queue is
    /// full; neither happens after `prepare_request` and `may_download`.
    pub fn record_download(&mut self, info: RoomKeyInfo, task: H) -> (res: Result<(), H>)
        requires
            old(self).wf(),
        ensures
            final(self).wf(),
            if !has_key(old(self).task_queue@, info) && old(self).task_queue@.len() < MAX_QUEUED_DOWNLOADS {
                res is Ok && exists|i: int|
                    0 <= i <= old(self).task_queue@.len()
                    && final(self).task_queue@ == #[trigger] old(self).task_queue@.insert(i, (info, task))
            } else {
                res == Err::<(), H>(task) && final(self).task_queue@ == old(self).task_queue@
            },
    {
        if self.task_queue.len() >= MAX_QUEUED_DOWNLOADS || self.task_queue.contains_key(&info) {
            Err(task)
        } else {
            let prev = self.task_queue.insert(info, task);
            proof {
                assert(prev is None);
            }
            Ok(())
        }
    }
}

/// The listener never runs two downloads for the same room and session, and
/// never holds more than `MAX_QUEUED_DOWNLOADS` of them.
pub proof fn lemma_listener_downloads_unique_and_bounded<H>(listener: RoomKeyDownloadListener<H>)
    requires
        listener.wf(),
    ensures
        listener.task_queue@.len() <= MAX_QUEUED_DOWNLOADS,
        forall|i: int, j: int|
            0 <= i < j < listener.task_queue@.len()
                ==> !same_key(#[trigger] listener.task_queue@[i].0, #[trigger] listener.task_queue@[j].0),
{
    let q = listener.task_queue@;
    assert forall|i: int, j: int| 0 <= i < j < q.len() implies !same_key(#[trigger] q[i].0, #[trigger] q[j].0) by {
        if same_key(q[i].0, q[j].0) {
            lemma_room_key_lt_irreflexive(q[i].0, q[j].0);
        }
    }
}

/// What the task that downloads one room key learnt last.
pub enum KeyDownloadEvent {
    /// The task was spawned.
    Started,
    /// The delay passed; whether the client has an olm machine.
    Delayed { has_olm_machine: bool },
    /// Whether the olm machine has the room key already.
    KeyAvailability { available: bool },
    /// Whether the download of the key from the backup succeeded.
    Downloaded { succeeded: bool },
}

/// What the task that downloads one room key does next.
#[derive(Debug, PartialEq, Eq, Structural, Clone, Copy)]
pub enum KeyDownloadAction {
    /// Wait this many milliseconds, then look for the olm machine.
    Wait { millis: u64 },
    /// Ask the olm machine whether it has the room key.
    CheckKeyAvailability,
    /// Download the room key from the backup.
    DownloadFromBackup,
    /// Remove the key from the cache of failed downloads, and stop.
    ForgetFailure,
    /// Insert the key into the cache of failed downloads, and stop.
    RecordFailure,
    /// Stop.
    Finish,
}

/// The next step of the task that downloads one room key: wait a little,
/// then, if there is an olm machine that lacks the key, download it from the
/// backup, and record the outcome in the cache of failed downloads.
pub fn next_download_action(event: KeyDownloadEvent) -> (action: KeyDownloadAction)
    ensures
        action == (match event {
            KeyDownloadEvent::Started => KeyDownloadAction::Wait { millis: DOWNLOAD_DELAY_MILLIS },
            KeyDownloadEvent::Delayed { has_olm_machine } =>
                if has_olm_machine { KeyDownloadAction::CheckKeyAvailability } else { KeyDownloadAction::Finish },
            KeyDownloadEvent::KeyAvailability { available } =>
                if available { KeyDownloadAction::Finish } else { KeyDownloadAction::DownloadFromBackup },
            KeyDownloadEvent::Downloaded { succeeded } =>
                if succeeded { KeyDownloadAction::ForgetFailure } else { KeyDownloadAction::RecordFailure },
        }),
{
    match event {
        KeyDownloadEvent::Started => KeyDownloadAction::Wait { millis: DOWNLOAD_DELAY_MILLIS },
        KeyDownloadEvent::Delayed { has_olm_machine } => {
            if has_olm_machine {
                KeyDownloadAction::CheckKeyAvailability
            } else {
                KeyDownloadAction::Finish
            }
        },
        KeyDownloadEvent::KeyAvailability { available } => {
            if available {
                KeyDownloadAction::Finish
            } else {
                KeyDownloadAction::DownloadFromBackup
            }
        },
        KeyDownloadEvent::Downloaded { succeeded } => {
            if succeeded {
                KeyDownloadAction::ForgetFailure
            } else {
                KeyDownloadAction::RecordFailure
            }
        },
    }
}

/// The progress of the room key upload.
#[derive(Debug, PartialEq, Eq, Structural, Clone, Copy)]
pub enum UploadState {
    /// No upload is running.
    Idle,
    /// The last upload failed.
    Error,
}

/// The upload progress that the uploading task publishes, in order, after a
/// backup of the room keys: a failure is published before the task goes
/// back to idle, as every state change is seen by observers.
pub fn upload_states_after_backup(succeeded: bool) -> (states: Vec<UploadState>)
    ensures
        states@ == (if succeeded { seq![UploadState::Idle] } else { seq![UploadState::Error, UploadState::Idle] }),
{
    let mut states: Vec<UploadState> = Vec::new();
    if !succeeded {
        states.push(UploadState::Error);
    }
    states.push(UploadState::Idle);
    states
}

} // verus!
