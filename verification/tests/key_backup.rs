use matrix_client_logic::key_backup::{
    download_request_for_event, next_download_action, trigger_download_for_utd_event,
    upload_states_after_backup, EncryptedEvent, EncryptionScheme, KeyDownloadAction,
    KeyDownloadEvent, RoomKeyDownloadListener, RoomKeyDownloadRequest, UploadState,
    DOWNLOAD_DELAY_MILLIS, FAILURES_CACHE_BACKOFF, FAILURES_CACHE_MAX_DELAY_SECS,
    MAX_QUEUED_DOWNLOADS,
};
use matrix_client_logic::task_queue::{room_key_less, TaskQueue};

fn key(room: &str, session: &str) -> (String, String) {
    (room.to_owned(), session.to_owned())
}

fn request(room: &str, session: &str) -> RoomKeyDownloadRequest {
    RoomKeyDownloadRequest {
        room_id: room.to_owned(),
        event_id: "$event:example.org".to_owned(),
        megolm_session_id: session.to_owned(),
    }
}

fn megolm_event_json(session: &str) -> String {
    format!(
        r#"{{"type":"m.room.encrypted","event_id":"$utd:example.org","sender":"@alice:example.org","origin_server_ts":1700000000000,"content":{{"algorithm":"m.megolm.v1.aes-sha2","ciphertext":"AwgAEnAC","device_id":"DEVICE","sender_key":"c2VuZGVy","session_id":"{}"}}}}"#,
        session
    )
}

#[test]
fn constants() {
    assert_eq!(DOWNLOAD_DELAY_MILLIS, 100);
    assert_eq!(MAX_QUEUED_DOWNLOADS, 10);
    assert_eq!(FAILURES_CACHE_MAX_DELAY_SECS, 86_400);
    assert_eq!(FAILURES_CACHE_BACKOFF, 60);
}

#[test]
fn room_key_info_of_request() {
    let r = request("!room:example.org", "session");
    assert_eq!(r.to_room_key_info(), key("!room:example.org", "session"));
}

#[test]
fn key_order_is_by_room_then_session() {
    assert!(room_key_less(&key("!a", "z"), &key("!b", "a")));
    assert!(!room_key_less(&key("!b", "a"), &key("!a", "z")));
    assert!(room_key_less(&key("!a", "a"), &key("!a", "b")));
    assert!(room_key_less(&key("!a", "s"), &key("!a", "ss")));
    assert!(room_key_less(&key("!a", "s"), &key("!ab", "a")));
    assert!(!room_key_less(&key("!a", "s"), &key("!a", "s")));
    // Bytes, not characters: 'é' (0xC3 0xA9) comes after 'z'.
    assert!(room_key_less(&key("!z", "s"), &key("!é", "s")));
}

#[test]
fn task_queue_keeps_key_order_and_replaces_tasks() {
    let mut q: TaskQueue<u32> = TaskQueue::new();
    assert_eq!(q.insert(key("!c", "1"), 1), None);
    assert_eq!(q.insert(key("!a", "2"), 2), None);
    assert_eq!(q.insert(key("!b", "3"), 3), None);
    assert_eq!(q.insert(key("!a", "1"), 4), None);
    assert_eq!(q.len(), 4);
    assert!(q.contains_key(&key("!b", "3")));
    assert!(!q.contains_key(&key("!b", "4")));
    assert_eq!(q.insert(key("!b", "3"), 5), Some(3));
    assert_eq!(q.len(), 4);
    let mut order = Vec::new();
    while let Some((k, h)) = q.pop_first() {
        order.push((k, h));
    }
    assert_eq!(
        order,
        vec![(key("!a", "1"), 4), (key("!a", "2"), 2), (key("!b", "3"), 5), (key("!c", "1"), 1)]
    );
    assert_eq!(q.len(), 0);
    assert_eq!(q.pop_first(), None);
}

#[test]
fn prune_hands_back_tasks_in_key_order() {
    let mut l: RoomKeyDownloadListener<u32> = RoomKeyDownloadListener::new();
    assert!(l.record_download(key("!z", "s"), 1).is_ok());
    assert!(l.record_download(key("!m", "s"), 2).is_ok());
    assert!(l.record_download(key("!a", "s"), 3).is_ok());
    assert_eq!(l.prune_tasks(), vec![3, 2, 1]);
    assert_eq!(l.task_queue.len(), 0);
    assert_eq!(l.prune_tasks(), Vec::<u32>::new());
}

#[test]
fn full_queue_is_pruned_before_next_request() {
    let mut l: RoomKeyDownloadListener<u32> = RoomKeyDownloadListener::new();
    for i in 0..10u32 {
        assert!(l.record_download(key("!room", &format!("s{}", i)), i).is_ok());
    }
    assert_eq!(l.task_queue.len(), 10);
    // A full queue refuses more tasks.
    assert_eq!(l.record_download(key("!room", "extra"), 99), Err(99));
    let (info, to_await) = l.prepare_request(&request("!room", "next"));
    assert_eq!(info, key("!room", "next"));
    assert_eq!(to_await, vec![0, 1, 2, 3, 4, 5, 6, 7, 8, 9]);
    assert_eq!(l.task_queue.len(), 0);
}

#[test]
fn queue_below_limit_is_kept() {
    let mut l: RoomKeyDownloadListener<u32> = RoomKeyDownloadListener::new();
    assert!(l.record_download(key("!room", "a"), 1).is_ok());
    let (info, to_await) = l.prepare_request(&request("!other", "b"));
    assert_eq!(info, key("!other", "b"));
    assert!(to_await.is_empty());
    assert_eq!(l.task_queue.len(), 1);
}

#[test]
fn download_starts_only_for_untried_keys_without_task() {
    let mut l: RoomKeyDownloadListener<u32> = RoomKeyDownloadListener::new();
    let k = key("!room", "a");
    assert!(l.may_download(&k, false));
    assert!(!l.may_download(&k, true));
    assert!(l.record_download(k.clone(), 1).is_ok());
    assert!(!l.may_download(&k, false));
    // A second task for the same key is refused and handed back.
    assert_eq!(l.record_download(k.clone(), 2), Err(2));
    assert_eq!(l.prune_tasks(), vec![1]);
}

#[test]
fn download_steps() {
    assert_eq!(next_download_action(KeyDownloadEvent::Started), KeyDownloadAction::Wait { millis: 100 });
    assert_eq!(
        next_download_action(KeyDownloadEvent::Delayed { has_olm_machine: false }),
        KeyDownloadAction::Finish
    );
    assert_eq!(
        next_download_action(KeyDownloadEvent::Delayed { has_olm_machine: true }),
        KeyDownloadAction::CheckKeyAvailability
    );
    assert_eq!(
        next_download_action(KeyDownloadEvent::KeyAvailability { available: true }),
        KeyDownloadAction::Finish
    );
    assert_eq!(
        next_download_action(KeyDownloadEvent::KeyAvailability { available: false }),
        KeyDownloadAction::DownloadFromBackup
    );
    assert_eq!(
        next_download_action(KeyDownloadEvent::Downloaded { succeeded: true }),
        KeyDownloadAction::ForgetFailure
    );
    assert_eq!(
        next_download_action(KeyDownloadEvent::Downloaded { succeeded: false }),
        KeyDownloadAction::RecordFailure
    );
}

#[test]
fn upload_progress_after_backup() {
    assert_eq!(upload_states_after_backup(true), vec![UploadState::Idle]);
    assert_eq!(upload_states_after_backup(false), vec![UploadState::Error, UploadState::Idle]);
}

#[test]
fn request_only_for_megolm_events() {
    let megolm = EncryptedEvent {
        event_id: "$e".to_owned(),
        scheme: EncryptionScheme::MegolmV1AesSha2 { session_id: "sess".to_owned() },
    };
    let r = download_request_for_event("!room".to_owned(), Some(megolm)).expect("megolm");
    assert_eq!(r.room_id, "!room");
    assert_eq!(r.event_id, "$e");
    assert_eq!(r.megolm_session_id, "sess");

    let olm = EncryptedEvent { event_id: "$e".to_owned(), scheme: EncryptionScheme::OlmV1Curve25519AesSha2 };
    assert!(download_request_for_event("!room".to_owned(), Some(olm)).is_none());
    let other = EncryptedEvent { event_id: "$e".to_owned(), scheme: EncryptionScheme::Other };
    assert!(download_request_for_event("!room".to_owned(), Some(other)).is_none());
    assert!(download_request_for_event("!room".to_owned(), None).is_none());
}

#[test]
fn utd_event_json_gives_download_request() {
    let json = megolm_event_json("SESSION_ID");
    let r = trigger_download_for_utd_event("!room:example.org".to_owned(), &json).expect("request");
    assert_eq!(r.room_id, "!room:example.org");
    assert_eq!(r.event_id, "$utd:example.org");
    assert_eq!(r.megolm_session_id, "SESSION_ID");
}

#[test]
fn olm_or_invalid_event_json_gives_no_request() {
    let olm = r#"{"type":"m.room.encrypted","event_id":"$utd:example.org","sender":"@alice:example.org","origin_server_ts":1,"content":{"algorithm":"m.olm.v1.curve25519-aes-sha2","sender_key":"key","ciphertext":{}}}"#;
    assert!(trigger_download_for_utd_event("!room".to_owned(), olm).is_none());
    assert!(trigger_download_for_utd_event("!room".to_owned(), "not json").is_none());
    assert!(trigger_download_for_utd_event("!room".to_owned(), "{}").is_none());
}
