use bloop::ble_link::{lagged_error, next_message_id, next_retry, BleLink, ChunkOutcome, ClientSession};
use bloop::framing::encode_message;

#[test]
fn retries_back_off_up_to_thirty_seconds() {
    let mut index = 0;
    let mut delays = Vec::new();
    for _ in 0..7 {
        let (delay, next) = next_retry(index);
        delays.push(delay);
        index = next;
    }
    assert_eq!(delays, vec![1, 2, 5, 10, 30, 30, 30]);
}

#[test]
fn only_one_client_is_served_at_a_time() {
    let mut link = BleLink::new();
    let first = ClientSession { address: 1, session_id: 1 };
    let second = ClientSession { address: 2, session_id: 2 };
    assert!(link.register_notification_client(first));
    assert!(!link.register_notification_client(second));
    assert_eq!(link.active_client_for(1), Some(first));
    assert_eq!(link.active_client_for(2), None);
    link.on_writer_closed(second);
    assert_eq!(link.active_client_for(1), Some(first));
    link.on_writer_closed(first);
    assert_eq!(link.active_client_for(1), None);
    assert!(link.register_notification_client(second));
}

#[test]
fn the_active_client_frames_are_reassembled() {
    let mut link = BleLink::new();
    let client = ClientSession { address: 7, session_id: 3 };
    link.register_notification_client(client);
    let message = (0..100u8).collect::<Vec<_>>();
    let chunks = encode_message(&message, 1, 40).unwrap();
    let last = chunks.len() - 1;
    for (index, chunk) in chunks.iter().enumerate() {
        match link.on_incoming_chunk(client, chunk) {
            ChunkOutcome::Pending => assert!(index < last),
            ChunkOutcome::Complete(bytes) => {
                assert_eq!(index, last);
                assert_eq!(bytes, message);
            }
            other => panic!("unexpected {other:?}"),
        }
    }
}

#[test]
fn other_sessions_are_ignored_and_bad_frames_refused() {
    let mut link = BleLink::new();
    let client = ClientSession { address: 7, session_id: 3 };
    link.register_notification_client(client);
    let stale = ClientSession { address: 7, session_id: 2 };
    assert!(matches!(link.on_incoming_chunk(stale, &[1, 2, 3]), ChunkOutcome::Ignored));
    match link.on_incoming_chunk(client, &[1, 2, 3]) {
        ChunkOutcome::Rejected(message) => assert_eq!(message, "Invalid BLE frame: BLE frame is shorter than its header"),
        other => panic!("unexpected {other:?}"),
    }
}

#[test]
fn lagging_clients_are_told_to_resynchronise() {
    assert_eq!(lagged_error(3), "BLE response stream skipped 3 updates; request ALL to resynchronise");
    assert_eq!(next_message_id(u16::MAX), 0);
    assert_eq!(next_message_id(4), 5);
}
