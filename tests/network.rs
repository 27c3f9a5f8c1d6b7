use logcore::{TcpAction, TcpOutcome, TcpStreamHandler, WriteCall};

/// Runs one write call against an endpoint that refuses every connection;
/// returns the number of connection attempts and whether it was delivered.
fn write_unreachable(h: &mut TcpStreamHandler, len: usize, now: u64) -> (usize, bool) {
    let mut call = WriteCall::new(len);
    let mut connects = 0;
    loop {
        match h.next_action(&mut call, now) {
            TcpAction::Connect => {
                connects += 1;
                h.record_outcome(&mut call, TcpOutcome::ConnectFailed);
            }
            TcpAction::Send { .. } => panic!("nothing is connected"),
            TcpAction::Finish { delivered } => return (connects, delivered),
        }
    }
}

#[test]
fn unreachable_endpoint_is_throttled() {
    let mut h = TcpStreamHandler::new("127.0.0.1:9".to_string());
    // First write: one connection attempt, the retry is throttled, nothing delivered.
    assert_eq!(write_unreachable(&mut h, 10, 5_000_000), (1, false));
    // Within the one-second window: no new attempt.
    assert_eq!(write_unreachable(&mut h, 10, 5_500_000), (0, false));
    assert_eq!(write_unreachable(&mut h, 10, 6_000_000), (0, false));
    // After the window: a new attempt.
    assert_eq!(write_unreachable(&mut h, 10, 6_000_001), (1, false));
    assert!(!h.is_connected());
    assert!(!h.can_flush());
    assert_eq!(h.endpoint(), "127.0.0.1:9");
}

#[test]
fn connected_write_sends_until_done() {
    let mut h = TcpStreamHandler::new("e".to_string());
    let mut call = WriteCall::new(10);
    assert_eq!(h.next_action(&mut call, 0), TcpAction::Connect);
    h.record_outcome(&mut call, TcpOutcome::Connected);
    assert!(h.is_connected());
    assert_eq!(h.next_action(&mut call, 1), TcpAction::Send { offset: 0 });
    h.record_outcome(&mut call, TcpOutcome::Wrote { n: 4 });
    assert_eq!(h.next_action(&mut call, 2), TcpAction::Send { offset: 4 });
    h.record_outcome(&mut call, TcpOutcome::Wrote { n: 6 });
    assert_eq!(h.next_action(&mut call, 3), TcpAction::Finish { delivered: true });
}

#[test]
fn write_failure_drops_connection_and_retries_once() {
    let mut h = TcpStreamHandler::new("e".to_string());
    let mut call = WriteCall::new(3);
    assert_eq!(h.next_action(&mut call, 0), TcpAction::Connect);
    h.record_outcome(&mut call, TcpOutcome::Connected);
    assert_eq!(h.next_action(&mut call, 0), TcpAction::Send { offset: 0 });
    h.record_outcome(&mut call, TcpOutcome::WriteFailed { interrupted: false });
    assert!(!h.is_connected());
    // The retry finds the reconnect throttled and the call ends undelivered.
    assert_eq!(h.next_action(&mut call, 10), TcpAction::Finish { delivered: false });
}

#[test]
fn zero_byte_write_counts_as_a_failed_attempt() {
    let mut h = TcpStreamHandler::new("e".to_string());
    let mut call = WriteCall::new(3);
    assert_eq!(h.next_action(&mut call, 0), TcpAction::Connect);
    h.record_outcome(&mut call, TcpOutcome::Connected);
    assert_eq!(h.next_action(&mut call, 2_000_000), TcpAction::Send { offset: 0 });
    h.record_outcome(&mut call, TcpOutcome::Wrote { n: 0 });
    assert_eq!(h.next_action(&mut call, 2_000_000), TcpAction::Send { offset: 0 });
    h.record_outcome(&mut call, TcpOutcome::WriteFailed { interrupted: false });
    assert_eq!(h.next_action(&mut call, 2_000_000), TcpAction::Finish { delivered: false });
}

#[test]
fn empty_payload_needs_no_connection() {
    let mut h = TcpStreamHandler::new("e".to_string());
    let mut call = WriteCall::new(0);
    assert_eq!(h.next_action(&mut call, 0), TcpAction::Finish { delivered: true });
}
