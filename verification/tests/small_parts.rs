use proj2_serv::acceptor::{on_accept, AcceptAction, AcceptEvent};
use proj2_serv::clock::{elapsed, past_deadline, window_open, WINDOW_NANOS};
use proj2_serv::count::add_capped;
use proj2_serv::wire::{
    filler, Reply, ACK_COUNT, BACKOFF_NANOS, BURST_LEN, DOWNLOAD_ACK_GAP_NANOS, RETRY_NANOS,
    TCP_CHUNK_LEN, UDP_PAYLOAD_LEN, UPLOAD_ACK_GAP_NANOS,
};

#[test]
fn the_constants_are_those_of_the_protocol() {
    assert_eq!(WINDOW_NANOS, 5 * 1_000_000_000);
    assert_eq!(TCP_CHUNK_LEN, 64 * 1024);
    assert_eq!(UDP_PAYLOAD_LEN, 1400);
    assert_eq!(ACK_COUNT, 3);
    assert_eq!(DOWNLOAD_ACK_GAP_NANOS, 10 * 1_000_000);
    assert_eq!(UPLOAD_ACK_GAP_NANOS, 20 * 1_000_000);
    assert_eq!(BURST_LEN, 16);
    assert_eq!(BACKOFF_NANOS, 20 * 1_000);
    assert_eq!(RETRY_NANOS, 10 * 1_000_000);
}

#[test]
fn replies_are_spelled_out() {
    assert_eq!(Reply::AckDownload.to_bytes(), b"ACK_DOWNLOAD".to_vec());
    assert_eq!(Reply::AckUpload.to_bytes(), b"ACK_UPLOAD".to_vec());
    assert_eq!(Reply::Probe.to_bytes(), b"P".to_vec());
}

#[test]
fn filler_is_all_zero() {
    assert_eq!(filler(0), Vec::<u8>::new());
    assert_eq!(filler(3), vec![0u8, 0, 0]);
    let chunk = filler(TCP_CHUNK_LEN);
    assert_eq!(chunk.len(), 65_536);
    assert!(chunk.iter().all(|b| *b == 0));
    let datagram = filler(UDP_PAYLOAD_LEN);
    assert_eq!(datagram.len(), 1400);
    assert!(datagram.iter().all(|b| *b == 0));
}

#[test]
fn elapsed_time_never_goes_below_zero() {
    assert_eq!(elapsed(10, 10), 0);
    assert_eq!(elapsed(10, 25), 15);
    assert_eq!(elapsed(25, 10), 0);
    assert_eq!(elapsed(0, u64::MAX), u64::MAX);
    assert_eq!(elapsed(u64::MAX, 0), 0);
}

#[test]
fn a_phase_runs_for_less_than_a_window() {
    assert!(window_open(100, 100));
    assert!(window_open(100, 100 + WINDOW_NANOS - 1));
    assert!(!window_open(100, 100 + WINDOW_NANOS));
    assert!(!window_open(100, u64::MAX));
    assert!(window_open(100, 0));
    assert!(window_open(u64::MAX, u64::MAX));
    assert!(window_open(u64::MAX - 1, u64::MAX));
}

#[test]
fn a_deadline_is_passed_one_window_and_a_bit_after_the_registration() {
    assert!(!past_deadline(100, 100));
    assert!(!past_deadline(100, 100 + WINDOW_NANOS));
    assert!(past_deadline(100, 100 + WINDOW_NANOS + 1));
    assert!(past_deadline(0, u64::MAX));
    assert!(!past_deadline(100, 0));
    assert!(!past_deadline(u64::MAX - WINDOW_NANOS, u64::MAX));
    assert!(!past_deadline(u64::MAX, u64::MAX));
}

#[test]
fn counters_add_up_and_stop_at_the_top() {
    assert_eq!(add_capped(0, 0), 0);
    assert_eq!(add_capped(1_000, 1_400), 2_400);
    assert_eq!(add_capped(u64::MAX - 5, 5), u64::MAX);
    assert_eq!(add_capped(u64::MAX - 5, 6), u64::MAX);
    assert_eq!(add_capped(u64::MAX, u64::MAX), u64::MAX);
    assert_eq!(add_capped(0, u64::MAX), u64::MAX);
}

#[test]
fn a_connection_is_served_and_the_acceptor_goes_on() {
    assert_eq!(on_accept(AcceptEvent::Connected), AcceptAction::Serve);
}

#[test]
fn accept_failures_never_end_the_acceptor() {
    for _ in 0..1000 {
        assert_eq!(on_accept(AcceptEvent::Failed), AcceptAction::Pause { nanos: 10_000_000 });
    }
    assert_eq!(on_accept(AcceptEvent::Connected), AcceptAction::Serve);
}
