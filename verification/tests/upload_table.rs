use proj2_serv::clock::WINDOW_NANOS;
use proj2_serv::peer::PeerAddr;
use proj2_serv::uploads::{DatagramFate, FinishedUpload, UploadSession, UploadTable};

fn v4(last: u32, port: u16) -> PeerAddr {
    PeerAddr::V4 { ip: 0x0a00_0000 + last, port }
}

fn sorted(mut reports: Vec<FinishedUpload>) -> Vec<(u64, PeerAddr)> {
    reports.sort_by_key(|r| r.total_bytes);
    reports.into_iter().map(|r| (r.total_bytes, r.peer)).collect()
}

#[test]
fn a_new_table_is_empty() {
    let table = UploadTable::new();
    assert!(table.is_empty());
    assert_eq!(table.len(), 0);
    assert_eq!(table.get(v4(1, 7)), None);
}

#[test]
fn registration_opens_a_measurement_with_nothing_counted() {
    let mut table = UploadTable::new();
    table.register(v4(1, 7), 42);
    assert_eq!(table.len(), 1);
    assert!(!table.is_empty());
    assert_eq!(table.get(v4(1, 7)), Some(UploadSession { registered_at: 42, total_bytes: 0 }));
    assert_eq!(table.get(v4(1, 8)), None);
    assert_eq!(table.get(v4(2, 7)), None);
}

#[test]
fn peers_differ_by_address_port_and_family() {
    let mut table = UploadTable::new();
    let peers = [
        PeerAddr::V4 { ip: 1, port: 1 },
        PeerAddr::V4 { ip: 1, port: 2 },
        PeerAddr::V4 { ip: 2, port: 1 },
        PeerAddr::V6 { ip: 1, port: 1, flowinfo: 0, scope_id: 0 },
        PeerAddr::V6 { ip: 1, port: 1, flowinfo: 1, scope_id: 0 },
        PeerAddr::V6 { ip: 1, port: 1, flowinfo: 0, scope_id: 1 },
    ];
    for (i, peer) in peers.iter().enumerate() {
        table.register(*peer, i as u64);
    }
    assert_eq!(table.len(), peers.len());
    for (i, peer) in peers.iter().enumerate() {
        assert_eq!(table.get(*peer).map(|s| s.registered_at), Some(i as u64));
    }
}

#[test]
fn a_second_registration_replaces_the_first() {
    let mut table = UploadTable::new();
    let peer = v4(1, 7);
    table.register(peer, 100);
    assert_eq!(table.record(peer, 500, 200), DatagramFate::Counted { total_bytes: 500 });
    table.register(v4(2, 7), 250);
    table.register(peer, 300);
    assert_eq!(table.len(), 2);
    assert_eq!(table.get(peer), Some(UploadSession { registered_at: 300, total_bytes: 0 }));
    assert_eq!(table.get(v4(2, 7)), Some(UploadSession { registered_at: 250, total_bytes: 0 }));
    // The new deadline holds, not the old one.
    let late_for_the_first = 100 + WINDOW_NANOS + 1;
    assert_eq!(
        table.record(peer, 10, late_for_the_first),
        DatagramFate::Counted { total_bytes: 10 }
    );
}

#[test]
fn data_inside_the_window_adds_up() {
    let mut table = UploadTable::new();
    let peer = v4(1, 7);
    table.register(peer, 1_000);
    assert_eq!(table.record(peer, 1_000, 1_000), DatagramFate::Counted { total_bytes: 1_000 });
    assert_eq!(table.record(peer, 0, 1_001), DatagramFate::Counted { total_bytes: 1_000 });
    assert_eq!(table.record(peer, 65_507, 2_000), DatagramFate::Counted { total_bytes: 66_507 });
    assert_eq!(
        table.get(peer),
        Some(UploadSession { registered_at: 1_000, total_bytes: 66_507 })
    );
}

#[test]
fn the_deadline_itself_still_counts() {
    let mut table = UploadTable::new();
    let peer = v4(1, 7);
    table.register(peer, 1_000);
    let deadline = 1_000 + WINDOW_NANOS;
    assert_eq!(table.record(peer, 7, deadline), DatagramFate::Counted { total_bytes: 7 });
    assert_eq!(table.len(), 1);
}

#[test]
fn one_nanosecond_past_the_deadline_ends_the_measurement() {
    let mut table = UploadTable::new();
    let peer = v4(1, 7);
    table.register(peer, 1_000);
    assert_eq!(table.record(peer, 7, 2_000), DatagramFate::Counted { total_bytes: 7 });
    let late = 1_000 + WINDOW_NANOS + 1;
    assert_eq!(table.record(peer, 9, late), DatagramFate::Expired { total_bytes: 7 });
    assert_eq!(table.get(peer), None);
    assert!(table.is_empty());
    // The peer is now like any other without a measurement.
    assert_eq!(table.record(peer, 9, late), DatagramFate::Unmatched);
}

#[test]
fn data_without_a_measurement_changes_nothing() {
    let mut table = UploadTable::new();
    table.register(v4(1, 7), 0);
    table.record(v4(1, 7), 11, 1);
    assert_eq!(table.record(v4(9, 9), 1_400, 2), DatagramFate::Unmatched);
    assert_eq!(table.len(), 1);
    assert_eq!(table.get(v4(1, 7)), Some(UploadSession { registered_at: 0, total_bytes: 11 }));
    assert_eq!(table.get(v4(9, 9)), None);
}

#[test]
fn a_clock_reading_before_the_registration_counts() {
    let mut table = UploadTable::new();
    let peer = v4(1, 7);
    table.register(peer, 1_000_000);
    assert_eq!(table.record(peer, 5, 10), DatagramFate::Counted { total_bytes: 5 });
    assert_eq!(table.sweep(10), vec![]);
}

#[test]
fn a_window_that_reaches_past_the_end_of_time_never_expires() {
    let mut table = UploadTable::new();
    let peer = v4(1, 7);
    table.register(peer, u64::MAX - 5);
    assert_eq!(table.record(peer, 5, u64::MAX), DatagramFate::Counted { total_bytes: 5 });
    assert_eq!(table.sweep(u64::MAX), vec![]);
    assert_eq!(table.len(), 1);
}

#[test]
fn a_total_stops_at_the_top() {
    let mut table = UploadTable::new();
    let peer = v4(1, 7);
    table.register(peer, 0);
    assert_eq!(
        table.record(peer, u64::MAX - 1, 1),
        DatagramFate::Counted { total_bytes: u64::MAX - 1 }
    );
    assert_eq!(table.record(peer, 1, 2), DatagramFate::Counted { total_bytes: u64::MAX });
    assert_eq!(table.record(peer, 1_000, 3), DatagramFate::Counted { total_bytes: u64::MAX });
}

#[test]
fn a_sweep_ends_what_has_expired_and_keeps_the_rest() {
    let mut table = UploadTable::new();
    table.register(v4(1, 7), 0);
    table.register(v4(2, 7), 1_000);
    table.register(v4(3, 7), 2_000);
    table.register(v4(4, 7), 3_000);
    table.record(v4(1, 7), 10, 5);
    table.record(v4(2, 7), 20, 1_005);
    table.record(v4(3, 7), 30, 2_005);
    table.record(v4(4, 7), 40, 3_005);
    let reports = table.sweep(1_000 + WINDOW_NANOS + 1);
    assert_eq!(sorted(reports), vec![(10, v4(1, 7)), (20, v4(2, 7))]);
    assert_eq!(table.len(), 2);
    assert_eq!(table.get(v4(1, 7)), None);
    assert_eq!(table.get(v4(2, 7)), None);
    assert_eq!(table.get(v4(3, 7)), Some(UploadSession { registered_at: 2_000, total_bytes: 30 }));
    assert_eq!(table.get(v4(4, 7)), Some(UploadSession { registered_at: 3_000, total_bytes: 40 }));
}

#[test]
fn a_sweep_at_the_deadline_ends_nothing() {
    let mut table = UploadTable::new();
    table.register(v4(1, 7), 0);
    assert_eq!(table.sweep(WINDOW_NANOS), vec![]);
    assert_eq!(table.len(), 1);
    assert_eq!(
        table.sweep(WINDOW_NANOS + 1),
        vec![FinishedUpload { peer: v4(1, 7), total_bytes: 0 }]
    );
    assert!(table.is_empty());
}

#[test]
fn a_second_sweep_reports_nothing_again() {
    let mut table = UploadTable::new();
    table.register(v4(1, 7), 0);
    table.register(v4(2, 7), 0);
    let late = WINDOW_NANOS + 1;
    assert_eq!(table.sweep(late).len(), 2);
    assert_eq!(table.sweep(late), vec![]);
    assert_eq!(table.sweep(late + WINDOW_NANOS), vec![]);
}

#[test]
fn a_sweep_of_an_empty_table_reports_nothing() {
    let mut table = UploadTable::new();
    assert_eq!(table.sweep(0), vec![]);
    assert_eq!(table.sweep(u64::MAX), vec![]);
}

#[test]
fn many_peers_keep_their_own_totals() {
    let mut table = UploadTable::new();
    for i in 0..200u32 {
        table.register(v4(i, 7), i as u64);
    }
    for round in 0..3u64 {
        for i in 0..200u32 {
            let fate = table.record(v4(i, 7), i as u64 + 1, 1_000);
            assert_eq!(fate, DatagramFate::Counted { total_bytes: (round + 1) * (i as u64 + 1) });
        }
    }
    assert_eq!(table.len(), 200);
    // The first hundred expire, the rest does not.
    let reports = table.sweep(99 + WINDOW_NANOS + 1);
    let expected: Vec<(u64, PeerAddr)> = (0..100u32).map(|i| (3 * (i as u64 + 1), v4(i, 7))).collect();
    assert_eq!(sorted(reports), expected);
    assert_eq!(table.len(), 100);
}

#[test]
fn a_session_knows_its_deadline() {
    let session = UploadSession { registered_at: 1_000, total_bytes: 0 };
    assert_eq!(session.deadline_nanos(), Some(1_000 + WINDOW_NANOS));
    assert!(!session.is_expired(1_000 + WINDOW_NANOS));
    assert!(session.is_expired(1_000 + WINDOW_NANOS + 1));
    let session = UploadSession { registered_at: u64::MAX - WINDOW_NANOS, total_bytes: 0 };
    assert_eq!(session.deadline_nanos(), Some(u64::MAX));
    assert!(!session.is_expired(u64::MAX));
    let session = UploadSession { registered_at: u64::MAX - WINDOW_NANOS + 1, total_bytes: 0 };
    assert_eq!(session.deadline_nanos(), None);
    assert!(!session.is_expired(u64::MAX));
}
