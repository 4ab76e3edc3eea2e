use scabbard::batch::{BatchStatus, InvalidTransaction, ValidTransaction};
use scabbard::history::BatchHistory;

#[test]
fn lookup_unknown_id_synthesizes_unknown() {
    let h = BatchHistory::new();
    let info = h.get_batch_info("never-seen").unwrap();
    assert_eq!(info.id, "never-seen");
    assert!(matches!(info.status, BatchStatus::Unknown));
    assert_eq!(h.len(), 0);
}

#[test]
fn lookup_does_not_insert() {
    let mut h = BatchHistory::new();
    h.add_batch("b1").unwrap();
    let _ = h.get_batch_info("absent").unwrap();
    assert_eq!(h.len(), 1);
    let again = h.get_batch_info("absent").unwrap();
    assert!(matches!(again.status, BatchStatus::Unknown));
}

#[test]
fn add_batch_records_pending() {
    let mut h = BatchHistory::new();
    h.add_batch("b1").unwrap();
    let info = h.get_batch_info("b1").unwrap();
    assert_eq!(info.id, "b1");
    assert!(matches!(info.status, BatchStatus::Pending));
    assert_eq!(h.len(), 1);
}

#[test]
fn update_applies_only_to_pending() {
    let mut h = BatchHistory::new();
    h.add_batch("b1").unwrap();
    h.update_batch_status(
        "b1",
        BatchStatus::Valid(vec![ValidTransaction { transaction_id: String::from("t1") }]),
    );
    let info = h.get_batch_info("b1").unwrap();
    assert!(matches!(info.status, BatchStatus::Valid(_)));

    // A late duplicate callback must be ignored: the status is terminal.
    h.update_batch_status(
        "b1",
        BatchStatus::Invalid(vec![InvalidTransaction {
            transaction_id: String::from("t1"),
            error_message: String::from("late"),
            error_data: vec![],
        }]),
    );
    let info = h.get_batch_info("b1").unwrap();
    match info.status {
        BatchStatus::Valid(t) => {
            assert_eq!(t.len(), 1);
            assert_eq!(t[0].transaction_id, "t1");
        }
        _ => panic!("status must still be Valid"),
    }
}

#[test]
fn update_ignores_unknown_ids() {
    let mut h = BatchHistory::new();
    h.update_batch_status("ghost", BatchStatus::Valid(vec![]));
    assert_eq!(h.len(), 0);
    assert!(matches!(
        h.get_batch_info("ghost").unwrap().status,
        BatchStatus::Unknown
    ));
}

#[test]
fn commit_promotes_only_valid() {
    let mut h = BatchHistory::new();
    h.add_batch("b1").unwrap();

    // Still pending: commit must change nothing.
    h.commit("b1");
    assert!(matches!(
        h.get_batch_info("b1").unwrap().status,
        BatchStatus::Pending
    ));

    h.update_batch_status(
        "b1",
        BatchStatus::Valid(vec![ValidTransaction { transaction_id: String::from("t1") }]),
    );
    h.commit("b1");
    match h.get_batch_info("b1").unwrap().status {
        BatchStatus::Committed(t) => {
            assert_eq!(t.len(), 1);
            assert_eq!(t[0].transaction_id, "t1");
        }
        _ => panic!("status must be Committed"),
    }

    // Committed is terminal.
    h.commit("b1");
    assert!(matches!(
        h.get_batch_info("b1").unwrap().status,
        BatchStatus::Committed(_)
    ));
}

#[test]
fn tracker_never_exceeds_limit() {
    let mut h = BatchHistory::new();
    for i in 0..150u32 {
        h.add_batch_at(&format!("batch-{}", i), 1000 + i as u64).unwrap();
        assert!(h.len() <= 100);
    }
    assert_eq!(h.len(), 100);
}

#[test]
fn hundred_first_insert_evicts_oldest() {
    let mut h = BatchHistory::new();
    for i in 0..100u32 {
        h.add_batch_at(&format!("batch-{}", i), 1000 + i as u64).unwrap();
    }
    assert_eq!(h.len(), 100);

    // The 101st distinct id evicts exactly one entry: the oldest.
    h.add_batch_at("batch-100", 2000).unwrap();
    assert_eq!(h.len(), 100);
    assert!(matches!(
        h.get_batch_info("batch-0").unwrap().status,
        BatchStatus::Unknown
    ));
    assert!(matches!(
        h.get_batch_info("batch-100").unwrap().status,
        BatchStatus::Pending
    ));
    assert!(matches!(
        h.get_batch_info("batch-1").unwrap().status,
        BatchStatus::Pending
    ));
}

#[test]
fn reinserting_same_id_does_not_grow() {
    let mut h = BatchHistory::new();
    h.add_batch_at("b1", 5).unwrap();
    h.update_batch_status("b1", BatchStatus::Valid(vec![]));
    h.add_batch_at("b1", 6).unwrap();
    assert_eq!(h.len(), 1);
    // Re-adding overwrites the prior entry, back to Pending.
    assert!(matches!(
        h.get_batch_info("b1").unwrap().status,
        BatchStatus::Pending
    ));
}

#[test]
fn set_status_replaces_only_the_status() {
    let mut h = BatchHistory::new();
    h.add_batch_at("b1", 42).unwrap();
    let mut info = h.get_batch_info("b1").unwrap();
    info.set_status(BatchStatus::Valid(vec![]));
    assert_eq!(info.id, "b1");
    assert_eq!(info.timestamp, 42);
    assert!(matches!(info.status, BatchStatus::Valid(_)));
}
