use scabbard::batch::{BatchStatus, ExecutionOutcome, TransactionResult};
use scabbard::changes::{StateChange, StateChangeEvent};
use scabbard::engine::ScabbardState;
use scabbard::error::ScabbardStateError;

fn valid_txn(id: &str, changes: Vec<StateChange>) -> TransactionResult {
    TransactionResult::Valid {
        transaction_id: String::from(id),
        state_changes: changes,
    }
}

fn put(key: &str, value: &[u8]) -> StateChange {
    StateChange::Put {
        key: String::from(key),
        value: value.to_vec(),
    }
}

#[test]
fn commit_without_prepare_fails_no_pending_change() {
    let mut engine = ScabbardState::new(String::from("r0"));
    let r = engine.commit();
    assert!(matches!(r, Err(ScabbardStateError::NoPendingChange)));
    assert_eq!(engine.current_state_root(), "r0");
    // A second attempt fails the same way: nothing was consumed.
    assert!(matches!(
        engine.commit(),
        Err(ScabbardStateError::NoPendingChange)
    ));
}

#[test]
fn timeout_fails_and_stages_nothing() {
    let mut engine = ScabbardState::new(String::from("r0"));
    engine.add_batch("b1").unwrap();
    let r = engine.prepare_change("b1", ExecutionOutcome::TimedOut);
    assert!(matches!(r, Err(ScabbardStateError::ExecutionTimeout)));
    assert_eq!(engine.current_state_root(), "r0");
    assert!(matches!(
        engine.commit(),
        Err(ScabbardStateError::NoPendingChange)
    ));
    // The timed-out batch stays Pending: a late callback may still finish it.
    assert!(matches!(
        engine.get_batch_info("b1").unwrap().status,
        BatchStatus::Pending
    ));
}

#[test]
fn prepare_then_rollback_changes_nothing_durable() {
    let mut engine = ScabbardState::new(String::from("r0"));
    engine.add_batch("b1").unwrap();
    let results = vec![valid_txn("t1", vec![put("a", b"1")])];
    let changes = engine
        .prepare_change("b1", ExecutionOutcome::Completed(results))
        .unwrap();
    engine.stage_change("b1", changes, String::from("r1"));

    engine.rollback().unwrap();
    assert_eq!(engine.current_state_root(), "r0");
    assert!(matches!(
        engine.commit(),
        Err(ScabbardStateError::NoPendingChange)
    ));
    // The batch's status never advanced past Valid.
    assert!(matches!(
        engine.get_batch_info("b1").unwrap().status,
        BatchStatus::Valid(_)
    ));
}

#[test]
fn rollback_while_idle_is_a_no_op() {
    let mut engine = ScabbardState::new(String::from("r0"));
    engine.rollback().unwrap();
    assert_eq!(engine.current_state_root(), "r0");
}

#[test]
fn prepare_then_commit_advances_to_prospective_root() {
    let mut engine = ScabbardState::new(String::from("r0"));
    engine.add_batch("b1").unwrap();
    let results = vec![
        valid_txn("t1", vec![put("a", b"1")]),
        valid_txn("t2", vec![put("b", b"2")]),
    ];
    let changes = engine
        .prepare_change("b1", ExecutionOutcome::Completed(results))
        .unwrap();
    assert_eq!(changes.len(), 2);
    engine.stage_change("b1", changes, String::from("r1"));

    let staged = engine.commit().unwrap();
    assert_eq!(staged.batch_id, "b1");
    assert_eq!(staged.prospective_root, "r1");

    let events = engine
        .finish_commit(staged, Ok(String::from("r1")))
        .unwrap();
    assert_eq!(engine.current_state_root(), "r1");
    assert_eq!(events.len(), 2);
    match &events[0] {
        StateChangeEvent::Put { key, value } => {
            assert_eq!(key, "a");
            assert_eq!(value, b"1");
        }
        _ => panic!("first event must set key a"),
    }
    match &events[1] {
        StateChangeEvent::Put { key, value } => {
            assert_eq!(key, "b");
            assert_eq!(value, b"2");
        }
        _ => panic!("second event must set key b"),
    }
    assert!(matches!(
        engine.get_batch_info("b1").unwrap().status,
        BatchStatus::Committed(_)
    ));
}

#[test]
fn invalid_transaction_fails_prepare_and_is_recorded() {
    let mut engine = ScabbardState::new(String::from("r0"));
    engine.add_batch("b1").unwrap();
    let results = vec![
        valid_txn("t1", vec![put("a", b"1")]),
        TransactionResult::Invalid {
            transaction_id: String::from("t2"),
            error_message: String::from("contract rejected it"),
            error_data: vec![7, 7],
        },
    ];
    let r = engine.prepare_change("b1", ExecutionOutcome::Completed(results));
    match r {
        Err(ScabbardStateError::InvalidBatch(t)) => {
            assert_eq!(t.transaction_id, "t2");
            assert_eq!(t.error_message, "contract rejected it");
            assert_eq!(t.error_data, vec![7, 7]);
        }
        _ => panic!("prepare must fail with InvalidBatch"),
    }

    // Exactly the failing transaction's error is recorded.
    match engine.get_batch_info("b1").unwrap().status {
        BatchStatus::Invalid(records) => {
            assert_eq!(records.len(), 1);
            assert_eq!(records[0].transaction_id, "t2");
            assert_eq!(records[0].error_message, "contract rejected it");
        }
        _ => panic!("status must be Invalid"),
    }

    // No pending change set was created.
    assert!(matches!(
        engine.commit(),
        Err(ScabbardStateError::NoPendingChange)
    ));
    assert_eq!(engine.current_state_root(), "r0");
}

#[test]
fn finish_commit_with_store_failure_keeps_old_root() {
    let mut engine = ScabbardState::new(String::from("r0"));
    engine.add_batch("b1").unwrap();
    let changes = engine
        .prepare_change(
            "b1",
            ExecutionOutcome::Completed(vec![valid_txn("t1", vec![put("a", b"1")])]),
        )
        .unwrap();
    engine.stage_change("b1", changes, String::from("r1"));
    let staged = engine.commit().unwrap();
    let r = engine.finish_commit(staged, Err(String::from("disk full")));
    assert!(matches!(r, Err(ScabbardStateError::Persistence(_))));
    assert_eq!(engine.current_state_root(), "r0");
    // Not committed: the status stays Valid.
    assert!(matches!(
        engine.get_batch_info("b1").unwrap().status,
        BatchStatus::Valid(_)
    ));
}

#[test]
fn finish_commit_with_mismatched_root_keeps_old_root() {
    let mut engine = ScabbardState::new(String::from("r0"));
    let changes = vec![put("a", b"1")];
    engine.stage_change("b1", changes, String::from("r1"));
    let staged = engine.commit().unwrap();
    let r = engine.finish_commit(staged, Ok(String::from("r2")));
    assert!(matches!(r, Err(ScabbardStateError::Persistence(_))));
    assert_eq!(engine.current_state_root(), "r0");
}

#[test]
fn second_prepare_replaces_the_staged_set() {
    let mut engine = ScabbardState::new(String::from("r0"));
    engine.stage_change("b1", vec![put("a", b"1")], String::from("r1"));
    engine.stage_change("b2", vec![put("b", b"2")], String::from("r2"));
    let staged = engine.commit().unwrap();
    assert_eq!(staged.batch_id, "b2");
    assert_eq!(staged.prospective_root, "r2");
}

#[test]
fn head_entry_round_trip() {
    let root = ScabbardState::root_from_head(Some(vec![0xab, 0xcd])).unwrap();
    assert_eq!(root, "abcd");
    assert_eq!(ScabbardState::head_from_root(&root).unwrap(), vec![0xab, 0xcd]);
    assert!(ScabbardState::root_from_head(None).is_none());
    assert!(matches!(
        ScabbardState::head_from_root("not-hex"),
        Err(ScabbardStateError::Persistence(_))
    ));
}
