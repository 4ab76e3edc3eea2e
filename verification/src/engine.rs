//! The state engine: one authoritative state-root pointer, at most one
//! staged change set, and the commit/rollback protocol over them.
//!
//! The versioned store and the execution pipeline are outside
//! collaborators: the surrounding service runs a batch through the
//! pipeline and hands the outcome to `prepare_change`, computes the
//! prospective root for the change list `prepare_change` returns and
//! stages it with `stage_change`, and applies a taken change set to the
//! store before reporting the durable result to `finish_commit`.  Every
//! decision in between is made, and verified, here.

use vstd::prelude::*;
use vstd::string::StringExecFns;

use crate::batch::{
    any_invalid, flattened_views, invalid_records_of, lemma_any_invalid_nonempty,
    lemma_flattened_push, result_changes, status_of_results, BatchStatus, ExecutionOutcome,
    TransactionResult,
};
use crate::changes::{lemma_views_concat, views_of, ChangeView, StateChange, StateChangeEvent};
use crate::error::ScabbardStateError;
use crate::hexcode::{from_hex_of, is_hex_str, parse_hex, to_hex, to_hex_of};
use crate::history::{
    commit_effect, recorded_at_some_time, update_effect, BatchHistory, BatchInfo, BatchInfoView,
};

verus! {

/// Preparing a batch never advances any tracked status past `Valid`: a
/// status derived from execution results is `Invalid` or `Valid`, and
/// recording it cannot make an entry `Committed` that was not already.
pub proof fn lemma_prepare_never_commits(
    pre: Map<Seq<char>, BatchInfoView>,
    sig: Seq<char>,
    results: Seq<TransactionResult>,
)
    ensures
        forall|k: Seq<char>|
            #![trigger update_effect(pre, sig, status_of_results(results)).index(k)]
            update_effect(pre, sig, status_of_results(results)).dom().contains(k)
                && update_effect(pre, sig, status_of_results(results)).index(k).status is Committed
                ==> pre.dom().contains(k) && pre[k].status is Committed,
{
}

/// Seconds the engine waits for the execution pipeline before a batch is
/// treated as timed out.
pub const EXECUTION_TIMEOUT: u64 = 300;

/// The single staged change set: the batch it came from, the ordered
/// changes it would apply, and the root those changes would produce.
#[derive(Debug)]
pub struct PendingChangeSet {
    pub batch_id: String,
    pub changes: Vec<StateChange>,
    pub prospective_root: String,
}

/// Mathematical value of a `PendingChangeSet`.
pub struct PendingView {
    pub batch_id: Seq<char>,
    pub changes: Seq<ChangeView>,
    pub prospective_root: Seq<char>,
}

impl View for PendingChangeSet {
    type V = PendingView;

    open spec fn view(&self) -> PendingView {
        PendingView {
            batch_id: self.batch_id@,
            changes: views_of(self.changes@),
            prospective_root: self.prospective_root@,
        }
    }
}

/// Owns the current committed root, stages at most one pending change
/// set, and tracks each batch's lifecycle.
pub struct ScabbardState {
    current_state_root: String,
    pending_changes: Option<PendingChangeSet>,
    batch_history: BatchHistory,
}

impl ScabbardState {
    /// The root of the last committed version.
    pub closed spec fn root(&self) -> Seq<char> {
        self.current_state_root@
    }

    /// The staged change set, if the engine is in the staged state.
    pub closed spec fn pending(&self) -> Option<PendingView> {
        match self.pending_changes {
            Some(p) => Some(p@),
            None => None,
        }
    }

    /// The lifecycle tracker's table.
    pub closed spec fn history(&self) -> Map<Seq<char>, BatchInfoView> {
        self.batch_history@
    }

    /// Number of tracked batches.
    pub closed spec fn history_size(&self) -> nat {
        self.batch_history.size()
    }

    /// Most batches the tracker will hold.
    pub closed spec fn history_limit(&self) -> nat {
        self.batch_history.spec_limit()
    }

    /// An engine at the given committed root, idle, with an empty
    /// lifecycle tracker.  On a fresh store the caller passes the genesis
    /// root; on restart, the restored one.  No pending change set ever
    /// survives a restart.
    pub fn new(current_state_root: String) -> (s: Self)
        ensures
            s.root() == current_state_root@,
            s.pending() is None,
            s.history() == Map::<Seq<char>, BatchInfoView>::empty(),
            s.history_limit() == 100,
    {
        ScabbardState {
            current_state_root,
            pending_changes: None,
            batch_history: BatchHistory::new(),
        }
    }

    /// The root of the last committed version.
    pub fn current_state_root(&self) -> (r: &String)
        ensures
            r@ == self.root(),
    {
        &self.current_state_root
    }

    /// The lifecycle tracker.
    pub fn batch_history(&self) -> (h: &BatchHistory)
        ensures
            h@ == self.history(),
    {
        &self.batch_history
    }

    /// Record a batch as `Pending` in the lifecycle tracker.
    pub fn add_batch(&mut self, signature: &str) -> (r: Result<(), ScabbardStateError>)
        ensures
            r is Ok,
            final(self).root() == old(self).root(),
            final(self).pending() == old(self).pending(),
            final(self).history_limit() == old(self).history_limit(),
            final(self).history_size() <= final(self).history_limit(),
            recorded_at_some_time(
                old(self).history(),
                final(self).history(),
                old(self).history_size(),
                old(self).history_limit(),
                signature@,
            ),
    {
        self.batch_history.add_batch(signature)
    }

    /// What happened to a batch: the tracked record, or `Unknown` for an
    /// id never recorded; never fails and never changes the tracker.
    pub fn get_batch_info(&self, signature: &str) -> (r: Result<BatchInfo, ScabbardStateError>)
        ensures
            r is Ok,
            self.history().dom().contains(signature@) ==> (r matches Ok(info) && info@
                == self.history().index(signature@)),
            !self.history().dom().contains(signature@) ==> (r matches Ok(info) && info.id@
                == signature@ && info.status@ is Unknown),
    {
        self.batch_history.get_batch_info(signature)
    }

    /// Decide on an execution outcome for one batch.
    ///
    /// A timeout fails with `ExecutionTimeout` and changes nothing.  For
    /// a completed run the derived status is recorded (only over a still
    /// `Pending` entry); if any transaction failed, the call fails with
    /// `InvalidBatch` carrying the first failure and nothing is staged;
    /// otherwise the transactions' changes, flattened in transaction
    /// order, are returned for the prospective root to be computed on.
    /// The committed root and the staged slot are never touched.
    pub fn prepare_change(&mut self, signature: &str, outcome: ExecutionOutcome) -> (r: Result<
        Vec<StateChange>,
        ScabbardStateError,
    >)
        ensures
            final(self).root() == old(self).root(),
            final(self).pending() == old(self).pending(),
            final(self).history_limit() == old(self).history_limit(),
            final(self).history_size() == old(self).history_size(),
            match outcome {
                ExecutionOutcome::TimedOut => r matches Err(e) && e is ExecutionTimeout
                    && final(self).history() == old(self).history(),
                ExecutionOutcome::Completed(results) => {
                    &&& final(self).history() == update_effect(
                        old(self).history(),
                        signature@,
                        status_of_results(results@),
                    )
                    &&& if any_invalid(results@) {
                        r matches Err(e) && (e matches ScabbardStateError::InvalidBatch(t) && t@
                            == invalid_records_of(results@)[0])
                    } else {
                        r matches Ok(changes) && views_of(changes@) == flattened_views(results@)
                    }
                },
            },
    {
        let results = match outcome {
            ExecutionOutcome::Completed(results) => results,
            ExecutionOutcome::TimedOut => {
                return Err(ScabbardStateError::ExecutionTimeout);
            },
        };
        let status = BatchStatus::from_results(&results);
        let first_failure = match &status {
            BatchStatus::Invalid(records) => {
                proof {
                    lemma_any_invalid_nonempty(results@);
                }
                Some(records[0].clone())
            },
            _ => None,
        };
        self.batch_history.update_batch_status(signature, status);
        match first_failure {
            Some(failure) => Err(ScabbardStateError::InvalidBatch(failure)),
            None => {
                let ghost all = results@;
                let mut remaining = results;
                let mut changes: Vec<StateChange> = Vec::new();
                let ghost mut done: int = 0;
                while remaining.len() > 0
                    invariant
                        0 <= done <= all.len(),
                        remaining@ =~= all.skip(done),
                        views_of(changes@) =~= flattened_views(all.take(done)),
                    decreases remaining@.len(),
                {
                    let r0 = remaining.remove(0);
                    proof {
                        assert(r0 == all[done]);
                        assert(all.take(done + 1) =~= all.take(done).push(all[done]));
                        lemma_flattened_push(all.take(done), all[done]);
                    }
                    let ghost before = changes@;
                    match r0 {
                        TransactionResult::Valid { mut state_changes, .. } => {
                            let ghost sc = state_changes@;
                            changes.append(&mut state_changes);
                            proof {
                                assert(changes@ =~= before + sc);
                                lemma_views_concat(before, sc);
                            }
                        },
                        TransactionResult::Invalid { .. } => {
                            proof {
                                assert(result_changes(all[done]) =~= Seq::<ChangeView>::empty());
                                assert(views_of(changes@) =~= views_of(before) + result_changes(
                                    all[done],
                                ));
                            }
                        },
                    }
                    proof {
                        done = done + 1;
                    }
                }
                proof {
                    assert(all.take(done) =~= all);
                }
                Ok(changes)
            },
        }
    }

    /// Stage a change set, tagged with the prospective root computed for
    /// it, replacing whatever was staged before.  The committed root and
    /// the tracker are untouched.
    pub fn stage_change(&mut self, signature: &str, changes: Vec<StateChange>, prospective_root: String)
        ensures
            final(self).root() == old(self).root(),
            final(self).history() == old(self).history(),
            final(self).history_size() == old(self).history_size(),
            final(self).history_limit() == old(self).history_limit(),
            final(self).pending() == Some(
                PendingView {
                    batch_id: signature@,
                    changes: views_of(changes@),
                    prospective_root: prospective_root@,
                },
            ),
    {
        self.pending_changes = Some(
            PendingChangeSet {
                batch_id: String::from_str(signature),
                changes,
                prospective_root,
            },
        );
    }

    /// Take the staged change set for persistence, leaving the engine
    /// idle.  With nothing staged it fails with `NoPendingChange` and
    /// leaves all state untouched.
    pub fn commit(&mut self) -> (r: Result<PendingChangeSet, ScabbardStateError>)
        ensures
            final(self).root() == old(self).root(),
            final(self).history() == old(self).history(),
            final(self).history_size() == old(self).history_size(),
            final(self).history_limit() == old(self).history_limit(),
            final(self).pending() is None,
            match old(self).pending() {
                None => r matches Err(e) && e is NoPendingChange,
                Some(pv) => r matches Ok(p) && p@ == pv,
            },
    {
        match self.pending_changes.take() {
            Some(staged) => Ok(staged),
            None => Err(ScabbardStateError::NoPendingChange),
        }
    }

    /// Conclude a commit after the store was asked to apply a taken
    /// change set and durably record its root.
    ///
    /// Only when the store reports success with exactly the staged
    /// prospective root does the committed root advance — to that root —
    /// the batch get marked `Committed` (only over a `Valid` status), and
    /// the ordered state-change events of the change set come back for
    /// publication.  On any store failure, or a reported root different
    /// from the staged one, the call fails with `Persistence` and the
    /// committed root and tracker are unchanged.
    pub fn finish_commit(&mut self, staged: PendingChangeSet, persist_result: Result<
        String,
        String,
    >) -> (r: Result<Vec<StateChangeEvent>, ScabbardStateError>)
        ensures
            final(self).pending() == old(self).pending(),
            final(self).history_limit() == old(self).history_limit(),
            final(self).history_size() == old(self).history_size(),
            match r {
                Ok(events) => {
                    &&& persist_result matches Ok(root) && root@ == staged.prospective_root@
                    &&& final(self).root() == staged.prospective_root@
                    &&& crate::changes::event_views_of(events@) == views_of(staged.changes@)
                    &&& final(self).history() == commit_effect(old(self).history(), staged.batch_id@)
                },
                Err(e) => {
                    &&& e is Persistence
                    &&& final(self).root() == old(self).root()
                    &&& final(self).history() == old(self).history()
                    &&& match persist_result {
                        Ok(root) => root@ != staged.prospective_root@,
                        Err(_) => true,
                    }
                },
            },
    {
        let PendingChangeSet { batch_id, changes, prospective_root } = staged;
        match persist_result {
            Ok(reported) => {
                if reported.eq(&prospective_root) {
                    let events = StateChangeEvent::from_state_changes(changes);
                    self.batch_history.commit(batch_id.as_str());
                    self.current_state_root = prospective_root;
                    Ok(events)
                } else {
                    Err(ScabbardStateError::Persistence(reported))
                }
            },
            Err(message) => Err(ScabbardStateError::Persistence(message)),
        }
    }

    /// The committed root a durable HEAD entry denotes: its bytes
    /// rendered as lowercase hex.  An absent entry means a fresh store
    /// that still needs its genesis snapshot.
    pub fn root_from_head(head: Option<Vec<u8>>) -> (r: Option<String>)
        ensures
            match head {
                Some(bytes) => r matches Some(root) && root@ == to_hex_of(bytes@),
                None => r is None,
            },
    {
        match head {
            Some(bytes) => Some(to_hex(&bytes)),
            None => None,
        }
    }

    /// The bytes to record durably at HEAD for a committed root; fails
    /// exactly when the root is no hex string, without touching anything.
    pub fn head_from_root(root: &str) -> (r: Result<Vec<u8>, ScabbardStateError>)
        ensures
            r is Ok <==> is_hex_str(root@),
            r matches Ok(b) ==> b@ == from_hex_of(root@),
            r matches Err(e) ==> e is Persistence,
    {
        match parse_hex(root) {
            Ok(bytes) => Ok(bytes),
            Err(_) => Err(
                ScabbardStateError::Persistence(
                    String::from_str("the in-memory state root is not a hex string"),
                ),
            ),
        }
    }

    /// Discard whatever is staged without touching the committed root or
    /// any tracked status; with nothing staged this is a no-op.
    pub fn rollback(&mut self) -> (r: Result<(), ScabbardStateError>)
        ensures
            r is Ok,
            final(self).root() == old(self).root(),
            final(self).history() == old(self).history(),
            final(self).history_size() == old(self).history_size(),
            final(self).history_limit() == old(self).history_limit(),
            final(self).pending() is None,
    {
        self.pending_changes = None;
        Ok(())
    }
}

} // verus!
