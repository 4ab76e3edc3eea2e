//! Per-batch execution outcomes and the status derived from them.

use vstd::prelude::*;

use crate::changes::StateChange;

verus! {

/// Outcome of executing one transaction of a batch: success with the
/// ordered state changes it produced, or failure with its error detail.
#[derive(Debug)]
pub enum TransactionResult {
    Valid { transaction_id: String, state_changes: Vec<StateChange> },
    Invalid { transaction_id: String, error_message: String, error_data: Vec<u8> },
}

impl TransactionResult {
    pub open spec fn is_valid(self) -> bool {
        self is Valid
    }
}

/// What the execution pipeline handed back for a whole batch: the
/// per-transaction results, or nothing within the configured bound.
#[derive(Debug)]
pub enum ExecutionOutcome {
    Completed(Vec<TransactionResult>),
    TimedOut,
}

/// A successfully executed transaction, identified for the batch status.
#[derive(Debug)]
pub struct ValidTransaction {
    pub transaction_id: String,
}

/// A failed transaction together with its error detail.
#[derive(Debug)]
pub struct InvalidTransaction {
    pub transaction_id: String,
    pub error_message: String,
    pub error_data: Vec<u8>,
}

/// Mathematical value of an `InvalidTransaction`.
pub struct InvalidTransactionView {
    pub transaction_id: Seq<char>,
    pub error_message: Seq<char>,
    pub error_data: Seq<u8>,
}

impl View for InvalidTransaction {
    type V = InvalidTransactionView;

    open spec fn view(&self) -> InvalidTransactionView {
        InvalidTransactionView {
            transaction_id: self.transaction_id@,
            error_message: self.error_message@,
            error_data: self.error_data@,
        }
    }
}

/// Execution/commit status of one batch.
///
/// `Unknown` is synthesized for ids never recorded and is never stored.
/// A stored status only moves along `Pending -> Invalid` (terminal) or
/// `Pending -> Valid -> Committed` (terminal).
#[derive(Debug)]
pub enum BatchStatus {
    Unknown,
    Pending,
    Invalid(Vec<InvalidTransaction>),
    Valid(Vec<ValidTransaction>),
    Committed(Vec<ValidTransaction>),
}

/// Mathematical value of a `BatchStatus`: invalid records carry their
/// full detail, valid and committed carry the transaction ids.
pub enum BatchStatusView {
    Unknown,
    Pending,
    Invalid(Seq<InvalidTransactionView>),
    Valid(Seq<Seq<char>>),
    Committed(Seq<Seq<char>>),
}

impl View for BatchStatus {
    type V = BatchStatusView;

    open spec fn view(&self) -> BatchStatusView {
        match self {
            BatchStatus::Unknown => BatchStatusView::Unknown,
            BatchStatus::Pending => BatchStatusView::Pending,
            BatchStatus::Invalid(txns) => BatchStatusView::Invalid(
                txns@.map_values(|t: InvalidTransaction| t@),
            ),
            BatchStatus::Valid(txns) => BatchStatusView::Valid(
                txns@.map_values(|t: ValidTransaction| t.transaction_id@),
            ),
            BatchStatus::Committed(txns) => BatchStatusView::Committed(
                txns@.map_values(|t: ValidTransaction| t.transaction_id@),
            ),
        }
    }
}

/// The id of one result, valid or not.
pub open spec fn result_id(r: TransactionResult) -> Seq<char> {
    match r {
        TransactionResult::Valid { transaction_id, .. } => transaction_id@,
        TransactionResult::Invalid { transaction_id, .. } => transaction_id@,
    }
}

/// The failure detail of one invalid result.
pub open spec fn result_error(r: TransactionResult) -> InvalidTransactionView {
    match r {
        TransactionResult::Invalid { transaction_id, error_message, error_data } =>
            InvalidTransactionView {
                transaction_id: transaction_id@,
                error_message: error_message@,
                error_data: error_data@,
            },
        TransactionResult::Valid { transaction_id, .. } => InvalidTransactionView {
            transaction_id: transaction_id@,
            error_message: Seq::empty(),
            error_data: Seq::empty(),
        },
    }
}

/// Whether some result in the list failed.
pub open spec fn any_invalid(results: Seq<TransactionResult>) -> bool {
    exists|i: int| 0 <= i < results.len() && !(#[trigger] results[i]).is_valid()
}

/// The failure records of a result list, in result order.
pub open spec fn invalid_records_of(results: Seq<TransactionResult>) -> Seq<
    InvalidTransactionView,
> {
    results.filter(|r: TransactionResult| !r.is_valid()).map_values(
        |r: TransactionResult| result_error(r),
    )
}

/// The status a result list gives a batch: if any transaction failed,
/// `Invalid` with every failure record in result order; otherwise `Valid`
/// with every transaction id in result order.
pub open spec fn status_of_results(results: Seq<TransactionResult>) -> BatchStatusView {
    if any_invalid(results) {
        BatchStatusView::Invalid(invalid_records_of(results))
    } else {
        BatchStatusView::Valid(results.map_values(|r: TransactionResult| result_id(r)))
    }
}

/// The state changes one result contributes: a valid transaction's
/// changes in order, nothing for a failed one.
pub open spec fn result_changes(r: TransactionResult) -> Seq<crate::changes::ChangeView> {
    match r {
        TransactionResult::Valid { state_changes, .. } => crate::changes::views_of(
            state_changes@,
        ),
        TransactionResult::Invalid { .. } => Seq::empty(),
    }
}

/// The one ordered change list of a whole batch: every transaction's
/// changes, in transaction order within the batch.
pub open spec fn flattened_views(results: Seq<TransactionResult>) -> Seq<
    crate::changes::ChangeView,
>
    decreases results.len(),
{
    if results.len() == 0 {
        Seq::empty()
    } else {
        flattened_views(results.drop_last()) + result_changes(results.last())
    }
}

pub proof fn lemma_flattened_push(s: Seq<TransactionResult>, x: TransactionResult)
    ensures
        flattened_views(s.push(x)) == flattened_views(s) + result_changes(x),
{
    assert(s.push(x).drop_last() =~= s);
}

/// A batch with a failed transaction has at least that failure recorded.
pub proof fn lemma_any_invalid_nonempty(results: Seq<TransactionResult>)
    requires
        any_invalid(results),
    ensures
        invalid_records_of(results).len() > 0,
{
    let p = |r: TransactionResult| !r.is_valid();
    let i = choose|i: int| 0 <= i < results.len() && !(#[trigger] results[i]).is_valid();
    results.lemma_filter_contains(p, i);
}

proof fn lemma_map_values_push<A, B>(s: Seq<A>, x: A, f: spec_fn(A) -> B)
    ensures
        s.push(x).map_values(f) =~= s.map_values(f).push(f(x)),
{
}

proof fn lemma_filter_push<A>(s: Seq<A>, x: A, pred: spec_fn(A) -> bool)
    ensures
        s.push(x).filter(pred) == if pred(x) {
            s.filter(pred).push(x)
        } else {
            s.filter(pred)
        },
{
    reveal_with_fuel(Seq::filter, 2);
    assert(s.push(x).drop_last() =~= s);
    assert(s.push(x).last() == x);
}

proof fn lemma_filter_all_valid(s: Seq<TransactionResult>)
    requires
        forall|i: int| 0 <= i < s.len() ==> (#[trigger] s[i]).is_valid(),
    ensures
        s.filter(|r: TransactionResult| r.is_valid()) == s,
        s.filter(|r: TransactionResult| !r.is_valid()) == Seq::<TransactionResult>::empty(),
    decreases s.len(),
{
    reveal_with_fuel(Seq::filter, 2);
    if s.len() > 0 {
        lemma_filter_all_valid(s.drop_last());
        assert(s.drop_last().push(s.last()) =~= s);
    }
}

/// Copy a byte vector.
fn clone_bytes(src: &Vec<u8>) -> (out: Vec<u8>)
    ensures
        out@ == src@,
{
    let mut out: Vec<u8> = Vec::new();
    let mut i: usize = 0;
    while i < src.len()
        invariant
            i <= src@.len(),
            out@ =~= src@.take(i as int),
        decreases src@.len() - i,
    {
        out.push(src[i]);
        proof {
            assert(src@.take(i + 1) =~= src@.take(i as int).push(src@[i as int]));
        }
        i += 1;
    }
    proof {
        assert(src@.take(src@.len() as int) =~= src@);
    }
    out
}

impl Clone for ValidTransaction {
    fn clone(&self) -> (r: Self)
        ensures
            r.transaction_id@ == self.transaction_id@,
    {
        ValidTransaction { transaction_id: self.transaction_id.clone() }
    }
}

impl Clone for InvalidTransaction {
    fn clone(&self) -> (r: Self)
        ensures
            r@ == self@,
    {
        InvalidTransaction {
            transaction_id: self.transaction_id.clone(),
            error_message: self.error_message.clone(),
            error_data: clone_bytes(&self.error_data),
        }
    }
}

/// Copy a list of valid-transaction records.
fn clone_valid_list(src: &Vec<ValidTransaction>) -> (out: Vec<ValidTransaction>)
    ensures
        out@.map_values(|t: ValidTransaction| t.transaction_id@) == src@.map_values(
            |t: ValidTransaction| t.transaction_id@,
        ),
{
    let mut out: Vec<ValidTransaction> = Vec::new();
    let mut i: usize = 0;
    while i < src.len()
        invariant
            i <= src@.len(),
            out@.len() == i,
            forall|j: int|
                0 <= j < i ==> (#[trigger] out@[j]).transaction_id@ == src@[j].transaction_id@,
        decreases src@.len() - i,
    {
        out.push(src[i].clone());
        i += 1;
    }
    proof {
        assert(out@.map_values(|t: ValidTransaction| t.transaction_id@) =~= src@.map_values(
            |t: ValidTransaction| t.transaction_id@,
        ));
    }
    out
}

/// Copy a list of failure records.
fn clone_invalid_list(src: &Vec<InvalidTransaction>) -> (out: Vec<InvalidTransaction>)
    ensures
        out@.map_values(|t: InvalidTransaction| t@) == src@.map_values(
            |t: InvalidTransaction| t@,
        ),
{
    let mut out: Vec<InvalidTransaction> = Vec::new();
    let mut i: usize = 0;
    while i < src.len()
        invariant
            i <= src@.len(),
            out@.len() == i,
            forall|j: int| 0 <= j < i ==> (#[trigger] out@[j])@ == src@[j]@,
        decreases src@.len() - i,
    {
        out.push(src[i].clone());
        i += 1;
    }
    proof {
        assert(out@.map_values(|t: InvalidTransaction| t@) =~= src@.map_values(
            |t: InvalidTransaction| t@,
        ));
    }
    out
}

impl Clone for BatchStatus {
    fn clone(&self) -> (r: Self)
        ensures
            r@ == self@,
    {
        match self {
            BatchStatus::Unknown => BatchStatus::Unknown,
            BatchStatus::Pending => BatchStatus::Pending,
            BatchStatus::Invalid(txns) => BatchStatus::Invalid(clone_invalid_list(txns)),
            BatchStatus::Valid(txns) => BatchStatus::Valid(clone_valid_list(txns)),
            BatchStatus::Committed(txns) => BatchStatus::Committed(clone_valid_list(txns)),
        }
    }
}

impl BatchStatus {
    /// Derive the status of a batch from its per-transaction results.
    pub fn from_results(results: &Vec<TransactionResult>) -> (status: BatchStatus)
        ensures
            status@ == status_of_results(results@),
            !(status@ is Committed),
            !(status@ is Pending),
            !(status@ is Unknown),
    {
        let mut valid: Vec<ValidTransaction> = Vec::new();
        let mut invalid: Vec<InvalidTransaction> = Vec::new();
        let mut i: usize = 0;
        while i < results.len()
            invariant
                i <= results@.len(),
                invalid@.map_values(|t: InvalidTransaction| t@) =~= results@.take(
                    i as int,
                ).filter(|r: TransactionResult| !r.is_valid()).map_values(
                    |r: TransactionResult| result_error(r),
                ),
                valid@.map_values(|t: ValidTransaction| t.transaction_id@) =~= results@.take(
                    i as int,
                ).filter(|r: TransactionResult| r.is_valid()).map_values(
                    |r: TransactionResult| result_id(r),
                ),
            decreases results@.len() - i,
        {
            let ghost prefix = results@.take(i as int);
            let ghost r = results@[i as int];
            let ghost p_inv = |q: TransactionResult| !q.is_valid();
            let ghost p_val = |q: TransactionResult| q.is_valid();
            let ghost f_err = |q: TransactionResult| result_error(q);
            let ghost f_id = |q: TransactionResult| result_id(q);
            proof {
                assert(results@.take(i + 1) =~= prefix.push(r));
                lemma_filter_push(prefix, r, p_inv);
                lemma_filter_push(prefix, r, p_val);
            }
            match &results[i] {
                TransactionResult::Valid { transaction_id, .. } => {
                    let entry = ValidTransaction { transaction_id: transaction_id.clone() };
                    proof {
                        assert(entry.transaction_id@ == result_id(r));
                        lemma_map_values_push(
                            valid@,
                            entry,
                            |t: ValidTransaction| t.transaction_id@,
                        );
                        lemma_map_values_push(prefix.filter(p_val), r, f_id);
                    }
                    valid.push(entry);
                },
                TransactionResult::Invalid { transaction_id, error_message, error_data } => {
                    let entry = InvalidTransaction {
                        transaction_id: transaction_id.clone(),
                        error_message: error_message.clone(),
                        error_data: clone_bytes(error_data),
                    };
                    proof {
                        assert(entry@ == result_error(r));
                        lemma_map_values_push(invalid@, entry, |t: InvalidTransaction| t@);
                        lemma_map_values_push(prefix.filter(p_inv), r, f_err);
                    }
                    invalid.push(entry);
                },
            }
            i += 1;
        }
        proof {
            assert(results@.take(results@.len() as int) =~= results@);
        }
        if invalid.len() > 0 {
            proof {
                assert(results@.filter(|r: TransactionResult| !r.is_valid()).len() > 0);
                if !any_invalid(results@) {
                    lemma_filter_all_valid(results@);
                }
            }
            BatchStatus::Invalid(invalid)
        } else {
            proof {
                let p = |r: TransactionResult| !r.is_valid();
                if any_invalid(results@) {
                    let i = choose|i: int|
                        0 <= i < results@.len() && !(#[trigger] results@[i]).is_valid();
                    results@.lemma_filter_contains(p, i);
                }
                lemma_filter_all_valid(results@);
            }
            BatchStatus::Valid(valid)
        }
    }
}

} // verus!
