//! Bounded record of what happened to each submitted batch.
//!
//! The tracker maps a batch id to its `BatchInfo` and never holds more
//! than `limit` entries: when an insertion would exceed the limit, one
//! entry with the smallest timestamp is evicted.  Status updates are
//! guarded so that a terminal status is never overwritten by a late or
//! duplicate callback.

use vstd::map::*;
use vstd::prelude::*;
use vstd::string::StringExecFns;

use crate::batch::{BatchStatus, BatchStatusView};
use crate::error::ScabbardStateError;

verus! {

/// What the tracker records for one batch: its id, its current status,
/// and the time it was recorded, used only for eviction ordering.
#[derive(Debug)]
pub struct BatchInfo {
    pub id: String,
    pub status: BatchStatus,
    pub timestamp: u64,
}

/// Mathematical value of a `BatchInfo`.
pub struct BatchInfoView {
    pub id: Seq<char>,
    pub status: BatchStatusView,
    pub timestamp: u64,
}

impl View for BatchInfo {
    type V = BatchInfoView;

    open spec fn view(&self) -> BatchInfoView {
        BatchInfoView { id: self.id@, status: self.status@, timestamp: self.timestamp }
    }
}

impl Clone for BatchInfo {
    fn clone(&self) -> (r: Self)
        ensures
            r@ == self@,
    {
        BatchInfo { id: self.id.clone(), status: self.status.clone(), timestamp: self.timestamp }
    }
}

impl BatchInfo {
    /// Replace the status, keeping id and timestamp.
    pub fn set_status(&mut self, status: BatchStatus)
        ensures
            final(self)@ == (BatchInfoView {
                status: status@,
                ..old(self)@
            }),
    {
        self.status = status;
    }
}

/// Reads the wall clock.  Relies on `std::time::SystemTime::now`; the
/// value depends on the clock, so nothing is promised of it.
#[verifier::external_body]
fn now_millis() -> u64 {
    std::time::SystemTime::now().duration_since(std::time::UNIX_EPOCH).map(
        |d| d.as_millis() as u64,
    ).unwrap_or(0)
}

/// No two entries carry the same id.
pub open spec fn unique_ids(s: Seq<BatchInfo>) -> bool {
    forall|i: int, j: int|
        0 <= i < j < s.len() ==> (#[trigger] s[i]).id@ != (#[trigger] s[j]).id@
}

/// Some entry carries this id.
pub open spec fn seq_contains_id(s: Seq<BatchInfo>, id: Seq<char>) -> bool {
    exists|i: int| 0 <= i < s.len() && (#[trigger] s[i]).id@ == id
}

/// An index of an entry carrying this id.
pub open spec fn seq_index_of_id(s: Seq<BatchInfo>, id: Seq<char>) -> int {
    choose|i: int| 0 <= i < s.len() && (#[trigger] s[i]).id@ == id
}

/// The table a sequence of entries denotes: batch id to recorded info.
pub open spec fn history_map(s: Seq<BatchInfo>) -> Map<Seq<char>, BatchInfoView> {
    Map::new(
        |k: Seq<char>| seq_contains_id(s, k),
        |k: Seq<char>| s[seq_index_of_id(s, k)]@,
    )
}

proof fn lemma_lookup(s: Seq<BatchInfo>, k: Seq<char>, i: int)
    requires
        unique_ids(s),
        0 <= i < s.len(),
        s[i].id@ == k,
    ensures
        history_map(s).dom().contains(k),
        history_map(s)[k] == s[i]@,
        seq_index_of_id(s, k) == i,
{
    assert(seq_contains_id(s, k));
    let j = seq_index_of_id(s, k);
    assert(0 <= j < s.len() && s[j].id@ == k);
}

proof fn lemma_map_update(s: Seq<BatchInfo>, i: int, info: BatchInfo)
    requires
        unique_ids(s),
        0 <= i < s.len(),
        s[i].id@ == info.id@,
    ensures
        unique_ids(s.update(i, info)),
        history_map(s.update(i, info)) == history_map(s).insert(info.id@, info@),
{
    let s2 = s.update(i, info);
    assert(forall|j: int| 0 <= j < s.len() ==> (#[trigger] s2[j]).id@ == s[j].id@);
    let m2 = history_map(s2);
    let tgt = history_map(s).insert(info.id@, info@);
    assert_maps_equal!(m2, tgt, k => {
        if k == info.id@ {
            lemma_lookup(s2, k, i);
        } else {
            if seq_contains_id(s, k) {
                let j = seq_index_of_id(s, k);
                assert(0 <= j < s.len() && s[j].id@ == k);
                lemma_lookup(s, k, j);
                lemma_lookup(s2, k, j);
            }
            if seq_contains_id(s2, k) {
                let j = seq_index_of_id(s2, k);
                assert(0 <= j < s2.len() && s2[j].id@ == k);
                assert(seq_contains_id(s, k));
            }
        }
    });
}

proof fn lemma_map_push(s: Seq<BatchInfo>, info: BatchInfo)
    requires
        unique_ids(s),
        !seq_contains_id(s, info.id@),
    ensures
        unique_ids(s.push(info)),
        history_map(s.push(info)) == history_map(s).insert(info.id@, info@),
{
    let s2 = s.push(info);
    assert(forall|j: int| 0 <= j < s.len() ==> (#[trigger] s2[j]).id@ == s[j].id@);
    assert(s2[s.len() as int].id@ == info.id@);
    assert forall|p: int, q: int| 0 <= p < q < s2.len() implies (#[trigger] s2[p]).id@ != (
    #[trigger] s2[q]).id@ by {
        if q == s.len() {
            assert(s2[p].id@ == s[p].id@);
        }
    }
    let m2 = history_map(s2);
    let tgt = history_map(s).insert(info.id@, info@);
    assert_maps_equal!(m2, tgt, k => {
        if k == info.id@ {
            lemma_lookup(s2, k, s.len() as int);
        } else {
            if seq_contains_id(s, k) {
                let j = seq_index_of_id(s, k);
                assert(0 <= j < s.len() && s[j].id@ == k);
                lemma_lookup(s, k, j);
                lemma_lookup(s2, k, j);
            }
            if seq_contains_id(s2, k) {
                let j = seq_index_of_id(s2, k);
                assert(0 <= j < s2.len() && s2[j].id@ == k);
                assert(j != s.len());
                assert(seq_contains_id(s, k));
            }
        }
    });
}

proof fn lemma_map_remove(s: Seq<BatchInfo>, i: int)
    requires
        unique_ids(s),
        0 <= i < s.len(),
    ensures
        unique_ids(s.remove(i)),
        history_map(s.remove(i)) == history_map(s).remove(s[i].id@),
{
    let s2 = s.remove(i);
    s.remove_ensures(i);
    assert(forall|j: int| 0 <= j < i ==> s2[j] == s[j]);
    assert(forall|j: int| i <= j < s2.len() ==> s2[j] == s[j + 1]);
    assert forall|p: int, q: int| 0 <= p < q < s2.len() implies (#[trigger] s2[p]).id@ != (
    #[trigger] s2[q]).id@ by {
        let p0 = if p < i { p } else { p + 1 };
        let q0 = if q < i { q } else { q + 1 };
        assert(s2[p] == s[p0]);
        assert(s2[q] == s[q0]);
    }
    let m2 = history_map(s2);
    let tgt = history_map(s).remove(s[i].id@);
    assert_maps_equal!(m2, tgt, k => {
        if k == s[i].id@ {
            if seq_contains_id(s2, k) {
                let j = seq_index_of_id(s2, k);
                assert(0 <= j < s2.len() && s2[j].id@ == k);
                let j0 = if j < i { j } else { j + 1 };
                assert(s[j0].id@ == k);
                assert(false);
            }
        } else {
            if seq_contains_id(s, k) {
                let j = seq_index_of_id(s, k);
                assert(0 <= j < s.len() && s[j].id@ == k);
                assert(j != i);
                let j2 = if j < i { j } else { j - 1 };
                assert(s2[j2].id@ == k);
                lemma_lookup(s, k, j);
                lemma_lookup(s2, k, j2);
            }
            if seq_contains_id(s2, k) {
                let j = seq_index_of_id(s2, k);
                assert(0 <= j < s2.len() && s2[j].id@ == k);
                let j0 = if j < i { j } else { j + 1 };
                assert(s[j0].id@ == k);
                assert(seq_contains_id(s, k));
            }
        }
    });
}

/// What recording a batch does to the table: the id is (re)inserted as
/// `Pending` with the given timestamp; if the id is new and the tracker
/// was full, one entry with the smallest timestamp is evicted.
/// One entry — present, and of minimal timestamp — was removed.
pub open spec fn evicted_step(
    m1: Map<Seq<char>, BatchInfoView>,
    post: Map<Seq<char>, BatchInfoView>,
    victim: Seq<char>,
) -> bool {
    &&& m1.dom().contains(victim)
    &&& forall|k: Seq<char>|
        m1.dom().contains(k) ==> m1[victim].timestamp <= (#[trigger] m1[k]).timestamp
    &&& post == m1.remove(victim)
}

pub open spec fn add_effect(
    pre: Map<Seq<char>, BatchInfoView>,
    post: Map<Seq<char>, BatchInfoView>,
    pre_size: nat,
    limit: nat,
    sig: Seq<char>,
    ts: u64,
) -> bool {
    let m1 = pre.insert(sig, BatchInfoView { id: sig, status: BatchStatusView::Pending, timestamp: ts });
    if pre.dom().contains(sig) || pre_size < limit {
        post == m1
    } else {
        exists|victim: Seq<char>| #[trigger] evicted_step(m1, post, victim)
    }
}

/// An entry of minimal timestamp was removed, and that timestamp is no
/// newer than any timestamp stored before the insertion.
pub open spec fn oldest_evicted(
    pre: Map<Seq<char>, BatchInfoView>,
    post: Map<Seq<char>, BatchInfoView>,
    sig: Seq<char>,
    ts: u64,
    victim: Seq<char>,
) -> bool {
    let m1 = pre.insert(sig, BatchInfoView { id: sig, status: BatchStatusView::Pending, timestamp: ts });
    &&& evicted_step(m1, post, victim)
    &&& forall|k: Seq<char>|
        pre.dom().contains(k) ==> m1[victim].timestamp <= (#[trigger] pre[k]).timestamp
}

/// Recording a fresh id in a full tracker evicts exactly one entry, and
/// — when the new timestamp is no older than every stored one — the
/// evicted entry's timestamp is the smallest among those stored before
/// the insertion.
pub proof fn lemma_eviction_oldest(
    pre: Map<Seq<char>, BatchInfoView>,
    post: Map<Seq<char>, BatchInfoView>,
    pre_size: nat,
    limit: nat,
    sig: Seq<char>,
    ts: u64,
)
    requires
        !pre.dom().contains(sig),
        pre_size >= limit,
        add_effect(pre, post, pre_size, limit, sig, ts),
        forall|k: Seq<char>| pre.dom().contains(k) ==> (#[trigger] pre[k]).timestamp <= ts,
    ensures
        exists|victim: Seq<char>| #[trigger] oldest_evicted(pre, post, sig, ts, victim),
{
    let m1 = pre.insert(
        sig,
        BatchInfoView { id: sig, status: BatchStatusView::Pending, timestamp: ts },
    );
    let victim = choose|v: Seq<char>| evicted_step(m1, post, v);
    assert(evicted_step(m1, post, victim));
    assert forall|k: Seq<char>|
        pre.dom().contains(k) implies m1[victim].timestamp <= (#[trigger] pre[k]).timestamp by {
        assert(m1.dom().contains(k));
        assert(m1[k] == pre[k]);
    }
    assert(oldest_evicted(pre, post, sig, ts, victim));
}

/// Recording happened at some wall-clock instant: there is a timestamp
/// for which `add_effect` describes the step.
pub open spec fn recorded_at_some_time(
    pre: Map<Seq<char>, BatchInfoView>,
    post: Map<Seq<char>, BatchInfoView>,
    pre_size: nat,
    limit: nat,
    sig: Seq<char>,
) -> bool {
    exists|ts: u64| #[trigger] add_effect(pre, post, pre_size, limit, sig, ts)
}

/// What a status update does to the table: the new status is stored only
/// where the batch is known and still `Pending`; otherwise nothing
/// changes, so a terminal status is never overwritten.
pub open spec fn update_effect(
    pre: Map<Seq<char>, BatchInfoView>,
    sig: Seq<char>,
    status: BatchStatusView,
) -> Map<Seq<char>, BatchInfoView> {
    if pre.dom().contains(sig) && pre[sig].status is Pending {
        pre.insert(sig, BatchInfoView { status, ..pre[sig] })
    } else {
        pre
    }
}

/// What marking a batch committed does to the table: a `Valid` status
/// becomes `Committed` carrying the same transaction ids; any other
/// status, or an unknown id, is left unchanged.
pub open spec fn commit_effect(
    pre: Map<Seq<char>, BatchInfoView>,
    sig: Seq<char>,
) -> Map<Seq<char>, BatchInfoView> {
    if pre.dom().contains(sig) {
        match pre[sig].status {
            BatchStatusView::Valid(t) => pre.insert(
                sig,
                BatchInfoView { status: BatchStatusView::Committed(t), ..pre[sig] },
            ),
            _ => pre,
        }
    } else {
        pre
    }
}

/// Bounded table from batch id to its lifecycle record.
pub struct BatchHistory {
    history: Vec<BatchInfo>,
    limit: usize,
}

impl View for BatchHistory {
    type V = Map<Seq<char>, BatchInfoView>;

    closed spec fn view(&self) -> Map<Seq<char>, BatchInfoView> {
        history_map(self.history@)
    }
}

impl BatchHistory {
    #[verifier::type_invariant]
    spec fn inv(self) -> bool {
        &&& unique_ids(self.history@)
        &&& self.history@.len() <= self.limit
    }

    /// Number of entries currently held.
    pub closed spec fn size(&self) -> nat {
        self.history@.len()
    }

    /// Most entries the tracker will ever hold.
    pub closed spec fn spec_limit(&self) -> nat {
        self.limit as nat
    }

    pub fn new() -> (h: Self)
        ensures
            h@ == Map::<Seq<char>, BatchInfoView>::empty(),
            h.size() == 0,
            h.spec_limit() == 100,
    {
        Self::default()
    }

    /// Number of entries currently held.
    pub fn len(&self) -> (n: usize)
        ensures
            n == self.size(),
    {
        proof {
            use_type_invariant(&*self);
        }
        self.history.len()
    }

    /// Find the index of the entry carrying this id, if one does.
    fn find_index(history: &Vec<BatchInfo>, sig: &String) -> (r: Option<usize>)
        ensures
            match r {
                Some(i) => i < history@.len() && history@[i as int].id@ == sig@,
                None => !seq_contains_id(history@, sig@),
            },
    {
        let mut i: usize = 0;
        while i < history.len()
            invariant
                i <= history@.len(),
                forall|j: int| 0 <= j < i ==> (#[trigger] history@[j]).id@ != sig@,
            decreases history@.len() - i,
        {
            if history[i].id.eq(sig) {
                return Some(i);
            }
            i += 1;
        }
        None
    }

    /// Record a batch as `Pending` now, evicting the oldest entry if the
    /// tracker was full and the id is new.
    pub fn add_batch(&mut self, signature: &str) -> (r: Result<(), ScabbardStateError>)
        ensures
            r is Ok,
            final(self).spec_limit() == old(self).spec_limit(),
            final(self).size() <= final(self).spec_limit(),
            recorded_at_some_time(
                old(self)@,
                final(self)@,
                old(self).size(),
                old(self).spec_limit(),
                signature@,
            ),
            final(self).size() == if old(self)@.dom().contains(signature@) {
                old(self).size()
            } else if old(self).size() < old(self).spec_limit() {
                old(self).size() + 1
            } else {
                old(self).size()
            },
    {
        let ghost h0 = self@;
        let ghost s0 = self.size();
        let ghost l0 = self.spec_limit();
        let now: u64 = now_millis();
        let r = self.add_batch_at(signature, now);
        proof {
            assert(add_effect(h0, self@, s0, l0, signature@, now));
        }
        r
    }

    /// Record a batch as `Pending` with a given timestamp.
    pub fn add_batch_at(&mut self, signature: &str, timestamp: u64) -> (r: Result<
        (),
        ScabbardStateError,
    >)
        ensures
            r is Ok,
            final(self).spec_limit() == old(self).spec_limit(),
            final(self).size() <= final(self).spec_limit(),
            add_effect(
                old(self)@,
                final(self)@,
                old(self).size(),
                old(self).spec_limit(),
                signature@,
                timestamp,
            ),
            final(self).size() == if old(self)@.dom().contains(signature@) {
                old(self).size()
            } else if old(self).size() < old(self).spec_limit() {
                old(self).size() + 1
            } else {
                old(self).size()
            },
    {
        proof {
            use_type_invariant(&*self);
        }
        let ghost pre = self.history@;
        let sig = String::from_str(signature);
        let info = BatchInfo {
            id: String::from_str(signature),
            status: BatchStatus::Pending,
            timestamp,
        };
        let ghost m1 = history_map(pre).insert(
            signature@,
            BatchInfoView {
                id: signature@,
                status: BatchStatusView::Pending,
                timestamp,
            },
        );
        let mut hist: Vec<BatchInfo> = Vec::new();
        core::mem::swap(&mut hist, &mut self.history);
        let ghost existed = seq_contains_id(pre, signature@);
        match Self::find_index(&hist, &sig) {
            Some(i) => {
                proof {
                    lemma_lookup(pre, signature@, i as int);
                    lemma_map_update(pre, i as int, info);
                }
                hist.set(i, info);
            },
            None => {
                proof {
                    lemma_map_push(pre, info);
                }
                hist.push(info);
            },
        }
        proof {
            assert(unique_ids(hist@));
            assert(history_map(hist@) == m1);
            assert(history_map(pre).dom().contains(signature@) <==> existed);
        }
        if hist.len() > self.limit {
            let mut best: usize = 0;
            let mut j: usize = 1;
            while j < hist.len()
                invariant
                    hist@.len() > 0,
                    best < j <= hist@.len(),
                    forall|q: int|
                        0 <= q < j ==> hist@[best as int].timestamp <= (
                        #[trigger] hist@[q]).timestamp,
                decreases hist@.len() - j,
            {
                if hist[j].timestamp < hist[best].timestamp {
                    best = j;
                }
                j += 1;
            }
            let ghost victim = hist@[best as int].id@;
            proof {
                lemma_lookup(hist@, victim, best as int);
                lemma_map_remove(hist@, best as int);
                assert forall|k: Seq<char>| m1.dom().contains(k) implies m1[victim].timestamp <= (
                #[trigger] m1[k]).timestamp by {
                    let q = seq_index_of_id(hist@, k);
                    assert(0 <= q < hist@.len() && hist@[q].id@ == k);
                    lemma_lookup(hist@, k, q);
                }
                assert(evicted_step(m1, history_map(hist@.remove(best as int)), victim));
            }
            hist.remove(best);
        }
        self.history = hist;
        Ok(())
    }

    /// Store a new status for a batch, but only while its stored status
    /// is still `Pending`; late or duplicate callbacks are ignored.
    pub fn update_batch_status(&mut self, signature: &str, status: BatchStatus)
        ensures
            final(self)@ == update_effect(old(self)@, signature@, status@),
            final(self).size() == old(self).size(),
            final(self).spec_limit() == old(self).spec_limit(),
    {
        proof {
            use_type_invariant(&*self);
        }
        let ghost pre = self.history@;
        let sig = String::from_str(signature);
        let mut hist: Vec<BatchInfo> = Vec::new();
        core::mem::swap(&mut hist, &mut self.history);
        match Self::find_index(&hist, &sig) {
            Some(i) => {
                proof {
                    lemma_lookup(pre, signature@, i as int);
                }
                let is_pending = match &hist[i].status {
                    BatchStatus::Pending => true,
                    _ => false,
                };
                if is_pending {
                    let mut info = hist.remove(i);
                    info.set_status(status);
                    proof {
                        assert(pre.remove(i as int).insert(i as int, info) =~= pre.update(
                            i as int,
                            info,
                        ));
                        lemma_map_update(pre, i as int, info);
                    }
                    hist.insert(i, info);
                }
            },
            None => {
            },
        }
        self.history = hist;
    }

    /// Promote a batch whose stored status is `Valid` to `Committed`,
    /// carrying the same transaction ids; anything else is left as it is.
    pub fn commit(&mut self, signature: &str)
        ensures
            final(self)@ == commit_effect(old(self)@, signature@),
            final(self).size() == old(self).size(),
            final(self).spec_limit() == old(self).spec_limit(),
    {
        proof {
            use_type_invariant(&*self);
        }
        let ghost pre = self.history@;
        let sig = String::from_str(signature);
        let mut hist: Vec<BatchInfo> = Vec::new();
        core::mem::swap(&mut hist, &mut self.history);
        match Self::find_index(&hist, &sig) {
            Some(i) => {
                proof {
                    lemma_lookup(pre, signature@, i as int);
                }
                let is_valid = match &hist[i].status {
                    BatchStatus::Valid(_) => true,
                    _ => false,
                };
                if is_valid {
                    let timestamp: u64 = hist[i].timestamp;
                    let id = hist[i].id.clone();
                    let old_info = hist.remove(i);
                    let txns = match old_info.status {
                        BatchStatus::Valid(t) => t,
                        _ => Vec::new(),
                    };
                    let info = BatchInfo { id, status: BatchStatus::Committed(txns), timestamp };
                    proof {
                        assert(pre.remove(i as int).insert(i as int, info) =~= pre.update(
                            i as int,
                            info,
                        ));
                        lemma_map_update(pre, i as int, info);
                    }
                    hist.insert(i, info);
                }
            },
            None => {
            },
        }
        self.history = hist;
    }

    /// What happened to a batch: the stored record, or a synthesized
    /// `Unknown` one for an id never recorded.  Never fails and never
    /// changes the tracker.
    pub fn get_batch_info(&self, signature: &str) -> (r: Result<BatchInfo, ScabbardStateError>)
        ensures
            r is Ok,
            self@.dom().contains(signature@) ==> (r matches Ok(info) && info@ == self@.index(
                signature@,
            )),
            !self@.dom().contains(signature@) ==> (r matches Ok(info) && info.id@ == signature@
                && info.status@ is Unknown),
    {
        proof {
            use_type_invariant(&*self);
        }
        let sig = String::from_str(signature);
        match Self::find_index(&self.history, &sig) {
            Some(i) => {
                proof {
                    lemma_lookup(self.history@, signature@, i as int);
                }
                Ok(self.history[i].clone())
            },
            None => Ok(
                BatchInfo {
                    id: sig,
                    status: BatchStatus::Unknown,
                    timestamp: now_millis(),
                },
            ),
        }
    }
}

impl Default for BatchHistory {
    /// An empty tracker holding at most 100 entries.
    fn default() -> (h: Self)
        ensures
            h@ == Map::<Seq<char>, BatchInfoView>::empty(),
            h.size() == 0,
            h.spec_limit() == 100,
    {
        let h = BatchHistory { history: Vec::new(), limit: 100 };
        proof {
            let m2 = history_map(h.history@);
            let tgt = Map::<Seq<char>, BatchInfoView>::empty();
            assert_maps_equal!(m2, tgt, k => {
                if seq_contains_id(h.history@, k) {
                    let j = seq_index_of_id(h.history@, k);
                    assert(0 <= j < h.history@.len());
                }
            });
        }
        h
    }
}

} // verus!
