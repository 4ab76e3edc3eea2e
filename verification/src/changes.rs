//! State changes and their notification-shaped projection.
//!
//! A change list is applied in order: a later entry for a key overwrites
//! an earlier one.  `net_effect_at` gives the mathematical meaning of a
//! change list at one key, and `lemma_last_entry_wins` is the law that the
//! last entry for a key alone determines that meaning.

use vstd::prelude::*;

verus! {

/// One change to the versioned key/value state: set a key to a value, or
/// delete it.  Ordering within a list matters; later entries win.
#[derive(Debug)]
pub enum StateChange {
    Put { key: String, value: Vec<u8> },
    Delete { key: String },
}

/// Mathematical value of one `StateChange`.
pub enum ChangeView {
    Put { key: Seq<char>, value: Seq<u8> },
    Delete { key: Seq<char> },
}

impl View for StateChange {
    type V = ChangeView;

    open spec fn view(&self) -> ChangeView {
        match self {
            StateChange::Put { key, value } => ChangeView::Put { key: key@, value: value@ },
            StateChange::Delete { key } => ChangeView::Delete { key: key@ },
        }
    }
}

impl ChangeView {
    /// The key this change touches.
    pub open spec fn key(self) -> Seq<char> {
        match self {
            ChangeView::Put { key, .. } => key,
            ChangeView::Delete { key } => key,
        }
    }
}

/// The views of a list of changes, in list order.
pub open spec fn views_of(changes: Seq<StateChange>) -> Seq<ChangeView> {
    changes.map_values(|c: StateChange| c@)
}

/// What a change list, applied in order, does to one key:
/// `None` = the key is untouched, `Some(None)` = the key ends deleted,
/// `Some(Some(v))` = the key ends set to `v`.
pub open spec fn net_effect_at(changes: Seq<ChangeView>, key: Seq<char>) -> Option<
    Option<Seq<u8>>,
>
    decreases changes.len(),
{
    if changes.len() == 0 {
        None
    } else {
        let last = changes.last();
        if last.key() == key {
            match last {
                ChangeView::Put { value, .. } => Some(Some(value)),
                ChangeView::Delete { .. } => Some(None),
            }
        } else {
            net_effect_at(changes.drop_last(), key)
        }
    }
}

/// The index of the last entry in `changes` that touches `key`, if any.
pub open spec fn last_index_for(changes: Seq<ChangeView>, key: Seq<char>) -> Option<int>
    decreases changes.len(),
{
    if changes.len() == 0 {
        None
    } else if changes.last().key() == key {
        Some(changes.len() - 1)
    } else {
        last_index_for(changes.drop_last(), key)
    }
}

/// The last entry for a key in a change list alone determines the final
/// value (or absence) that the list yields for that key.
pub proof fn lemma_last_entry_wins(changes: Seq<ChangeView>, key: Seq<char>)
    ensures
        match last_index_for(changes, key) {
            None => {
                &&& net_effect_at(changes, key) is None
                &&& forall|i: int| 0 <= i < changes.len() ==> (#[trigger] changes[i]).key() != key
            },
            Some(i) => {
                &&& 0 <= i < changes.len()
                &&& changes[i].key() == key
                &&& forall|j: int| i < j < changes.len() ==> (#[trigger] changes[j]).key() != key
                &&& net_effect_at(changes, key) == match changes[i] {
                    ChangeView::Put { value, .. } => Some(Some(value)),
                    ChangeView::Delete { .. } => Some(None),
                }
            },
        },
    decreases changes.len(),
{
    if changes.len() > 0 {
        if changes.last().key() == key {
        } else {
            let prev = changes.drop_last();
            lemma_last_entry_wins(prev, key);
            match last_index_for(prev, key) {
                None => {
                    assert forall|m: int|
                        0 <= m < changes.len() implies (#[trigger] changes[m]).key() != key by {
                        if m < changes.len() - 1 {
                            assert(prev[m] == changes[m]);
                        }
                    }
                },
                Some(i) => {
                    assert(prev[i] == changes[i]);
                    assert forall|j: int|
                        i < j < changes.len() implies (#[trigger] changes[j]).key() != key by {
                        if j < changes.len() - 1 {
                            assert(prev[j] == changes[j]);
                        }
                    }
                },
            }
        }
    }
}

/// Notification-shaped projection of a `StateChange`, one per change,
/// emitted as one list per commit.
#[derive(Debug)]
pub enum StateChangeEvent {
    Put { key: String, value: Vec<u8> },
    Delete { key: String },
}

impl View for StateChangeEvent {
    type V = ChangeView;

    open spec fn view(&self) -> ChangeView {
        match self {
            StateChangeEvent::Put { key, value } => ChangeView::Put { key: key@, value: value@ },
            StateChangeEvent::Delete { key } => ChangeView::Delete { key: key@ },
        }
    }
}

/// The views of a list of events, in list order.
pub open spec fn event_views_of(events: Seq<StateChangeEvent>) -> Seq<ChangeView> {
    events.map_values(|e: StateChangeEvent| e@)
}

impl StateChangeEvent {
    /// Project one state change into its notification shape, keeping the
    /// key and, for a set, the value.
    pub fn from_state_change(state_change: StateChange) -> (event: Self)
        ensures
            event@ == state_change@,
    {
        match state_change {
            StateChange::Put { key, value } => StateChangeEvent::Put { key, value },
            StateChange::Delete { key } => StateChangeEvent::Delete { key },
        }
    }

    /// Project a whole change list, preserving order and every key and
    /// value, so the events reflect exactly what the change list does.
    pub fn from_state_changes(changes: Vec<StateChange>) -> (events: Vec<StateChangeEvent>)
        ensures
            event_views_of(events@) == views_of(changes@),
    {
        let ghost all = changes@;
        let mut events: Vec<StateChangeEvent> = Vec::new();
        let mut remaining = changes;
        while remaining.len() > 0
            invariant
                remaining@ =~= all.skip(events@.len() as int),
                events@.len() <= all.len(),
                forall|j: int| 0 <= j < events@.len() ==> (#[trigger] events@[j])@ == all[j]@,
            decreases remaining@.len(),
        {
            let ghost n = events@.len() as int;
            let c = remaining.remove(0);
            proof {
                assert(c == all.skip(n)[0]);
            }
            events.push(StateChangeEvent::from_state_change(c));
        }
        proof {
            assert forall|j: int|
                0 <= j < all.len() implies event_views_of(events@)[j] == views_of(all)[j] by {
                assert(events@[j]@ == all[j]@);
            }
            assert(event_views_of(events@) =~= views_of(all));
        }
        events
    }
}

/// Views distribute over concatenation of change lists.
pub proof fn lemma_views_concat(a: Seq<StateChange>, b: Seq<StateChange>)
    ensures
        views_of(a + b) =~= views_of(a) + views_of(b),
{
}

/// Projection keeps the per-key meaning of the change list: the net
/// effect of the emitted events at every key equals the net effect of the
/// changes themselves.
pub proof fn lemma_events_preserve_net_effect(
    changes: Seq<StateChange>,
    events: Seq<StateChangeEvent>,
    key: Seq<char>,
)
    requires
        event_views_of(events) == views_of(changes),
    ensures
        net_effect_at(event_views_of(events), key) == net_effect_at(views_of(changes), key),
{
}

} // verus!
