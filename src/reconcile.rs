use vstd::prelude::*;

use crate::entity::{Entity, EntityView};
use crate::store::{EntityStore, is_first_with_key, key_index, lemma_key_index_is_first};

verus! {

/// The reject code of the Internet Computer's interface that marks a
/// transient failure: the same call may succeed later.
pub const SYS_TRANSIENT: i32 = 2;

/// The coarse class of a failed ledger call.
#[derive(Clone, Copy, Debug, PartialEq, Eq, Structural)]
pub enum CallErrorKind {
    /// The network or the system failed for now; the next tick may succeed.
    Transient,
    /// The callee or the system refused the call.
    Rejected,
}

/// Why a ledger call failed: its class, and the reason the system gave.
#[derive(Clone, Debug, PartialEq, Eq)]
pub struct CallError {
    pub kind: CallErrorKind,
    pub reason: String,
}

impl CallError {
    /// The error for a call rejected with `code`: transient for
    /// [`SYS_TRANSIENT`], a rejection for every other code.
    pub fn from_reject_code(code: i32, reason: String) -> (e: CallError)
        ensures
            e.kind == (if code == SYS_TRANSIENT {
                CallErrorKind::Transient
            } else {
                CallErrorKind::Rejected
            }),
            e.reason@ == reason@,
    {
        let kind = if code == SYS_TRANSIENT {
            CallErrorKind::Transient
        } else {
            CallErrorKind::Rejected
        };
        CallError { kind, reason }
    }
}

/// One unit of work of a tick: a copy of the entity as it stood when the tick
/// took its snapshot. It holds no reference into the store, which may change
/// freely while the ledger call is in flight.
#[derive(Clone, Debug)]
pub struct ReconciliationTask {
    pub target: Entity,
}

/// What merging one fetched result did.
#[derive(Clone, Copy, Debug, PartialEq, Eq, Structural)]
pub enum MergeOutcome {
    /// The entity with this identifier took the fetched balance.
    Applied { id: usize },
    /// The call failed; the entity with this identifier was left as it was.
    Failed { id: usize },
    /// No entity has the task's key any more; the result was dropped.
    Vanished,
}

/// The entities after merging `fetched` for `key`: the first entity keyed
/// `key`, if there is one and the call succeeded, takes the fetched balance
/// and keeps every other field it has at merge time; all else stays.
pub open spec fn merged(
    s: Seq<EntityView>,
    key: Seq<char>,
    fetched: Result<u128, CallError>,
) -> Seq<EntityView> {
    match key_index(s, key) {
        Some(i) => match fetched {
            Ok(b) => s.update(i, s[i].with_balance(b)),
            Err(_) => s,
        },
        None => s,
    }
}

/// What merging `fetched` for `key` into `s` reports.
pub open spec fn merge_outcome(
    s: Seq<EntityView>,
    key: Seq<char>,
    fetched: Result<u128, CallError>,
) -> MergeOutcome {
    match key_index(s, key) {
        Some(i) => match fetched {
            Ok(_) => MergeOutcome::Applied { id: (i + 1) as usize },
            Err(_) => MergeOutcome::Failed { id: (i + 1) as usize },
        },
        None => MergeOutcome::Vanished,
    }
}

/// The tasks of one tick: one per entity of the store, in identifier order,
/// each holding a copy of its entity. The store is only read, so a tick over
/// an empty store yields no task and changes nothing.
pub fn tick_tasks(store: &EntityStore) -> (tasks: Vec<ReconciliationTask>)
    ensures
        tasks@.len() == store@.len(),
        forall|i: int| 0 <= i < tasks@.len() ==> #[trigger] tasks@[i].target@ == store@[i],
{
    let mut tasks: Vec<ReconciliationTask> = Vec::new();
    let n = store.len();
    let mut i: usize = 0;
    while i < n
        invariant
            n == store@.len(),
            i <= n,
            tasks@.len() == i,
            forall|j: int| 0 <= j < i ==> #[trigger] tasks@[j].target@ == store@[j],
        decreases n - i,
    {
        let e = store.get(i + 1).unwrap();
        tasks.push(ReconciliationTask { target: e.duplicate() });
        i = i + 1;
    }
    tasks
}

/// Merges the result of `task`'s ledger call into the store. The entity is
/// looked up by key at merge time, not by anything kept from the snapshot,
/// and only its balance is written, from the record as it stands now. A
/// failed call leaves the store as it is; so does a key that no entity has
/// any more, which is no error.
pub fn merge(
    store: &mut EntityStore,
    task: &ReconciliationTask,
    fetched: Result<u128, CallError>,
) -> (r: MergeOutcome)
    ensures
        final(store)@ == merged(old(store)@, task.target.key@, fetched),
        r == merge_outcome(old(store)@, task.target.key@, fetched),
{
    match store.find_by_key(task.target.key.as_str()) {
        None => MergeOutcome::Vanished,
        Some((id, current)) => match fetched {
            Ok(balance) => {
                store.update(id, current.with_balance(balance));
                MergeOutcome::Applied { id }
            },
            Err(_) => MergeOutcome::Failed { id },
        },
    }
}

/// A failed fetch leaves every entity as it was; and whatever a fetch for
/// one key brought, an entity under another key keeps its whole record.
pub proof fn lemma_failure_is_isolated(
    s: Seq<EntityView>,
    key: Seq<char>,
    fetched: Result<u128, CallError>,
    j: int,
)
    requires
        0 <= j < s.len(),
    ensures
        merged(s, key, fetched).len() == s.len(),
        fetched is Err ==> merged(s, key, fetched) == s,
        s[j].key != key ==> merged(s, key, fetched)[j] == s[j],
{
}

/// Merging a result for a key that no entity has is a no-op: no entry is
/// added or changed, and the outcome is no error.
pub proof fn lemma_vanished_is_noop(
    s: Seq<EntityView>,
    key: Seq<char>,
    fetched: Result<u128, CallError>,
)
    requires
        forall|j: int| 0 <= j < s.len() ==> #[trigger] s[j].key != key,
    ensures
        merged(s, key, fetched) == s,
        merge_outcome(s, key, fetched) == MergeOutcome::Vanished,
{
    assert(key_index(s, key) is None);
}

/// A task spawned from `snapshot` for entity `i`, whose record a handler
/// replaced by `concurrent` (same key) before the merge, leaves the
/// handler's record with the fetched balance: the other fields come from
/// `concurrent`, not from the snapshot.
pub proof fn lemma_merge_keeps_concurrent_fields(
    snapshot: Seq<EntityView>,
    i: int,
    concurrent: EntityView,
    balance: u128,
)
    requires
        is_first_with_key(snapshot, snapshot[i].key, i),
        concurrent.key == snapshot[i].key,
    ensures
        merged(snapshot.update(i, concurrent), snapshot[i].key, Ok(balance)) == snapshot.update(
            i,
            concurrent.with_balance(balance),
        ),
        merged(snapshot.update(i, concurrent), snapshot[i].key, Ok(balance))[i].label
            == concurrent.label,
        merged(snapshot.update(i, concurrent), snapshot[i].key, Ok(balance))[i].balance
            == balance,
{
    let now = snapshot.update(i, concurrent);
    let key = snapshot[i].key;
    assert forall|j: int| 0 <= j < i implies #[trigger] now[j].key != key by {
        assert(now[j] == snapshot[j]);
        assert(snapshot[j].key != key);
    }
    lemma_key_index_is_first(now, key, i);
    assert(now.update(i, now[i].with_balance(balance)) =~= snapshot.update(
        i,
        concurrent.with_balance(balance),
    ));
}

/// Two sequences with the same keys, position by position, place every key
/// at the same position.
proof fn lemma_same_keys_same_index(s: Seq<EntityView>, t: Seq<EntityView>, key: Seq<char>)
    requires
        s.len() == t.len(),
        forall|j: int| 0 <= j < s.len() ==> #[trigger] s[j].key == t[j].key,
    ensures
        key_index(s, key) == key_index(t, key),
{
    if exists|i: int| is_first_with_key(s, key, i) {
        let i = choose|i: int| is_first_with_key(s, key, i);
        assert forall|j: int| 0 <= j < i implies #[trigger] t[j].key != key by {
            assert(s[j].key == t[j].key);
            assert(s[j].key != key);
        }
        lemma_key_index_is_first(s, key, i);
        lemma_key_index_is_first(t, key, i);
    } else if exists|i: int| is_first_with_key(t, key, i) {
        let i = choose|i: int| is_first_with_key(t, key, i);
        assert forall|j: int| 0 <= j < i implies #[trigger] s[j].key != key by {
            assert(s[j].key == t[j].key);
            assert(t[j].key != key);
        }
        assert(is_first_with_key(s, key, i));
    }
}

/// A merge changes no key: every key stands where it stood before.
pub proof fn lemma_merge_keeps_keys(
    s: Seq<EntityView>,
    key: Seq<char>,
    fetched: Result<u128, CallError>,
    other: Seq<char>,
)
    ensures
        merged(s, key, fetched).len() == s.len(),
        forall|j: int| 0 <= j < s.len() ==> #[trigger] merged(s, key, fetched)[j].key == s[j].key,
        key_index(merged(s, key, fetched), other) == key_index(s, other),
{
    let m = merged(s, key, fetched);
    assert forall|j: int| 0 <= j < s.len() implies #[trigger] m[j].key == s[j].key by {}
    lemma_same_keys_same_index(m, s, other);
}

/// Merges for two different keys may complete in either order: the store
/// ends up the same.
pub proof fn lemma_merges_commute(
    s: Seq<EntityView>,
    key1: Seq<char>,
    fetched1: Result<u128, CallError>,
    key2: Seq<char>,
    fetched2: Result<u128, CallError>,
)
    requires
        key1 != key2,
    ensures
        merged(merged(s, key1, fetched1), key2, fetched2) == merged(
            merged(s, key2, fetched2),
            key1,
            fetched1,
        ),
{
    lemma_merge_keeps_keys(s, key1, fetched1, key2);
    lemma_merge_keeps_keys(s, key2, fetched2, key1);
    let a = merged(merged(s, key1, fetched1), key2, fetched2);
    let b = merged(merged(s, key2, fetched2), key1, fetched1);
    assert(a =~= b);
}

} // verus!
