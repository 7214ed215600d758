//! A verified cache of per-entity balances that is refreshed, on a repeating
//! timer, from an external ledger.
//!
//! The store holds the entities; each tick of the schedule takes a snapshot of
//! it and yields one reconciliation task per entity; each task's fetched
//! balance is merged back by key, touching the balance field alone.
mod entity;
mod reconcile;
mod schedule;
mod store;
mod text;

pub use entity::{Entity, EntityView, views_of};
pub use reconcile::{
    CallError, CallErrorKind, MergeOutcome, ReconciliationTask, SYS_TRANSIENT,
    lemma_failure_is_isolated, lemma_merge_keeps_concurrent_fields, lemma_merge_keeps_keys,
    lemma_merges_commute, lemma_vanished_is_noop, merge,
    merge_outcome, merged, tick_tasks,
};
pub use schedule::{
    ScheduleError, Scheduler, SchedulerView, TimerPlan, armed, held, lemma_reschedule_leaves_one_timer,
    lemma_reschedule_twice_leaves_one_timer, live_after, plan_for, rescheduled,
};
pub use store::{
    EntityStore, is_first_with_key, key_index, key_matches, lemma_key_index_is_first, matching,
};
pub use text::{
    KeyError, ascii_lower_char, ascii_lowercase, chars_of, contains_text, fold_case, is_infix,
    lower_of, principal_accepts, principal_key,
};
