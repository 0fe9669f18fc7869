//! Leader-gated maintenance: each tick, only the leading node deletes the
//! events that have outlived the retention window.
use vstd::prelude::*;
use crate::store::{cleanup_cut, saturating, saturating_sum, StateBackend};
use crate::sys::unix_now_millis;

verus! {

/// Milliseconds in a day.
pub const DAY_MILLIS: i64 = 86400000;

/// The oldest timestamp an event may have at `now_millis` and survive.
pub open spec fn retention_threshold(now_millis: i64, retention_days: u32) -> i64 {
    saturating(now_millis - retention_days * DAY_MILLIS)
}

/// The threshold for a cleanup at `now_millis`.
pub fn cleanup_threshold(now_millis: i64, retention_days: u32) -> (r: i64)
    ensures
        r == retention_threshold(now_millis, retention_days),
{
    let window = (retention_days as i64) * DAY_MILLIS;
    saturating_sum(now_millis, -window)
}

/// Whether a tick on `node` does any work: only on the leader.
pub open spec fn tick_runs(node: StateBackend) -> bool {
    node.leads()
}

/// One tick at `now_millis`. A node that does not lead does nothing and
/// returns `None`. The leader deletes every event older than the retention
/// window and returns how many it deleted.
pub fn events_cleanup_tick(store: &mut StateBackend, now_millis: i64, retention_days: u32) -> (r: Option<usize>)
    requires
        old(store).wf(),
    ensures
        final(store).wf(),
        !tick_runs(*old(store)) ==> r is None && *final(store) == *old(store),
        tick_runs(*old(store)) ==> (r matches Some(k) && {
            &&& cleanup_cut(old(store).events@, retention_threshold(now_millis, retention_days), k as int)
            &&& final(store).events@ == old(store).events@.subrange(k as int, old(store).events@.len() as int)
            &&& final(store).device_codes@ == old(store).device_codes@
            &&& final(store).magic_links@ == old(store).magic_links@
            &&& final(store).devices@ == old(store).devices@
            &&& final(store).leads()
        }),
{
    if !store.is_leader() {
        return None;
    }
    let threshold = cleanup_threshold(now_millis, retention_days);
    Some(store.delete_events_before(threshold))
}

/// One tick now; see [`events_cleanup_tick`].
pub fn events_cleanup(store: &mut StateBackend, retention_days: u32) -> (r: Option<usize>)
    requires
        old(store).wf(),
    ensures
        final(store).wf(),
        !tick_runs(*old(store)) ==> r is None && *final(store) == *old(store),
        tick_runs(*old(store)) ==> (r matches Some(k) && {
            &&& final(store).events@ == old(store).events@.subrange(k as int, old(store).events@.len() as int)
            &&& exists|now: i64| cleanup_cut(old(store).events@, #[trigger] retention_threshold(now, retention_days), k as int)
        }),
        final(store).device_codes@ == old(store).device_codes@,
        final(store).magic_links@ == old(store).magic_links@,
        final(store).devices@ == old(store).devices@,
{
    let now = unix_now_millis();
    events_cleanup_tick(store, now, retention_days)
}

/// In a cluster with exactly one leader, a tick does work on that node and
/// on no other.
pub proof fn lemma_single_cleanup_per_tick(nodes: Seq<StateBackend>, leader: int)
    requires
        0 <= leader < nodes.len(),
        nodes[leader].leads(),
        forall|i: int| 0 <= i < nodes.len() && i != leader ==> !(#[trigger] nodes[i]).leads(),
    ensures
        forall|i: int| 0 <= i < nodes.len() ==> (tick_runs(#[trigger] nodes[i]) <==> i == leader),
{
}

} // verus!
