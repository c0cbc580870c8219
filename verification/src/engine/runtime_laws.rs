//! What holds of the downloads of an engine, whatever is done with them.

use vstd::prelude::*;
use crate::engine::runtime::{DownloadEngine, DownloadSlot, EngineAction, PendingLaunch, RuntimeControl, TaskSnapshot};
use crate::engine::types::{DownloadStatus, HaltMode, ScalerConfig};
use crate::numerals::decimal;
use crate::service::DownloadTask;

verus! {

/// A download begins running: nobody has cancelled it, and nothing has blocked
/// it.
pub proof fn law_downloads_begin_running(config: ScalerConfig, r: RuntimeControl)
    requires
        call_ensures(RuntimeControl::new, (config,), r),
    ensures
        r.halt_mode == HaltMode::Running,
        !r.cancel_flag,
        r.scaler_config == config,
        r.challenge_reason is None,
{
}

/// An engine begins with nothing to do and with all its connections, of which
/// there is one at least.
pub proof fn law_engines_begin_idle(per: usize, tasks: usize, total: usize, limit: u64, r: DownloadEngine)
    requires
        call_ensures(DownloadEngine::new, (per, tasks, total, limit), r),
    ensures
        r.connections_per_download == per,
        r.max_concurrent_tasks == tasks,
        r.global_bandwidth_limit == limit,
        total >= 1 ==> r.configured_connection_budget == total,
        total == 0 ==> r.configured_connection_budget == 1,
        r.effective_connection_budget == r.configured_connection_budget,
        r.connection_budget == r.configured_connection_budget,
        limit == 0 ==> r.refill_interval_ms == 50,
        limit > 0 ==> r.refill_interval_ms == 100,
        r.write_buffer_cap_bytes == 4194304,
        r.active@.dom() == Set::<u128>::empty(),
        r.paused@.dom() == Set::<u128>::empty(),
        r.persisted@.dom() == Set::<u128>::empty(),
        r.deferred@.dom() == Set::<u128>::empty(),
        r.pending@.len() == 0,
        r.downloads@.len() == 0,
{
    assert(r@.active.dom() =~= Set::empty());
    assert(r@.paused.dom() =~= Set::empty());
    assert(r@.persisted.dom() =~= Set::empty());
}

/// The connections that are out stay out when the budget changes: what is left
/// of the new budget is what they leave.
pub proof fn law_open_connections_stay_open(e: &mut DownloadEngine, mb: u64)
    requires
        old(e).connection_budget <= old(e).effective_connection_budget,
        call_ensures(DownloadEngine::check_memory, (e, mb), ()),
    ensures
        ({
            let out = old(e).effective_connection_budget - old(e).connection_budget;
            &&& out <= final(e).effective_connection_budget ==> final(e).connection_budget + out == final(e).effective_connection_budget
            &&& out > final(e).effective_connection_budget ==> final(e).connection_budget == 0
            &&& mb >= 1024 ==> final(e).effective_connection_budget == old(e).configured_connection_budget
            &&& mb < 1024 && old(e).configured_connection_budget >= 3 && old(e).configured_connection_budget * 3
                <= usize::MAX ==> final(e).effective_connection_budget < old(e).configured_connection_budget
            &&& mb < 512 ==> final(e).write_buffer_cap_bytes == 524288
            &&& mb >= 512 ==> final(e).write_buffer_cap_bytes == 4194304
            &&& final(e).configured_connection_budget == old(e).configured_connection_budget
            &&& final(e).global_bandwidth_limit == old(e).global_bandwidth_limit
            &&& final(e).max_concurrent_tasks == old(e).max_concurrent_tasks
            &&& final(e)@ == old(e)@
        }),
{
}

/// A new download waits behind all others, and changes nothing for them.
pub proof fn law_new_downloads_wait_last(e: &mut DownloadEngine, task: DownloadTask)
    requires
        call_ensures(DownloadEngine::add_task, (e, task), ()),
    ensures
        final(e).pending@.len() == old(e).pending@.len() + 1,
        forall|i: int| 0 <= i < old(e).pending@.len() ==> #[trigger] final(e).pending@[i] == old(e).pending@[i],
        final(e).pending@[old(e).pending@.len() as int] == PendingLaunch::Fresh(task),
        final(e).active@ == old(e).active@,
        final(e).paused@ == old(e).paused@,
        final(e).persisted@ == old(e).persisted@,
        final(e).downloads@ == old(e).downloads@,
        final(e).connection_budget == old(e).connection_budget,
{
    assert(final(e)@.pending == final(e).pending@);
    assert(final(e)@.active == final(e).active@);
    assert(final(e)@.paused == final(e).paused@);
    assert(final(e)@.persisted == final(e).persisted@);
    assert(final(e)@.downloads == final(e).downloads@);
    assert(final(e).budget().available == old(e).budget().available);
}

/// The download that waited longest is started as soon as fewer run than may;
/// it runs within its own bounds and under its own limit.
pub proof fn law_the_longest_waiting_starts(e: &mut DownloadEngine, r: Option<PendingLaunch>)
    requires
        call_ensures(DownloadEngine::next_launch, (e,), r),
    ensures
        r is Some <==> old(e).active@.len() < old(e).max_concurrent_tasks && old(e).pending@.len() > 0,
        r is None ==> final(e)@ == old(e)@,
        r matches Some(launch) ==> {
            let task = match launch {
                PendingLaunch::Fresh(t) => t,
                PendingLaunch::Resume(s) => s.task,
            };
            let control = final(e).active@[task.id];
            let slot = final(e).downloads@[old(e).downloads@.len() as int];
            &&& launch == old(e).pending@[0]
            &&& final(e).pending@.len() + 1 == old(e).pending@.len()
            &&& forall|i: int| 0 <= i < final(e).pending@.len() ==> #[trigger] final(e).pending@[i] == old(e).pending@[i + 1]
            &&& final(e).active@.dom().contains(task.id)
            &&& forall|id: u128| id != task.id ==> (#[trigger] final(e).active@.dom().contains(id) <==> old(e).active@.dom().contains(id))
            &&& control.halt_mode == HaltMode::Running
            &&& !control.cancel_flag
            &&& control.challenge_reason is None
            &&& control.scaler_config.min_connections == task.min_connections
            &&& control.scaler_config.max_connections == task.max_connections
            &&& launch is Fresh ==> control.scaler_config.heartbeat_ms == 2000
            &&& launch matches PendingLaunch::Resume(s) ==> {
                &&& s.resume_state.heartbeat_ms >= 500 ==> control.scaler_config.heartbeat_ms
                    == s.resume_state.heartbeat_ms
                &&& s.resume_state.heartbeat_ms < 500 ==> control.scaler_config.heartbeat_ms == 500
            }
            &&& final(e).downloads@.len() == old(e).downloads@.len() + 1
            &&& slot.id == task.id
            &&& slot.per_download_limit_bps == task.per_download_bandwidth_limit_bps
            &&& slot.bucket.quota_bytes_per_sec == 0
            &&& slot.bucket.tokens == 0
            &&& slot.bucket.refill_interval_ms == 100
            &&& final(e).paused@ == old(e).paused@
        },
        final(e).connection_budget == old(e).connection_budget,
{
    assert(final(e)@.pending == final(e).pending@);
    assert(final(e)@.active == final(e).active@);
    assert(final(e)@.paused == final(e).paused@);
    assert(final(e)@.downloads == final(e).downloads@);
    assert(final(e).budget().available == old(e).budget().available);
    assert(old(e)@.pending == old(e).pending@);
    assert(old(e)@.active == old(e).active@);
}

/// Stopping a download tells it to halt where it is safe, and no other.
pub proof fn law_stopping_drains(e: &mut DownloadEngine, id: u128)
    requires
        call_ensures(DownloadEngine::stop_task, (e, id), ()),
    ensures
        final(e).active@.dom() == old(e).active@.dom(),
        old(e).active@.dom().contains(id) ==> {
            &&& final(e).active@[id].halt_mode == HaltMode::Draining
            &&& final(e).active@[id].cancel_flag
            &&& final(e).active@[id].scaler_config == old(e).active@[id].scaler_config
        },
        forall|k: u128| k != id && old(e).active@.dom().contains(k) ==> #[trigger] final(e).active@[k] == old(e).active@[k],
        final(e).paused@ == old(e).paused@,
        final(e).pending@ == old(e).pending@,
        final(e).downloads@ == old(e).downloads@,
        final(e).connection_budget == old(e).connection_budget,
{
    assert(final(e)@.active == final(e).active@);
    assert(old(e)@.active == old(e).active@);
    assert(final(e)@.paused == final(e).paused@);
    assert(final(e)@.pending == final(e).pending@);
    assert(final(e)@.downloads == final(e).downloads@);
    assert(final(e).budget().available == old(e).budget().available);
    assert(final(e).active@.dom() =~= old(e).active@.dom());
}

/// Cancelling saves: a running download is told to halt and be saved, a paused
/// one is saved now and no longer paused; any other is left alone.
pub proof fn law_cancelling_saves(e: &mut DownloadEngine, id: u128, action: EngineAction)
    requires
        call_ensures(DownloadEngine::cancel_task, (e, id), action),
        old(e).paused@.dom().contains(id) ==> old(e).paused@[id].task.id == id,
    ensures
        ({
            let running = old(e).active@.dom().contains(id);
            let paused = old(e).paused@.dom().contains(id);
            &&& running ==> {
                &&& action is Nothing
                &&& final(e).active@[id].halt_mode == HaltMode::PersistToDisk
                &&& final(e).active@[id].cancel_flag
                &&& final(e).paused@ == old(e).paused@
            }
            &&& !running && paused ==> {
                &&& action matches EngineAction::Persist { snapshot, path, status } && snapshot == old(e).paused@[id]
                    && status == DownloadStatus::Stopped && path@ == final(e).persisted@[id]@
                &&& !final(e).paused@.dom().contains(id)
                &&& final(e).persisted@.dom().contains(id)
            }
            &&& !running && !paused ==> action is Nothing && final(e)@ == old(e)@
            &&& final(e).active@.dom() == old(e).active@.dom()
            &&& final(e).pending@ == old(e).pending@
            &&& final(e).connection_budget == old(e).connection_budget
        }),
{
    assert(final(e)@.active == final(e).active@);
    assert(old(e)@.active == old(e).active@);
    assert(final(e)@.paused == final(e).paused@);
    assert(old(e)@.paused == old(e).paused@);
    assert(final(e)@.persisted == final(e).persisted@);
    assert(final(e)@.pending == final(e).pending@);
    assert(final(e).budget().available == old(e).budget().available);
    assert(final(e).active@.dom() =~= old(e).active@.dom());
}

/// Resuming finds a download wherever it is: one that still runs goes on once
/// it has halted, a paused one waits last, a saved one is read from where it
/// was saved, and an unknown one is reported.
pub proof fn law_resuming_finds_the_download(e: &mut DownloadEngine, id: u128, action: EngineAction)
    requires
        call_ensures(DownloadEngine::resume_task, (e, id), action),
    ensures
        ({
            let running = old(e).active@.dom().contains(id);
            let paused = old(e).paused@.dom().contains(id);
            let saved = old(e).persisted@.dom().contains(id);
            &&& running ==> {
                &&& action is Nothing
                &&& final(e).deferred@.dom().contains(id)
                &&& final(e).pending@ == old(e).pending@
                &&& final(e).paused@ == old(e).paused@
            }
            &&& !running && paused ==> {
                &&& action is Nothing
                &&& final(e).pending@.len() == old(e).pending@.len() + 1
                &&& forall|i: int| 0 <= i < old(e).pending@.len() ==> #[trigger] final(e).pending@[i] == old(e).pending@[i]
                &&& final(e).pending@[old(e).pending@.len() as int] == PendingLaunch::Resume(old(e).paused@[id])
                &&& !final(e).paused@.dom().contains(id)
            }
            &&& !running && !paused && saved ==> {
                &&& action matches EngineAction::Load { path } && path@ == old(e).persisted@[id]@
                &&& final(e)@ == old(e)@
            }
            &&& !running && !paused && !saved ==> action == (EngineAction::Unknown { id }) && final(e)@ == old(e)@
            &&& final(e).active@ == old(e).active@
            &&& final(e).connection_budget == old(e).connection_budget
        }),
{
    assert(final(e)@.active == final(e).active@);
    assert(old(e)@.active == old(e).active@);
    assert(final(e)@.paused == final(e).paused@);
    assert(old(e)@.paused == old(e).paused@);
    assert(old(e)@.persisted == old(e).persisted@);
    assert(final(e)@.pending == final(e).pending@);
    assert(old(e)@.pending == old(e).pending@);
    assert(final(e)@.deferred == final(e).deferred@.dom());
    assert(final(e).budget().available == old(e).budget().available);
}

/// New bounds reach a download wherever it is; bounds out of order are refused
/// and change nothing.
pub proof fn law_bounds_reach_the_download(
    e: &mut DownloadEngine,
    id: u128,
    config: ScalerConfig,
    action: EngineAction,
)
    requires
        call_ensures(DownloadEngine::update_scaling, (e, id, config), action),
    ensures
        ({
            let refused = config.min_connections > config.max_connections;
            let running = old(e).active@.dom().contains(id);
            let paused = old(e).paused@.dom().contains(id);
            let saved = old(e).persisted@.dom().contains(id);
            &&& refused ==> {
                &&& action matches EngineAction::Report { id: i, status: DownloadStatus::Error(reason) } && i == id
                    && reason@ == "invalid scaling update: min_connections "@ + decimal(config.min_connections as nat)
                    + " exceeds max_connections "@ + decimal(config.max_connections as nat)
                &&& final(e)@ == old(e)@
            }
            &&& !refused && running ==> {
                &&& action is Nothing
                &&& final(e).active@[id].scaler_config == config
                &&& final(e).active@[id].halt_mode == old(e).active@[id].halt_mode
                &&& final(e).active@[id].cancel_flag == old(e).active@[id].cancel_flag
                &&& forall|k: u128| k != id && old(e).active@.dom().contains(k) ==> #[trigger] final(e).active@[k]
                    == old(e).active@[k]
            }
            &&& !refused && !running && paused ==> {
                &&& action is Nothing
                &&& final(e).paused@[id].task.min_connections == config.min_connections
                &&& final(e).paused@[id].task.max_connections == config.max_connections
                &&& final(e).paused@[id].task.id == old(e).paused@[id].task.id
                &&& final(e).paused@[id].task.connections == old(e).paused@[id].task.connections
                &&& final(e).paused@[id].coordinator == old(e).paused@[id].coordinator
                &&& final(e).paused@[id].resume_state == old(e).paused@[id].resume_state
            }
            &&& !refused && !running && !paused && saved ==> {
                &&& action matches EngineAction::Rescale { path, config: c } && path@ == old(e).persisted@[id]@ && c
                    == config
                &&& final(e)@ == old(e)@
            }
            &&& !refused && !running && !paused && !saved ==> action is Nothing && final(e)@ == old(e)@
            &&& final(e).pending@ == old(e).pending@
            &&& final(e).connection_budget == old(e).connection_budget
        }),
{
    assert(final(e)@.active == final(e).active@);
    assert(old(e)@.active == old(e).active@);
    assert(final(e)@.paused == final(e).paused@);
    assert(old(e)@.paused == old(e).paused@);
    assert(old(e)@.persisted == old(e).persisted@);
    assert(final(e)@.pending == final(e).pending@);
    assert(old(e)@.pending == old(e).pending@);
    assert(final(e).budget().available == old(e).budget().available);
}

/// A slot is in `slots`.
pub open spec fn has_slot(slots: Seq<DownloadSlot>, slot: DownloadSlot) -> bool {
    exists|i: int| 0 <= i < slots.len() && #[trigger] slots[i] == slot
}

/// `after` are the slots of all downloads but `id`.
pub open spec fn are_the_others(before: Seq<DownloadSlot>, id: u128, after: Seq<DownloadSlot>) -> bool {
    forall|slot: DownloadSlot| #[trigger] has_slot(after, slot) <==> has_slot(before, slot) && slot.id != id
}

proof fn lemma_others(before: Seq<DownloadSlot>, id: u128)
    ensures
        are_the_others(before, id, crate::engine::runtime::without_slot(before, id)),
    decreases before.len(),
{
    reveal(Seq::filter);
    let after = crate::engine::runtime::without_slot(before, id);
    if before.len() > 0 {
        let front = before.drop_last();
        lemma_others(front, id);
        let kept = crate::engine::runtime::without_slot(front, id);
        let last = before.last();
        assert forall|slot: DownloadSlot| #[trigger]
            has_slot(after, slot) <==> has_slot(before, slot) && slot.id != id by {
            if has_slot(after, slot) {
                let i = choose|i: int| 0 <= i < after.len() && #[trigger] after[i] == slot;
                if i < kept.len() {
                    assert(kept[i] == slot);
                    assert(has_slot(kept, slot));
                    let j = choose|j: int| 0 <= j < front.len() && #[trigger] front[j] == slot;
                    assert(before[j] == slot);
                } else {
                    assert(before[before.len() - 1] == slot);
                }
            }
            if has_slot(before, slot) && slot.id != id {
                let i = choose|i: int| 0 <= i < before.len() && #[trigger] before[i] == slot;
                if i < front.len() {
                    assert(front[i] == slot);
                    assert(has_slot(front, slot));
                    assert(has_slot(kept, slot));
                    let j = choose|j: int| 0 <= j < kept.len() && #[trigger] kept[j] == slot;
                    assert(after[j] == slot);
                } else {
                    assert(after[kept.len() as int] == slot);
                }
            }
        }
    } else {
        assert(after.len() == 0);
    }
}

/// A download that is done runs no longer and has no share in the bandwidth;
/// the others keep theirs.
pub proof fn law_done_downloads_make_room(e: &mut DownloadEngine, id: u128)
    requires
        call_ensures(DownloadEngine::task_finished, (e, id), ()),
    ensures
        !final(e).active@.dom().contains(id),
        forall|k: u128| k != id ==> (#[trigger] final(e).active@.dom().contains(k) <==> old(e).active@.dom().contains(k)),
        forall|k: u128| k != id && old(e).active@.dom().contains(k) ==> #[trigger] final(e).active@[k] == old(e).active@[k],
        are_the_others(old(e).downloads@, id, final(e).downloads@),
        final(e).paused@ == old(e).paused@,
        final(e).pending@ == old(e).pending@,
        final(e).connection_budget == old(e).connection_budget,
{
    assert(final(e)@.active == final(e).active@);
    assert(old(e)@.active == old(e).active@);
    assert(final(e)@.paused == final(e).paused@);
    assert(final(e)@.pending == final(e).pending@);
    assert(final(e)@.downloads == final(e).downloads@);
    assert(old(e)@.downloads == old(e).downloads@);
    assert(final(e).budget().available == old(e).budget().available);
    lemma_others(old(e).downloads@, id);
}

/// A download that has halted is where it was told to go: paused, or waiting
/// last where it was resumed meanwhile, or saved; it runs no longer.
pub proof fn law_halted_downloads_are_kept(
    e: &mut DownloadEngine,
    snapshot: TaskSnapshot,
    mode: HaltMode,
    action: EngineAction,
)
    requires
        call_ensures(DownloadEngine::runtime_stopped, (e, snapshot, mode), action),
    ensures
        ({
            let id = snapshot.task.id;
            let resumed = old(e).deferred@.dom().contains(id);
            let pausing = mode == HaltMode::Hibernating || mode == HaltMode::Draining;
            let n = old(e).pending@.len();
            &&& !final(e).active@.dom().contains(id)
            &&& are_the_others(old(e).downloads@, id, final(e).downloads@)
            &&& pausing && !resumed ==> {
                &&& action == (EngineAction::Report { id, status: DownloadStatus::Paused })
                &&& final(e).paused@.dom().contains(id)
                &&& final(e).paused@[id] == snapshot
                &&& final(e).pending@ == old(e).pending@
            }
            &&& pausing && resumed ==> {
                &&& action is Nothing
                &&& final(e).pending@.len() == n + 1
                &&& final(e).pending@[n as int] == PendingLaunch::Resume(snapshot)
                &&& forall|i: int| 0 <= i < n ==> #[trigger] final(e).pending@[i] == old(e).pending@[i]
                &&& !final(e).deferred@.dom().contains(id)
                &&& final(e).paused@ == old(e).paused@
            }
            &&& mode == HaltMode::PersistToDisk ==> {
                &&& action matches EngineAction::Persist { snapshot: s, path, status } && s == snapshot && status
                    == DownloadStatus::Stopped && path@ == final(e).persisted@[id]@
                &&& final(e).persisted@.dom().contains(id)
                &&& final(e).paused@ == old(e).paused@
                &&& final(e).pending@ == old(e).pending@
            }
            &&& mode == HaltMode::Running ==> action is Nothing && final(e).paused@ == old(e).paused@ && final(e).pending@ == old(e).pending@
            &&& final(e).connection_budget == old(e).connection_budget
        }),
{
    assert(final(e)@.active == final(e).active@);
    assert(old(e)@.active == old(e).active@);
    assert(final(e)@.paused == final(e).paused@);
    assert(old(e)@.paused == old(e).paused@);
    assert(final(e)@.pending == final(e).pending@);
    assert(old(e)@.pending == old(e).pending@);
    assert(final(e)@.persisted == final(e).persisted@);
    assert(final(e)@.deferred == final(e).deferred@.dom());
    assert(old(e)@.deferred == old(e).deferred@.dom());
    assert(final(e)@.downloads == final(e).downloads@);
    assert(old(e)@.downloads == old(e).downloads@);
    assert(final(e).budget().available == old(e).budget().available);
    lemma_others(old(e).downloads@, snapshot.task.id);
}

/// A state that was read from disk waits last.
pub proof fn law_loaded_downloads_wait_last(e: &mut DownloadEngine, snapshot: TaskSnapshot)
    requires
        call_ensures(DownloadEngine::resume_loaded, (e, snapshot), ()),
    ensures
        final(e).pending@.len() == old(e).pending@.len() + 1,
        forall|i: int| 0 <= i < old(e).pending@.len() ==> #[trigger] final(e).pending@[i] == old(e).pending@[i],
        final(e).pending@[old(e).pending@.len() as int] == PendingLaunch::Resume(snapshot),
        final(e).active@ == old(e).active@,
        final(e).paused@ == old(e).paused@,
{
    assert(final(e)@.pending == final(e).pending@);
    assert(final(e)@.active == final(e).active@);
    assert(final(e)@.paused == final(e).paused@);
}

/// Every way to halt is a halt, told apart by its kind; a download that was
/// never told to halt does not.
pub proof fn law_halts_are_told_apart(
    config: ScalerConfig,
    fresh: RuntimeControl,
    a: &mut RuntimeControl,
    b: &mut RuntimeControl,
    c: &mut RuntimeControl,
    d: &mut RuntimeControl,
    reason: String,
    x: &RuntimeControl,
    halted: bool,
)
    requires
        call_ensures(RuntimeControl::new, (config,), fresh),
        call_ensures(RuntimeControl::request_pause, (a,), ()),
        call_ensures(RuntimeControl::request_drain, (b,), ()),
        call_ensures(RuntimeControl::request_persist, (c,), ()),
        call_ensures(RuntimeControl::abort_for_challenge, (d, reason), ()),
        call_ensures(RuntimeControl::is_halted, (x,), halted),
    ensures
        fresh.halt_mode == HaltMode::Running && !fresh.cancel_flag && fresh.scaler_config == config
            && fresh.challenge_reason is None,
        final(a).halt_mode == HaltMode::Hibernating && final(a).cancel_flag,
        final(b).halt_mode == HaltMode::Draining && final(b).cancel_flag,
        final(c).halt_mode == HaltMode::PersistToDisk && final(c).cancel_flag,
        final(d).halt_mode == HaltMode::Hibernating && final(d).cancel_flag && final(d).challenge_reason == Some(
            reason,
        ),
        halted <==> x.cancel_flag || x.halt_mode != HaltMode::Running,
        final(a).scaler_config == old(a).scaler_config,
        final(b).scaler_config == old(b).scaler_config,
        final(c).scaler_config == old(c).scaler_config,
        final(d).scaler_config == old(d).scaler_config,
        final(a).challenge_reason == old(a).challenge_reason,
        final(b).challenge_reason == old(b).challenge_reason,
        final(c).challenge_reason == old(c).challenge_reason,
{
}

} // verus!
