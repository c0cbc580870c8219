//! The downloads of a service: which run, which wait, and what they share.

use std::collections::{HashMap, VecDeque};
use vstd::prelude::*;
use vstd::std_specs::hash::group_hash_axioms;
use crate::engine::coordinator::CoordinatorSnapshot;
use crate::engine::helpers::{
    budget_for_memory, compute_effective_connection_budget, compute_refill_interval_ms, refill_interval,
    WRITE_BUFFER_LARGE_BYTES,
};
use crate::engine::persistence::{metadata_path, metadata_path_of};
use crate::engine::scaler::{quota_for, TokenBucket};
use crate::engine::types::{DownloadStatus, HaltMode, ProtocolFamily, ScalerConfig, WorkerState};
use crate::numerals::{decimal, decimal_string};
use crate::service::{DownloadTask, WorkerSnapshot};
use crate::text::owned;
use crate::units::{max_int, max_u64, max_usize, min_int, min_u64, min_usize};
use crate::web_url::opt_text;

verus! {

broadcast use group_hash_axioms;

/// The largest write buffer while there is enough memory.
pub const WRITE_BUFFER_CAP_BYTES: usize = 4194304;

/// Whether and how a running task is to halt.
#[derive(Debug)]
pub struct RuntimeControl {
    pub halt_mode: HaltMode,
    pub cancel_flag: bool,
    pub scaler_config: ScalerConfig,
    /// Why the download cannot go on, where a page stood in its way.
    pub challenge_reason: Option<String>,
}

impl RuntimeControl {
    pub open spec fn halted(&self) -> bool {
        self.halt_mode != HaltMode::Running || self.cancel_flag
    }

    /// Halted in the given way, and otherwise unchanged.
    pub open spec fn halted_by(self, mode: HaltMode) -> RuntimeControl {
        RuntimeControl { halt_mode: mode, cancel_flag: true, ..self }
    }

    pub fn new(scaler_config: ScalerConfig) -> (r: RuntimeControl)
        ensures
            r == (RuntimeControl {
                halt_mode: HaltMode::Running,
                cancel_flag: false,
                scaler_config,
                challenge_reason: None,
            }),
            !r.halted(),
    {
        RuntimeControl { halt_mode: HaltMode::Running, cancel_flag: false, scaler_config, challenge_reason: None }
    }

    /// Halts, with the state kept in memory.
    pub fn request_pause(&mut self)
        ensures
            *final(self) == old(self).halted_by(HaltMode::Hibernating),
            final(self).halted(),
    {
        self.halt_mode = HaltMode::Hibernating;
        self.cancel_flag = true;
    }

    /// Halts once workers reach a point where it is safe.
    pub fn request_drain(&mut self)
        ensures
            *final(self) == old(self).halted_by(HaltMode::Draining),
            final(self).halted(),
    {
        self.halt_mode = HaltMode::Draining;
        self.cancel_flag = true;
    }

    /// Halts, with the state written to disk.
    pub fn request_persist(&mut self)
        ensures
            *final(self) == old(self).halted_by(HaltMode::PersistToDisk),
            final(self).halted(),
    {
        self.halt_mode = HaltMode::PersistToDisk;
        self.cancel_flag = true;
    }

    pub fn is_halted(&self) -> (r: bool)
        ensures
            r == self.halted(),
    {
        match self.halt_mode {
            HaltMode::Running => self.cancel_flag,
            _ => true,
        }
    }

    /// Halts because a page stood in the way.
    pub fn abort_for_challenge(&mut self, reason: String)
        ensures
            *final(self) == (RuntimeControl { challenge_reason: Some(reason), ..*old(self) }).halted_by(
                HaltMode::Hibernating,
            ),
    {
        self.challenge_reason = Some(reason);
        self.request_pause();
    }
}

/// What was measured before a pause. Measures are the bit patterns of
/// binary64 numbers.
#[derive(Debug, Clone, Copy, PartialEq, Eq, Structural)]
pub struct ResumeBootstrap {
    pub target_connections: usize,
    pub protocol_hint: ProtocolFamily,
    pub ewma_throughput_bits: u64,
    pub peak_efficiency_bits: u64,
    pub reuse_rate_bits: u64,
    pub heartbeat_ms: u64,
    pub saved_at_ms: u64,
}

/// A download that is not running.
#[derive(Debug)]
pub struct TaskSnapshot {
    pub task: DownloadTask,
    pub coordinator: CoordinatorSnapshot,
    pub resume_state: ResumeBootstrap,
}

/// A download that waits to be started.
#[derive(Debug)]
pub enum PendingLaunch {
    Fresh(DownloadTask),
    Resume(TaskSnapshot),
}

impl PendingLaunch {
    pub open spec fn task(self) -> DownloadTask {
        match self {
            PendingLaunch::Fresh(task) => task,
            PendingLaunch::Resume(snapshot) => snapshot.task,
        }
    }

    /// What the scaler starts with.
    pub open spec fn config(self) -> ScalerConfig {
        ScalerConfig {
            min_connections: self.task().min_connections,
            max_connections: self.task().max_connections,
            heartbeat_ms: match self {
                PendingLaunch::Fresh(_) => 2000,
                PendingLaunch::Resume(snapshot) => max_int(snapshot.resume_state.heartbeat_ms as int, 500) as u64,
            },
        }
    }
}

/// The bandwidth of a running download.
#[derive(Debug, Clone, Copy, PartialEq, Eq, Structural)]
pub struct DownloadSlot {
    pub id: u128,
    pub bucket: TokenBucket,
    pub per_download_limit_bps: u64,
}

/// What a command calls for.
#[derive(Debug)]
pub enum EngineAction {
    Nothing,
    /// Report a status.
    Report { id: u128, status: DownloadStatus },
    /// Write the state to the path, then report the status.
    Persist { snapshot: TaskSnapshot, path: String, status: DownloadStatus },
    /// Read the state from the path, and queue it.
    Load { path: String },
    /// Change the bounds in the state at the path.
    Rescale { path: String, config: ScalerConfig },
    /// No such task is known: the engine ends.
    Unknown { id: u128 },
}

/// The downloads of a service and what they share.
#[derive(Debug)]
pub struct DownloadEngine {
    pub connections_per_download: usize,
    pub max_concurrent_tasks: usize,
    pub configured_connection_budget: usize,
    pub effective_connection_budget: usize,
    pub connection_budget: usize,
    pub global_bandwidth_limit: u64,
    pub refill_interval_ms: u64,
    pub write_buffer_cap_bytes: usize,
    pub active: HashMap<u128, RuntimeControl>,
    pub paused: HashMap<u128, TaskSnapshot>,
    pub persisted: HashMap<u128, String>,
    pub deferred: HashMap<u128, bool>,
    pub pending: VecDeque<PendingLaunch>,
    pub downloads: Vec<DownloadSlot>,
}

/// The queues of an engine.
#[verifier::ext_equal]
pub struct EngineView {
    pub active: Map<u128, RuntimeControl>,
    pub paused: Map<u128, TaskSnapshot>,
    pub persisted: Map<u128, String>,
    pub deferred: Set<u128>,
    pub pending: Seq<PendingLaunch>,
    pub downloads: Seq<DownloadSlot>,
}

/// The numbers of an engine.
#[verifier::ext_equal]
pub struct BudgetView {
    pub per_download: usize,
    pub tasks: usize,
    pub configured: usize,
    pub effective: usize,
    pub available: usize,
    pub limit: u64,
    pub refill_ms: u64,
    pub buffer_cap: usize,
}

/// A download waits for its turn.
pub open spec fn waits(e: EngineView, id: u128) -> bool {
    exists|i: int| 0 <= i < e.pending.len() && (#[trigger] e.pending[i]).task().id == id
}

/// The engine neither runs nor keeps the download, nor has it wait.
pub open spec fn is_new(e: EngineView, id: u128) -> bool {
    !e.active.dom().contains(id) && !e.paused.dom().contains(id) && !waits(e, id)
}

/// Every download is in one place at most: it runs, is paused, or waits for
/// its turn, once.
pub open spec fn one_place(e: EngineView) -> bool {
    &&& forall|id: u128| #[trigger]
        e.paused.dom().contains(id) ==> !e.active.dom().contains(id) && e.paused[id].task.id == id
    &&& forall|i: int|
        0 <= i < e.pending.len() ==> !e.active.dom().contains((#[trigger] e.pending[i]).task().id)
            && !e.paused.dom().contains(e.pending[i].task().id)
    &&& forall|i: int, j: int|
        0 <= i < j < e.pending.len() ==> (#[trigger] e.pending[i]).task().id != (#[trigger] e.pending[j]).task().id
}

/// A download that is new, or that has just left its place, can wait.
proof fn lemma_queued(e: EngineView, launch: PendingLaunch)
    requires
        one_place(e),
        is_new(e, launch.task().id),
    ensures
        one_place(EngineView { pending: e.pending.push(launch), ..e }),
{
    let after = e.pending.push(launch);
    assert forall|i: int, j: int| 0 <= i < j < after.len() implies (#[trigger] after[i]).task().id != (
    #[trigger] after[j]).task().id by {
        assert(after[i] == e.pending[i]);
        if j < e.pending.len() {
            assert(after[j] == e.pending[j]);
        }
    }
    assert forall|i: int| 0 <= i < after.len() implies !e.active.dom().contains((#[trigger] after[i]).task().id)
        && !e.paused.dom().contains(after[i].task().id) by {
        if i < e.pending.len() {
            assert(after[i] == e.pending[i]);
        }
    }
}

/// The slots of all downloads but `id`.
pub open spec fn without_slot(slots: Seq<DownloadSlot>, id: u128) -> Seq<DownloadSlot> {
    slots.filter(|s: DownloadSlot| s.id != id)
}

fn remove_slot(slots: &mut Vec<DownloadSlot>, id: u128)
    ensures
        final(slots)@ == without_slot(old(slots)@, id),
{
    let ghost all = slots@;
    let ghost keep = |s: DownloadSlot| s.id != id;
    let mut kept: Vec<DownloadSlot> = Vec::new();
    let mut i: usize = 0;
    assert(all.take(0) =~= Seq::empty());
    assert(kept@ =~= Seq::<DownloadSlot>::empty().filter(keep)) by {
        reveal(Seq::filter);
    }
    while i < slots.len()
        invariant
            i <= slots@.len(),
            all == slots@,
            keep == (|s: DownloadSlot| s.id != id),
            kept@ == all.take(i as int).filter(keep),
        decreases slots@.len() - i,
    {
        proof {
            assert(all.take(i + 1).drop_last() =~= all.take(i as int));
            reveal(Seq::filter);
        }
        if slots[i].id != id {
            kept.push(slots[i]);
        }
        i = i + 1;
    }
    assert(all.take(all.len() as int) =~= all);
    *slots = kept;
}

impl DownloadEngine {
    pub open spec fn view(&self) -> EngineView {
        EngineView {
            active: self.active@,
            paused: self.paused@,
            persisted: self.persisted@,
            deferred: self.deferred@.dom(),
            pending: self.pending@,
            downloads: self.downloads@,
        }
    }

    pub open spec fn budget(&self) -> BudgetView {
        BudgetView {
            per_download: self.connections_per_download,
            tasks: self.max_concurrent_tasks,
            configured: self.configured_connection_budget,
            effective: self.effective_connection_budget,
            available: self.connection_budget,
            limit: self.global_bandwidth_limit,
            refill_ms: self.refill_interval_ms,
            buffer_cap: self.write_buffer_cap_bytes,
        }
    }

    /// No more connections are available than may be open, and every download
    /// is in one place at most.
    pub open spec fn wf(&self) -> bool {
        self.connection_budget <= self.effective_connection_budget && one_place(self@)
    }

    pub fn new(
        connections_per_download: usize,
        max_concurrent_tasks: usize,
        max_total_connections: usize,
        global_bandwidth_limit_bps: u64,
    ) -> (r: DownloadEngine)
        ensures
            r.wf(),
            r.budget() == ({
                let total = max_int(max_total_connections as int, 1) as usize;
                BudgetView {
                    per_download: connections_per_download,
                    tasks: max_concurrent_tasks,
                    configured: total,
                    effective: total,
                    available: total,
                    limit: global_bandwidth_limit_bps,
                    refill_ms: if global_bandwidth_limit_bps == 0 { 50 } else { 100 },
                    buffer_cap: WRITE_BUFFER_CAP_BYTES,
                }
            }),
            r@ == (EngineView {
                active: Map::empty(),
                paused: Map::empty(),
                persisted: Map::empty(),
                deferred: Set::empty(),
                pending: Seq::empty(),
                downloads: Seq::empty(),
            }),
    {
        let total: usize = max_usize(max_total_connections, 1);
        let r = DownloadEngine {
            connections_per_download,
            max_concurrent_tasks,
            configured_connection_budget: total,
            effective_connection_budget: total,
            connection_budget: total,
            global_bandwidth_limit: global_bandwidth_limit_bps,
            refill_interval_ms: if global_bandwidth_limit_bps == 0 {
                50
            } else {
                100
            },
            write_buffer_cap_bytes: WRITE_BUFFER_CAP_BYTES,
            active: HashMap::new(),
            paused: HashMap::new(),
            persisted: HashMap::new(),
            deferred: HashMap::new(),
            pending: VecDeque::new(),
            downloads: Vec::new(),
        };
        assert(r@.deferred =~= Set::empty());
        r
    }

    /// The numbers after a connection was asked for.
    pub open spec fn leased(b: BudgetView) -> BudgetView {
        BudgetView { available: max_int(b.available - 1, 0) as usize, ..b }
    }

    /// The numbers after a connection was given back.
    pub open spec fn returned(b: BudgetView) -> BudgetView {
        BudgetView { available: min_int(b.available + 1, b.effective as int) as usize, ..b }
    }

    /// Takes a connection, if one is available.
    pub fn request_connection(&mut self) -> (granted: bool)
        ensures
            granted == (old(self).connection_budget > 0),
            final(self)@ == old(self)@,
            final(self).budget() == Self::leased(old(self).budget()),
            old(self).wf() ==> final(self).wf(),
    {
        if self.connection_budget > 0 {
            self.connection_budget = self.connection_budget - 1;
            true
        } else {
            false
        }
    }

    /// Gives a connection back.
    pub fn release_connection(&mut self)
        ensures
            final(self)@ == old(self)@,
            final(self).budget() == Self::returned(old(self).budget()),
            old(self).wf() ==> final(self).wf(),
    {
        let next: usize = if self.connection_budget < usize::MAX {
            self.connection_budget + 1
        } else {
            usize::MAX
        };
        self.connection_budget = min_usize(next, self.effective_connection_budget);
    }

    /// The numbers after a look at the memory: the budget follows it, and what
    /// is in use is taken off the new budget.
    pub open spec fn after_memory_check(b: BudgetView, available_mb: int) -> BudgetView {
        let now = budget_for_memory(b.configured as int, available_mb);
        let in_use = b.effective - min_int(b.available as int, b.effective as int);
        let cap = if available_mb < 512 {
            WRITE_BUFFER_LARGE_BYTES
        } else {
            WRITE_BUFFER_CAP_BYTES
        };
        if now != b.effective {
            BudgetView {
                effective: now as usize,
                available: max_int(now - in_use, 0) as usize,
                buffer_cap: cap,
                ..b
            }
        } else {
            BudgetView { buffer_cap: cap, ..b }
        }
    }

    /// Adjusts the budget to the memory that is available.
    pub fn check_memory(&mut self, available_mb: u64)
        ensures
            final(self)@ == old(self)@,
            final(self).budget() == Self::after_memory_check(old(self).budget(), available_mb as int),
            old(self).wf() ==> final(self).wf(),
    {
        let previous: usize = self.effective_connection_budget;
        let now: usize = compute_effective_connection_budget(self.configured_connection_budget, available_mb);
        self.write_buffer_cap_bytes = if available_mb < 512 {
            WRITE_BUFFER_LARGE_BYTES
        } else {
            WRITE_BUFFER_CAP_BYTES
        };
        if now != previous {
            let available: usize = min_usize(self.connection_budget, previous);
            let in_use: usize = previous - available;
            self.effective_connection_budget = now;
            self.connection_budget = now - min_usize(in_use, now);
        }
    }

    /// Queues a new download.
    pub fn add_task(&mut self, task: DownloadTask)
        ensures
            final(self)@ == (EngineView { pending: old(self)@.pending.push(PendingLaunch::Fresh(task)), ..old(self)@ }),
            final(self).budget() == old(self).budget(),
            old(self).wf() && is_new(old(self)@, task.id) ==> final(self).wf(),
    {
        proof {
            if old(self).wf() && is_new(old(self)@, task.id) {
                lemma_queued(old(self)@, PendingLaunch::Fresh(task));
            }
        }
        self.pending.push_back(PendingLaunch::Fresh(task));
    }

    /// The queues after the first waiting download was started.
    pub open spec fn launched(e: EngineView) -> EngineView {
        let first = e.pending[0];
        let id = first.task().id;
        EngineView {
            pending: e.pending.skip(1),
            active: e.active.insert(
                id,
                RuntimeControl {
                    halt_mode: HaltMode::Running,
                    cancel_flag: false,
                    scaler_config: first.config(),
                    challenge_reason: None,
                },
            ),
            downloads: e.downloads.push(
                DownloadSlot {
                    id,
                    bucket: TokenBucket { quota_bytes_per_sec: 0, tokens: 0, refill_interval_ms: 100 },
                    per_download_limit_bps: first.task().per_download_bandwidth_limit_bps,
                },
            ),
            ..e
        }
    }

    /// Starts the next waiting download, if fewer run than may.
    pub fn next_launch(&mut self) -> (r: Option<PendingLaunch>)
        ensures
            final(self).budget() == old(self).budget(),
            match r {
                Some(launch) => old(self)@.active.len() < old(self).max_concurrent_tasks && old(self)@.pending.len()
                    > 0 && launch == old(self)@.pending[0] && final(self)@ == Self::launched(old(self)@),
                None => (old(self)@.active.len() >= old(self).max_concurrent_tasks || old(self)@.pending.len() == 0)
                    && final(self)@ == old(self)@,
            },
            old(self).wf() ==> final(self).wf(),
    {
        if self.active.len() >= self.max_concurrent_tasks {
            return None;
        }
        let ghost before = self@;
        match self.pending.pop_front() {
            Some(launch) => {
                let (id, limit, config) = match &launch {
                    PendingLaunch::Fresh(task) => (
                        task.id,
                        task.per_download_bandwidth_limit_bps,
                        ScalerConfig {
                            min_connections: task.min_connections,
                            max_connections: task.max_connections,
                            heartbeat_ms: 2000,
                        },
                    ),
                    PendingLaunch::Resume(snapshot) => (
                        snapshot.task.id,
                        snapshot.task.per_download_bandwidth_limit_bps,
                        ScalerConfig {
                            min_connections: snapshot.task.min_connections,
                            max_connections: snapshot.task.max_connections,
                            heartbeat_ms: max_u64(snapshot.resume_state.heartbeat_ms, 500),
                        },
                    ),
                };
                self.active.insert(id, RuntimeControl::new(config));
                self.downloads.push(DownloadSlot { id, bucket: TokenBucket::new(), per_download_limit_bps: limit });
                assert(self@.pending =~= before.pending.skip(1));
                Some(launch)
            },
            None => None,
        }
    }

    /// The queues after a running download was told to halt.
    pub open spec fn halting(e: EngineView, id: u128, mode: HaltMode) -> EngineView {
        EngineView { active: e.active.insert(id, e.active[id].halted_by(mode)), ..e }
    }

    /// Tells a running download to halt where it is safe.
    pub fn stop_task(&mut self, id: u128)
        ensures
            final(self).budget() == old(self).budget(),
            final(self)@ == if old(self)@.active.dom().contains(id) {
                Self::halting(old(self)@, id, HaltMode::Draining)
            } else {
                old(self)@
            },
            old(self).wf() ==> final(self).wf(),
    {
        match self.active.remove(&id) {
            Some(control) => {
                let mut control: RuntimeControl = control;
                control.request_drain();
                self.active.insert(id, control);
                assert(self@.active =~= old(self)@.active.insert(
                    id,
                    old(self)@.active[id].halted_by(HaltMode::Draining),
                ));
            },
            None => {
                assert(self@.active =~= old(self)@.active);
            },
        }
    }

    /// Cancels a download: a running one is told to halt and be saved; a
    /// paused one is saved.
    pub fn cancel_task(&mut self, id: u128) -> (action: EngineAction)
        ensures
            final(self).budget() == old(self).budget(),
            if old(self)@.active.dom().contains(id) {
                &&& action is Nothing
                &&& final(self)@ == Self::halting(old(self)@, id, HaltMode::PersistToDisk)
            } else if old(self)@.paused.dom().contains(id) {
                let snapshot = old(self)@.paused[id];
                &&& action matches EngineAction::Persist { snapshot: s, path, status } && s == snapshot && status
                    == DownloadStatus::Stopped && path@
                    == metadata_path_of(snapshot.task@)
                &&& final(self)@.persisted[snapshot.task.id]@ == metadata_path_of(snapshot.task@)
                &&& final(self)@ == (EngineView {
                    paused: old(self)@.paused.remove(id),
                    persisted: old(self)@.persisted.insert(
                        snapshot.task.id,
                        final(self)@.persisted[snapshot.task.id],
                    ),
                    ..old(self)@
                })
            } else {
                &&& action is Nothing
                &&& final(self)@ == old(self)@
            },
            old(self).wf() ==> final(self).wf(),
    {
        match self.active.remove(&id) {
            Some(control) => {
                let mut control: RuntimeControl = control;
                control.request_persist();
                self.active.insert(id, control);
                assert(self@.active =~= old(self)@.active.insert(
                    id,
                    old(self)@.active[id].halted_by(HaltMode::PersistToDisk),
                ));
                return EngineAction::Nothing;
            },
            None => {
                assert(self@.active =~= old(self)@.active);
            },
        }
        match self.paused.remove(&id) {
            Some(snapshot) => {
                let path: String = metadata_path(&snapshot.task);
                let copy: String = owned(path.as_str());
                self.persisted.insert(snapshot.task.id, copy);
                assert(self@.persisted.dom() =~= old(self)@.persisted.dom().insert(snapshot.task.id));
                EngineAction::Persist { snapshot, path, status: DownloadStatus::Stopped }
            },
            None => {
                assert(self@.paused =~= old(self)@.paused);
                EngineAction::Nothing
            },
        }
    }

    /// The queues after a paused download was resumed.
    pub open spec fn requeued(e: EngineView, id: u128) -> EngineView {
        EngineView {
            paused: e.paused.remove(id),
            pending: e.pending.push(PendingLaunch::Resume(e.paused[id])),
            ..e
        }
    }

    /// What it comes to when a download is resumed: one that is still running
    /// is resumed once it has halted; a paused one is queued; a saved one is to
    /// be read from disk.
    pub open spec fn resume_outcome(e: EngineView, id: u128, action: EngineAction, after: EngineView) -> bool {
        if e.active.dom().contains(id) {
            &&& action is Nothing
            &&& after == (EngineView { deferred: e.deferred.insert(id), ..e })
        } else if e.paused.dom().contains(id) {
            &&& action is Nothing
            &&& after == Self::requeued(e, id)
        } else if e.persisted.dom().contains(id) {
            &&& action matches EngineAction::Load { path } && path@ == e.persisted[id]@
            &&& after == e
        } else {
            &&& action == (EngineAction::Unknown { id })
            &&& after == e
        }
    }

    /// Resumes a download.
    pub fn resume_task(&mut self, id: u128) -> (action: EngineAction)
        ensures
            final(self).budget() == old(self).budget(),
            Self::resume_outcome(old(self)@, id, action, final(self)@),
            old(self).wf() ==> final(self).wf(),
    {
        if self.active.contains_key(&id) {
            self.deferred.insert(id, true);
            assert(self@.deferred =~= old(self)@.deferred.insert(id));
            return EngineAction::Nothing;
        }
        match self.paused.remove(&id) {
            Some(snapshot) => {
                proof {
                    if old(self).wf() {
                        let left = EngineView { paused: old(self)@.paused.remove(id), ..old(self)@ };
                        assert(one_place(left));
                        lemma_queued(left, PendingLaunch::Resume(snapshot));
                    }
                }
                self.pending.push_back(PendingLaunch::Resume(snapshot));
                return EngineAction::Nothing;
            },
            None => {
                assert(self@.paused =~= old(self)@.paused);
            },
        }
        match self.persisted.get(&id) {
            Some(path) => EngineAction::Load { path: owned(path.as_str()) },
            None => EngineAction::Unknown { id },
        }
    }

    /// The queues after a download whose state was read from disk was resumed.
    pub open spec fn reloaded(e: EngineView, snapshot: TaskSnapshot) -> EngineView {
        EngineView { pending: e.pending.push(PendingLaunch::Resume(snapshot)), ..e }
    }

    /// Queues a download whose state was read from disk.
    pub fn resume_loaded(&mut self, snapshot: TaskSnapshot)
        ensures
            final(self).budget() == old(self).budget(),
            final(self)@ == Self::reloaded(old(self)@, snapshot),
            old(self).wf() && is_new(old(self)@, snapshot.task.id) ==> final(self).wf(),
    {
        proof {
            if old(self).wf() && is_new(old(self)@, snapshot.task.id) {
                lemma_queued(old(self)@, PendingLaunch::Resume(snapshot));
            }
        }
        self.pending.push_back(PendingLaunch::Resume(snapshot));
    }

    /// Why bounds cannot be taken over.
    pub open spec fn invalid_bounds(config: ScalerConfig) -> Seq<char> {
        "invalid scaling update: min_connections "@ + decimal(config.min_connections as nat)
            + " exceeds max_connections "@ + decimal(config.max_connections as nat)
    }

    /// Changes the bounds of a download, wherever it is.
    pub fn update_scaling(&mut self, id: u128, config: ScalerConfig) -> (action: EngineAction)
        ensures
            final(self).budget() == old(self).budget(),
            if config.min_connections > config.max_connections {
                &&& action matches EngineAction::Report { id: i, status: DownloadStatus::Error(reason) } && i == id && reason@
                    == Self::invalid_bounds(config)
                &&& final(self)@ == old(self)@
            } else if old(self)@.active.dom().contains(id) {
                &&& action is Nothing
                &&& final(self)@ == (EngineView {
                    active: old(self)@.active.insert(
                        id,
                        RuntimeControl { scaler_config: config, ..old(self)@.active[id] },
                    ),
                    ..old(self)@
                })
            } else if old(self)@.paused.dom().contains(id) {
                let s = old(self)@.paused[id];
                &&& action is Nothing
                &&& final(self)@ == (EngineView {
                    paused: old(self)@.paused.insert(
                        id,
                        TaskSnapshot {
                            task: DownloadTask {
                                min_connections: config.min_connections,
                                max_connections: config.max_connections,
                                ..s.task
                            },
                            ..s
                        },
                    ),
                    ..old(self)@
                })
            } else if old(self)@.persisted.dom().contains(id) {
                &&& action matches EngineAction::Rescale { path, config: c } && path@ == old(self)@.persisted[id]@
                    && c == config
                &&& final(self)@ == old(self)@
            } else {
                &&& action is Nothing
                &&& final(self)@ == old(self)@
            },
            old(self).wf() ==> final(self).wf(),
    {
        if config.min_connections > config.max_connections {
            let mut reason: String = owned("invalid scaling update: min_connections ");
            let low: String = decimal_string(config.min_connections as u64);
            let high: String = decimal_string(config.max_connections as u64);
            reason.append(low.as_str());
            reason.append(" exceeds max_connections ");
            reason.append(high.as_str());
            return EngineAction::Report { id, status: DownloadStatus::Error(reason) };
        }
        match self.active.remove(&id) {
            Some(control) => {
                let mut control: RuntimeControl = control;
                control.scaler_config = config;
                self.active.insert(id, control);
                assert(self@.active =~= old(self)@.active.insert(
                    id,
                    RuntimeControl { scaler_config: config, ..old(self)@.active[id] },
                ));
                return EngineAction::Nothing;
            },
            None => {
                assert(self@.active =~= old(self)@.active);
            },
        }
        match self.paused.remove(&id) {
            Some(snapshot) => {
                let mut snapshot: TaskSnapshot = snapshot;
                snapshot.task.min_connections = config.min_connections;
                snapshot.task.max_connections = config.max_connections;
                let ghost s = old(self)@.paused[id];
                assert(snapshot == (TaskSnapshot {
                    task: DownloadTask {
                        min_connections: config.min_connections,
                        max_connections: config.max_connections,
                        ..s.task
                    },
                    ..s
                }));
                let ghost kept = snapshot;
                self.paused.insert(id, snapshot);
                assert(self@.paused =~= old(self)@.paused.insert(id, kept));
                return EngineAction::Nothing;
            },
            None => {
                assert(self@.paused =~= old(self)@.paused);
            },
        }
        match self.persisted.get(&id) {
            Some(path) => EngineAction::Rescale { path: owned(path.as_str()), config },
            None => EngineAction::Nothing,
        }
    }

    /// What is left when the download `id` runs no longer.
    pub open spec fn released(e: EngineView, id: u128) -> EngineView {
        EngineView { active: e.active.remove(id), downloads: without_slot(e.downloads, id), ..e }
    }

    /// Frees the place of a download that is complete or has failed.
    pub fn task_finished(&mut self, id: u128)
        ensures
            final(self).budget() == old(self).budget(),
            final(self)@ == Self::released(old(self)@, id),
            old(self).wf() ==> final(self).wf(),
    {
        self.active.remove(&id);
        assert(self@.active =~= old(self)@.active.remove(id));
        remove_slot(&mut self.downloads, id);
    }

    /// The queues after a download that ran was paused.
    pub open spec fn parked(e: EngineView, snapshot: TaskSnapshot) -> EngineView {
        let freed = Self::released(e, snapshot.task.id);
        EngineView { paused: freed.paused.insert(snapshot.task.id, snapshot), ..freed }
    }

    /// `after` are the queues after a download that ran was saved.
    pub open spec fn saved(e: EngineView, snapshot: TaskSnapshot, after: EngineView) -> bool {
        let freed = Self::released(e, snapshot.task.id);
        let id = snapshot.task.id;
        &&& after.persisted[id]@ == metadata_path_of(snapshot.task@)
        &&& after == (EngineView { persisted: freed.persisted.insert(id, after.persisted[id]), ..freed })
    }

    /// What it comes to when a download has halted: it is paused, or queued
    /// again where that was asked for meanwhile, or saved.
    pub open spec fn halt_outcome(
        e: EngineView,
        snapshot: TaskSnapshot,
        halt_mode: HaltMode,
        action: EngineAction,
        after: EngineView,
    ) -> bool {
        let id = snapshot.task.id;
        let freed = Self::released(e, id);
        match halt_mode {
            HaltMode::Running => action is Nothing && after == freed,
            HaltMode::PersistToDisk => {
                &&& action matches EngineAction::Persist { snapshot: s, path, status } && s == snapshot && status
                    == DownloadStatus::Stopped && path@
                    == metadata_path_of(snapshot.task@)
                &&& Self::saved(e, snapshot, after)
            },
            _ => if e.deferred.contains(id) {
                &&& action is Nothing
                &&& after == (EngineView {
                    deferred: freed.deferred.remove(id),
                    pending: freed.pending.push(PendingLaunch::Resume(snapshot)),
                    ..freed
                })
            } else {
                &&& action == (EngineAction::Report { id, status: DownloadStatus::Paused })
                &&& after == Self::parked(e, snapshot)
            },
        }
    }

    /// Takes a download that has halted.
    pub fn runtime_stopped(&mut self, snapshot: TaskSnapshot, halt_mode: HaltMode) -> (action: EngineAction)
        ensures
            final(self).budget() == old(self).budget(),
            Self::halt_outcome(old(self)@, snapshot, halt_mode, action, final(self)@),
            old(self).wf() && old(self)@.active.dom().contains(snapshot.task.id) ==> final(self).wf(),
    {
        let id: u128 = snapshot.task.id;
        self.task_finished(id);
        let ghost freed = self@;
        proof {
            if old(self).wf() && old(self)@.active.dom().contains(id) {
                assert(is_new(freed, id));
                lemma_queued(freed, PendingLaunch::Resume(snapshot));
            }
        }
        match halt_mode {
            HaltMode::Running => EngineAction::Nothing,
            HaltMode::PersistToDisk => {
                let path: String = metadata_path(&snapshot.task);
                let copy: String = owned(path.as_str());
                self.persisted.insert(id, copy);
                assert(self@.persisted.dom() =~= freed.persisted.dom().insert(id));
                EngineAction::Persist { snapshot, path, status: DownloadStatus::Stopped }
            },
            _ => {
                let resume: bool = self.deferred.contains_key(&id);
                if resume {
                    self.deferred.remove(&id);
                    assert(self@.deferred =~= freed.deferred.remove(id));
                    self.pending.push_back(PendingLaunch::Resume(snapshot));
                    EngineAction::Nothing
                } else {
                    self.paused.insert(id, snapshot);
                    EngineAction::Report { id, status: DownloadStatus::Paused }
                }
            },
        }
    }

    /// The slots after a refill: each download gets its quota and what that
    /// grants in one interval.
    pub open spec fn refilled(slots: Seq<DownloadSlot>, limit: int, interval_ms: u64) -> Seq<DownloadSlot> {
        let share = if limit == 0 || slots.len() == 0 {
            0
        } else {
            limit / slots.len() as int
        };
        slots.map_values(
            |s: DownloadSlot|
                {
                    let b = TokenBucket {
                        quota_bytes_per_sec: quota_for(share, s.per_download_limit_bps as int) as u64,
                        refill_interval_ms: interval_ms,
                        ..s.bucket
                    };
                    DownloadSlot { bucket: TokenBucket { tokens: b.refilled(interval_ms as int) as i64, ..b }, ..s }
                },
        )
    }

    /// Refills the buckets of the running downloads. `recompute` tells
    /// whether the interval is to be reckoned anew.
    pub fn refill(&mut self, recompute: bool)
        ensures
            final(self).budget() == (BudgetView {
                refill_ms: if recompute {
                    refill_interval(old(self).global_bandwidth_limit as int) as u64
                } else {
                    old(self).refill_interval_ms
                },
                ..old(self).budget()
            }),
            final(self)@ == (EngineView {
                downloads: Self::refilled(
                    old(self)@.downloads,
                    old(self).global_bandwidth_limit as int,
                    final(self).refill_interval_ms,
                ),
                ..old(self)@
            }),
            old(self).wf() ==> final(self).wf(),
    {
        if recompute {
            self.refill_interval_ms = compute_refill_interval_ms(self.global_bandwidth_limit);
        }
        let interval_ms: u64 = self.refill_interval_ms;
        let limit: u64 = self.global_bandwidth_limit;
        let n: usize = self.downloads.len();
        let share: u64 = if limit == 0 || n == 0 {
            0
        } else {
            limit / (n as u64)
        };
        let ghost all = self.downloads@;
        let ghost want = Self::refilled(all, limit as int, interval_ms);
        let mut slots: Vec<DownloadSlot> = Vec::new();
        let mut i: usize = 0;
        while i < n
            invariant
                n == self.downloads@.len(),
                all == self.downloads@,
                i <= n,
                want == Self::refilled(all, limit as int, interval_ms),
                share == (if limit == 0 || n == 0 {
                    0
                } else {
                    limit as int / n as int
                }),
                slots@ =~= want.take(i as int),
                want.len() == n,
            decreases n - i,
        {
            let mut slot: DownloadSlot = self.downloads[i];
            let own: u64 = slot.per_download_limit_bps;
            let quota: u64 = if share == 0 {
                own
            } else if own == 0 {
                share
            } else {
                min_u64(share, own)
            };
            slot.bucket.quota_bytes_per_sec = quota;
            slot.bucket.refill_interval_ms = interval_ms;
            slot.bucket.refill(interval_ms);
            assert(slot == want[i as int]);
            slots.push(slot);
            i = i + 1;
        }
        assert(want.take(n as int) =~= want);
        self.downloads = slots;
    }
}

/// A connection that is taken and given back leaves the budget as it was.
pub proof fn law_lease_round_trip(b: BudgetView)
    requires
        0 < b.available <= b.effective,
    ensures
        DownloadEngine::returned(DownloadEngine::leased(b)) == b,
{
}

/// A change of the budget keeps what is in use on the books, as far as the
/// new budget reaches.
pub proof fn law_memory_keeps_leases(b: BudgetView, available_mb: int)
    requires
        b.available <= b.effective,
        b.configured >= 1,
        b.configured * 3 <= usize::MAX,
    ensures
        ({
            let a = DownloadEngine::after_memory_check(b, available_mb);
            &&& a.available <= a.effective
            &&& a.effective - a.available == min_int(b.effective - b.available, a.effective as int)
            &&& 1 <= a.effective <= max_int(b.configured as int, b.effective as int)
        }),
{
}

/// A running download that is told to stop, and halts with no resume asked for
/// meanwhile, is reported as paused and runs no longer. A resume queues the
/// state it halted in.
pub proof fn law_stop_then_resume(
    e: EngineView,
    snapshot: TaskSnapshot,
    told: EngineAction,
    stopped: EngineView,
    action: EngineAction,
    resumed: EngineView,
)
    requires
        e.active.dom().contains(snapshot.task.id),
        !e.deferred.contains(snapshot.task.id),
        DownloadEngine::halt_outcome(
            DownloadEngine::halting(e, snapshot.task.id, HaltMode::Draining),
            snapshot,
            HaltMode::Draining,
            told,
            stopped,
        ),
        DownloadEngine::resume_outcome(stopped, snapshot.task.id, action, resumed),
    ensures
        ({
            let id = snapshot.task.id;
            let control = DownloadEngine::halting(e, id, HaltMode::Draining).active[id];
            &&& control.halted()
            &&& control.halt_mode == HaltMode::Draining
            &&& told == (EngineAction::Report { id, status: DownloadStatus::Paused })
            &&& !stopped.active.dom().contains(id)
            &&& stopped.paused.dom().contains(id)
            &&& stopped.paused[id] == snapshot
            &&& action is Nothing
            &&& resumed.pending == e.pending.push(PendingLaunch::Resume(snapshot))
            &&& resumed.paused == e.paused.remove(id)
            &&& resumed.active == e.active.remove(id)
        }),
{
    let id = snapshot.task.id;
    assert(e.paused.insert(id, snapshot).remove(id) =~= e.paused.remove(id));
    assert(resumed.active =~= e.active.remove(id));
}

/// A running download that is canceled is saved once it halts, and runs no
/// longer. A resume asks for what was saved, and queues it once it is read.
pub proof fn law_cancel_then_resume(
    e: EngineView,
    snapshot: TaskSnapshot,
    told: EngineAction,
    stopped: EngineView,
    action: EngineAction,
    resumed: EngineView,
)
    requires
        one_place(e),
        e.active.dom().contains(snapshot.task.id),
        DownloadEngine::halt_outcome(
            DownloadEngine::halting(e, snapshot.task.id, HaltMode::PersistToDisk),
            snapshot,
            HaltMode::PersistToDisk,
            told,
            stopped,
        ),
        DownloadEngine::resume_outcome(stopped, snapshot.task.id, action, resumed),
    ensures
        ({
            let id = snapshot.task.id;
            let control = DownloadEngine::halting(e, id, HaltMode::PersistToDisk).active[id];
            let loaded = DownloadEngine::reloaded(resumed, snapshot);
            &&& control.halted()
            &&& control.halt_mode == HaltMode::PersistToDisk
            &&& told matches EngineAction::Persist { snapshot: s, path, status } && s == snapshot && status
                    == DownloadStatus::Stopped && path@ == metadata_path_of(
                snapshot.task@,
            )
            &&& is_new(stopped, id)
            &&& action matches EngineAction::Load { path } && path@ == metadata_path_of(snapshot.task@)
            &&& loaded.pending == e.pending.push(PendingLaunch::Resume(snapshot))
            &&& loaded.active == e.active.remove(id)
            &&& loaded.paused == e.paused
            &&& one_place(loaded)
        }),
{
    let id = snapshot.task.id;
    assert(stopped.active =~= e.active.remove(id));
    assert(one_place(stopped));
    lemma_queued(stopped, PendingLaunch::Resume(snapshot));
}

/// What waits is started in the order in which it came to wait.
pub proof fn law_launches_keep_the_order(e: EngineView, n: int, launch: PendingLaunch)
    requires
        0 <= n < e.pending.len(),
        e.pending[n] == launch,
    ensures
        n == 0 ==> DownloadEngine::launched(e).active.dom().contains(launch.task().id),
        n > 0 ==> DownloadEngine::launched(e).pending[n - 1] == launch,
{
}

/// No more downloads run than may.
pub proof fn law_launches_keep_the_limit(e: EngineView, limit: int)
    requires
        e.active.dom().finite(),
        e.pending.len() > 0,
        e.active.len() < limit,
    ensures
        DownloadEngine::launched(e).active.len() <= limit,
{
}

/// The state of one worker, for display.
#[derive(Debug)]
pub struct WorkerDiagnosticsState {
    pub connection_id: u32,
    pub state: WorkerState,
    pub speed_bits: u64,
    pub range: Option<(u64, u64, u64)>,
    pub detail: Option<String>,
}

impl WorkerDiagnosticsState {
    pub fn new(connection_id: u32) -> (r: WorkerDiagnosticsState)
        ensures
            r.connection_id == connection_id,
            r.state == WorkerState::Connecting,
            r.speed_bits == 0,
            r.range is None,
            r.detail is None,
    {
        WorkerDiagnosticsState {
            connection_id,
            state: WorkerState::Connecting,
            speed_bits: 0,
            range: None,
            detail: None,
        }
    }

    /// Changes the state; only a downloading worker has a speed.
    pub fn set_state(&mut self, state: WorkerState)
        ensures
            *final(self) == (WorkerDiagnosticsState {
                state,
                speed_bits: if state == WorkerState::Downloading {
                    old(self).speed_bits
                } else {
                    0
                },
                ..*old(self)
            }),
    {
        self.state = state;
        match state {
            WorkerState::Downloading => {},
            _ => {
                self.speed_bits = 0;
            },
        }
    }

    pub fn set_range(&mut self, start: u64, end: u64, cursor: u64)
        ensures
            *final(self) == (WorkerDiagnosticsState { range: Some((start, end, cursor)), ..*old(self) }),
    {
        self.range = Some((start, end, cursor));
    }

    pub fn clear_range(&mut self)
        ensures
            *final(self) == (WorkerDiagnosticsState { range: None, ..*old(self) }),
    {
        self.range = None;
    }

    pub fn snapshot(&self, transferred_bytes: u64) -> (r: WorkerSnapshot)
        ensures
            r.connection_id == self.connection_id,
            r.state == self.state,
            r.transferred_bytes == transferred_bytes,
            r.speed_bits == self.speed_bits,
            match self.range {
                Some((start, end, cursor)) => r.range_start == Some(start) && r.range_end == Some(end)
                    && r.range_cursor == Some(cursor),
                None => r.range_start is None && r.range_end is None && r.range_cursor is None,
            },
            opt_text(r.detail) == opt_text(self.detail),
    {
        let (range_start, range_end, range_cursor) = match self.range {
            Some((start, end, cursor)) => (Some(start), Some(end), Some(cursor)),
            None => (None, None, None),
        };
        WorkerSnapshot {
            connection_id: self.connection_id,
            state: self.state,
            transferred_bytes,
            speed_bits: self.speed_bits,
            range_start,
            range_end,
            range_cursor,
            detail: crate::request::copy_text(&self.detail),
        }
    }
}

/// What a worker is told, and what it tells.
#[derive(Debug)]
pub struct WorkerControl {
    pub connection_id: u32,
    pub stop_requested: bool,
    pub transferred_bytes: u64,
    pub pending_growth_probe: bool,
    pub diagnostics: WorkerDiagnosticsState,
}

impl WorkerControl {
    pub fn new(connection_id: u32, pending_growth_probe: bool) -> (r: WorkerControl)
        ensures
            r.connection_id == connection_id,
            !r.stop_requested,
            r.transferred_bytes == 0,
            r.pending_growth_probe == pending_growth_probe,
            r.diagnostics.connection_id == connection_id,
            r.diagnostics.state == WorkerState::Connecting,
            r.diagnostics.speed_bits == 0,
            r.diagnostics.range is None,
            r.diagnostics.detail is None,
    {
        WorkerControl {
            connection_id,
            stop_requested: false,
            transferred_bytes: 0,
            pending_growth_probe,
            diagnostics: WorkerDiagnosticsState::new(connection_id),
        }
    }
}

} // verus!
