//! Starting and ending workers at a heartbeat.

use vstd::prelude::*;
use crate::engine::metrics::SchedulerMetrics;
use crate::engine::runtime::{BudgetView, DownloadEngine};
use crate::engine::scaler::{recovery_counted, HeartbeatPlan, Scaler, WorkerSample};
use crate::engine::transport::scale_counted;
use crate::engine::types::{ProtocolFamily, ScalerAction};
use crate::units::{max_int, min_int};

verus! {

/// What growth depends on besides the scaler's own state.
#[derive(Debug, Clone, Copy, PartialEq, Eq, Structural)]
pub struct GrowthSignals {
    /// How many heartbeats a connection takes to get up to speed.
    pub base_heartbeats: u32,
    /// Whether few connections are used again.
    pub reuse_low: bool,
    /// Whether many connections are used again.
    pub reuse_high: bool,
    /// Whether the last workers that were added brought next to nothing.
    pub flat: bool,
}

/// What was done at a heartbeat.
#[derive(Debug, Clone, Copy, PartialEq, Eq, Structural)]
pub struct Scaled {
    /// How many workers are to be started.
    pub started: usize,
    /// The worker that is to end.
    pub stopped: Option<u32>,
}

/// A worker of that number that has not been told to end.
pub open spec fn still_runs(workers: Seq<WorkerSample>, connection_id: u32) -> bool {
    exists|k: int|
        0 <= k < workers.len() && (#[trigger] workers[k]).connection_id == connection_id && !workers[k].stop_requested
}

fn runs(workers: &Vec<WorkerSample>, connection_id: u32) -> (r: bool)
    ensures
        r == still_runs(workers@, connection_id),
{
    let mut i: usize = 0;
    while i < workers.len()
        invariant
            i <= workers@.len(),
            forall|k: int|
                0 <= k < i ==> (#[trigger] workers@[k]).connection_id != connection_id || workers@[k].stop_requested,
        decreases workers@.len() - i,
    {
        if workers[i].connection_id == connection_id && !workers[i].stop_requested {
            return true;
        }
        i = i + 1;
    }
    false
}

/// The numbers after `n` connections were taken.
pub open spec fn taken(b: BudgetView, n: int) -> BudgetView {
    BudgetView { available: (b.available - n) as usize, ..b }
}

impl DownloadEngine {
    /// Takes up to `n` connections; the result is how many there were.
    pub fn request_connections(&mut self, n: usize) -> (granted: usize)
        ensures
            granted == min_int(n as int, old(self).budget().available as int),
            final(self)@ == old(self)@,
            final(self).budget() == taken(old(self).budget(), granted as int),
            old(self).wf() ==> final(self).wf(),
    {
        let mut granted: usize = 0;
        while granted < n
            invariant
                granted <= n,
                granted <= old(self).budget().available,
                self@ == old(self)@,
                self.budget() == taken(old(self).budget(), granted as int),
                old(self).wf() ==> self.wf(),
            decreases n - granted,
        {
            if !self.request_connection() {
                return granted;
            }
            granted = granted + 1;
        }
        granted
    }

    /// How many connections a download starts with, where so many are
    /// available; none where it is to wait for the first. One that halts does
    /// not wait.
    pub open spec fn first_connections(available: int, desired: int, halted: bool) -> Option<int> {
        if halted {
            Some(min_int(desired, available))
        } else if available == 0 {
            None
        } else {
            Some(max_int(min_int(desired, available), 1))
        }
    }

    /// Takes the first connections of a download, up to `desired`. Where there
    /// is none, the download waits and tries again, unless it halts.
    pub fn gather_connections(&mut self, desired: usize, halted: bool) -> (held: Option<usize>)
        ensures
            match held {
                Some(n) => {
                    &&& Self::first_connections(old(self).budget().available as int, desired as int, halted) == Some(
                        n as int,
                    )
                    &&& final(self).budget() == taken(old(self).budget(), n as int)
                },
                None => {
                    &&& Self::first_connections(old(self).budget().available as int, desired as int, halted) is None
                    &&& final(self).budget() == old(self).budget()
                },
            },
            final(self)@ == old(self)@,
            old(self).wf() ==> final(self).wf(),
    {
        let mut held: usize = 0;
        if !halted {
            if !self.request_connection() {
                return None;
            }
            held = 1;
        }
        if held < desired {
            held = held + self.request_connections(desired - held);
        }
        Some(held)
    }
}

impl Scaler {
    /// The heartbeats that are waited after growth.
    pub open spec fn waits(self, protocol: ProtocolFamily, is_stream_add: bool, g: GrowthSignals) -> u32 {
        self.slow_start(g.base_heartbeats as int, protocol, is_stream_add, g.reuse_low, g.reuse_high) as u32
    }

    /// The scaler after a plan was carried out with `granted` connections.
    pub open spec fn carried_out(
        self,
        plan: HeartbeatPlan,
        workers: Seq<WorkerSample>,
        granted: int,
        protocol: ProtocolFamily,
        g: GrowthSignals,
    ) -> Scaler {
        match plan {
            HeartbeatPlan::Wait | HeartbeatPlan::Hold => self,
            HeartbeatPlan::Recover(_) => if granted > 0 {
                Scaler {
                    n_active: granted as usize,
                    last_action: ScalerAction::Grow,
                    slow_start_remaining: self.waits(protocol, false, g),
                    ..self
                }
            } else {
                self
            },
            HeartbeatPlan::Drop(id) => if still_runs(workers, id) {
                Scaler { n_active: (self.n_active - 1) as usize, last_action: ScalerAction::Shrink, ..self }
            } else {
                self
            },
            HeartbeatPlan::Add => if granted > 0 {
                let stream = self.adds_stream(protocol, g.reuse_high);
                self.grown(stream, g.flat, self.waits(protocol, stream, g))
            } else {
                self
            },
        }
    }

    /// The counters after a plan was carried out with `granted` connections.
    pub open spec fn counted_out(
        self,
        m: SchedulerMetrics,
        plan: HeartbeatPlan,
        workers: Seq<WorkerSample>,
        granted: int,
        protocol: ProtocolFamily,
        g: GrowthSignals,
    ) -> SchedulerMetrics {
        match plan {
            HeartbeatPlan::Wait | HeartbeatPlan::Hold => m,
            HeartbeatPlan::Recover(_) => if granted > 0 {
                recovery_counted(m, protocol, granted)
            } else {
                m
            },
            HeartbeatPlan::Drop(id) => if still_runs(workers, id) {
                scale_counted(m, protocol, ScalerAction::Shrink, false)
            } else {
                m
            },
            HeartbeatPlan::Add => if granted > 0 {
                self.add_counted(m, protocol, self.adds_stream(protocol, g.reuse_high), g.flat)
            } else {
                m
            },
        }
    }

    /// Carries out what was decided at a heartbeat: connections are taken for
    /// the workers that start, as far as there are any, and one is given back
    /// for a worker that is to end. `leased` is how many the download holds.
    pub fn carry_out(
        &mut self,
        plan: HeartbeatPlan,
        workers: &Vec<WorkerSample>,
        engine: &mut DownloadEngine,
        leased: &mut usize,
        protocol: ProtocolFamily,
        g: GrowthSignals,
        metrics: &mut SchedulerMetrics,
    ) -> (r: Scaled)
        requires
            plan is Drop ==> old(self).n_active > 0,
            plan is Add ==> old(self).n_active < usize::MAX && old(self).h2_stream_count < usize::MAX,
            *old(leased) + old(engine).budget().available <= usize::MAX,
        ensures
            r.started == wanted(plan, old(engine).budget().available as int),
            r.stopped == match plan {
                HeartbeatPlan::Drop(id) => if still_runs(workers@, id) {
                    Some(id)
                } else {
                    None
                },
                _ => None,
            },
            *final(self) == old(self).carried_out(plan, workers@, r.started as int, protocol, g),
            *final(metrics) == old(self).counted_out(
                *old(metrics),
                plan,
                workers@,
                r.started as int,
                protocol,
                g,
            ),
            final(engine)@ == old(engine)@,
            final(engine).budget() == budget_after(old(engine).budget(), plan, workers@),
            old(engine).wf() ==> final(engine).wf(),
            *final(leased) == leased_after(*old(leased) as int, old(engine).budget(), plan, workers@),
    {
        match plan {
            HeartbeatPlan::Wait | HeartbeatPlan::Hold => Scaled { started: 0, stopped: None },
            HeartbeatPlan::Recover(target) => {
                let granted: usize = engine.request_connections(target);
                let waits: u32 =
                    self.compute_slow_start_heartbeats(g.base_heartbeats, protocol, false, g.reuse_low, g.reuse_high);
                self.record_recovery(granted, protocol, waits, metrics);
                *leased = *leased + granted;
                Scaled { started: granted, stopped: None }
            },
            HeartbeatPlan::Drop(id) => {
                if !runs(workers, id) {
                    return Scaled { started: 0, stopped: None };
                }
                self.record_drop(protocol, metrics);
                engine.release_connection();
                if *leased > 0 {
                    *leased = *leased - 1;
                }
                Scaled { started: 0, stopped: Some(id) }
            },
            HeartbeatPlan::Add => {
                let granted: usize = engine.request_connections(1);
                if granted > 0 {
                    let stream: bool = self.is_stream_add(protocol, g.reuse_high);
                    let waits: u32 = self.compute_slow_start_heartbeats(
                        g.base_heartbeats,
                        protocol,
                        stream,
                        g.reuse_low,
                        g.reuse_high,
                    );
                    self.record_add(protocol, stream, g.flat, waits, metrics);
                    *leased = *leased + 1;
                }
                Scaled { started: granted, stopped: None }
            },
        }
    }
}

/// How many workers a plan starts, with so many connections available.
pub open spec fn wanted(plan: HeartbeatPlan, available: int) -> int {
    match plan {
        HeartbeatPlan::Recover(target) => min_int(target as int, available),
        HeartbeatPlan::Add => min_int(1, available),
        _ => 0,
    }
}

/// Whether a plan ends a worker.
pub open spec fn ends(plan: HeartbeatPlan, workers: Seq<WorkerSample>) -> bool {
    plan matches HeartbeatPlan::Drop(id) && still_runs(workers, id)
}

/// The numbers after a plan was carried out.
pub open spec fn budget_after(b: BudgetView, plan: HeartbeatPlan, workers: Seq<WorkerSample>) -> BudgetView {
    if ends(plan, workers) {
        DownloadEngine::returned(b)
    } else {
        taken(b, wanted(plan, b.available as int))
    }
}

/// The connections that a download holds after a plan was carried out.
pub open spec fn leased_after(leased: int, b: BudgetView, plan: HeartbeatPlan, workers: Seq<WorkerSample>) -> int {
    if ends(plan, workers) {
        max_int(leased - 1, 0)
    } else {
        leased + wanted(plan, b.available as int)
    }
}

/// Scaling neither makes connections nor loses any: what a download holds and
/// what is left for the others come to the same before and after. Where the
/// budget was lowered meanwhile, what is given back beyond it is not kept.
pub proof fn law_scaling_keeps_leases(b: BudgetView, leased: int, plan: HeartbeatPlan, workers: Seq<WorkerSample>)
    requires
        0 <= leased,
        ends(plan, workers) ==> 0 < leased,
        leased + b.available <= b.effective,
    ensures
        leased_after(leased, b, plan, workers) + budget_after(b, plan, workers).available == leased + b.available,
        budget_after(b, plan, workers).effective == b.effective,
{
}

} // verus!
