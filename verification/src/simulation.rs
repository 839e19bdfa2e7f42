//! The simulation loop, one step at a time, and what holds of every way its
//! steps can interleave with a request for shutdown.
//!
//! The loop alternates two steps. `observe` looks at the current snapshot and
//! either ends the loop, where shutdown was asked for, or derives the
//! successor. `commit` writes that successor, with the shared counter's value
//! folded in. Between the two the cell is free, so a request for shutdown can
//! land there; the commit keeps it, and the next `observe` ends the loop.

use crate::state::{committed, next_tick, update, AppState, StateCell};
use vstd::prelude::*;

verus! {

/// Where the simulation loop stands.
#[derive(Clone, Copy, Debug, PartialEq, Eq, Structural)]
pub enum LoopPhase {
    /// Between ticks: the next step looks at the cell.
    Waiting,
    /// A successor is derived and waits to be committed.
    Derived(AppState),
    /// The loop saw the shutdown flag and ended. There is no way back.
    Terminated,
}

/// The phase after `observe`, which found `cell` in the cell.
pub open spec fn observed(phase: LoopPhase, cell: AppState) -> LoopPhase {
    match phase {
        LoopPhase::Waiting => if cell.shutdown_requested {
            LoopPhase::Terminated
        } else {
            LoopPhase::Derived(cell.updated())
        },
        _ => phase,
    }
}

/// The snapshot in the cell after `commit`, which found `cell` there and read
/// `counter` from the shared counter.
pub open spec fn commit_result(phase: LoopPhase, cell: AppState, counter: u64) -> AppState {
    match phase {
        LoopPhase::Derived(next) => committed(cell, next.mirroring(counter)),
        _ => cell,
    }
}

/// The phase after `commit`.
pub open spec fn after_commit(phase: LoopPhase) -> LoopPhase {
    match phase {
        LoopPhase::Derived(_) => LoopPhase::Waiting,
        _ => phase,
    }
}

/// The simulation thread's own state: its place in the loop.
#[derive(Debug)]
pub struct SimulationLoop {
    phase: LoopPhase,
}

impl View for SimulationLoop {
    type V = LoopPhase;

    closed spec fn view(&self) -> LoopPhase {
        self.phase
    }
}

impl SimulationLoop {
    /// A loop that has not looked at the cell yet.
    pub fn new() -> (sim: SimulationLoop)
        ensures
            sim@ == LoopPhase::Waiting,
    {
        SimulationLoop { phase: LoopPhase::Waiting }
    }

    /// The current phase.
    pub fn phase(&self) -> (phase: LoopPhase)
        ensures
            phase == self@,
    {
        self.phase
    }

    /// First half of a tick, for a caller that holds the cell for reading.
    /// Where the loop is waiting, it ends if the snapshot asks for shutdown and
    /// derives the successor otherwise; in any other phase nothing happens.
    /// Returns whether the loop goes on.
    pub fn observe(&mut self, cell: &StateCell) -> (running: bool)
        ensures
            final(self)@ == observed(old(self)@, cell@),
            running == !(final(self)@ is Terminated),
    {
        match self.phase {
            LoopPhase::Waiting => {
                let current = cell.read();
                if current.shutdown_requested {
                    self.phase = LoopPhase::Terminated;
                    false
                } else {
                    self.phase = LoopPhase::Derived(update(&current));
                    true
                }
            },
            LoopPhase::Derived(_) => true,
            LoopPhase::Terminated => false,
        }
    }

    /// Second half of a tick, for a caller that holds the cell for writing
    /// and has read `counter` from the shared counter. Where a successor is
    /// derived, it is committed with `counter` as its mirror and the loop
    /// waits again; in any other phase nothing happens. Returns whether a
    /// snapshot was committed.
    pub fn commit(&mut self, cell: &mut StateCell, counter: u64) -> (ticked: bool)
        ensures
            final(cell)@ == commit_result(old(self)@, old(cell)@, counter),
            final(self)@ == after_commit(old(self)@),
            ticked == (old(self)@ is Derived),
    {
        match self.phase {
            LoopPhase::Derived(next) => {
                cell.write(
                    AppState {
                        cross_thread_value: counter,
                        shutdown_requested: next.shutdown_requested,
                        tick_counter: next.tick_counter,
                    },
                );
                self.phase = LoopPhase::Waiting;
                true
            },
            _ => false,
        }
    }

    /// One whole tick, for a caller that holds the cell for writing
    /// throughout: `observe`, then `commit`. Returns whether the loop goes on.
    pub fn tick(&mut self, cell: &mut StateCell, counter: u64) -> (running: bool)
        ensures
            final(cell)@ == commit_result(observed(old(self)@, old(cell)@), old(cell)@, counter),
            final(self)@ == after_commit(observed(old(self)@, old(cell)@)),
            running == !(final(self)@ is Terminated),
    {
        let running = self.observe(cell);
        self.commit(cell, counter);
        running
    }
}

/// One step of the running system: the simulation thread moves on, having
/// read the given value from the shared counter, or the coordinator asks for
/// shutdown.
#[derive(Clone, Copy, Debug, PartialEq, Eq, Structural)]
pub enum Step {
    Advance(u64),
    RequestShutdown,
}

/// The cell's snapshot together with the simulation loop's phase.
#[derive(Clone, Copy, Debug, PartialEq, Eq, Structural)]
pub struct System {
    pub cell: AppState,
    pub phase: LoopPhase,
}

/// The system after the simulation thread's next step: `observe` where it
/// waits, `commit` where it holds a successor, nothing once it has ended.
pub open spec fn advanced(sys: System, counter: u64) -> System {
    match sys.phase {
        LoopPhase::Waiting => System { cell: sys.cell, phase: observed(sys.phase, sys.cell) },
        LoopPhase::Derived(_) => System {
            cell: commit_result(sys.phase, sys.cell, counter),
            phase: after_commit(sys.phase),
        },
        LoopPhase::Terminated => sys,
    }
}

/// The system after `step`.
pub open spec fn next_system(sys: System, step: Step) -> System {
    match step {
        Step::Advance(counter) => advanced(sys, counter),
        Step::RequestShutdown => System { cell: sys.cell.shut_down(), phase: sys.phase },
    }
}

/// The system after `steps`, taken first to last.
pub open spec fn run(sys: System, steps: Seq<Step>) -> System
    decreases steps.len(),
{
    if steps.len() == 0 {
        sys
    } else {
        next_system(run(sys, steps.drop_last()), steps.last())
    }
}

/// Whether `step`, taken in `sys`, commits a snapshot.
pub open spec fn is_tick(sys: System, step: Step) -> bool {
    step is Advance && sys.phase is Derived
}

/// How many snapshots the simulation thread commits during `steps`.
pub open spec fn ticks(sys: System, steps: Seq<Step>) -> nat
    decreases steps.len(),
{
    if steps.len() == 0 {
        0
    } else {
        ticks(sys, steps.drop_last()) + if is_tick(run(sys, steps.drop_last()), steps.last()) {
            1nat
        } else {
            0nat
        }
    }
}

/// How many of `steps` are the simulation thread's.
pub open spec fn advances(steps: Seq<Step>) -> nat
    decreases steps.len(),
{
    if steps.len() == 0 {
        0
    } else {
        advances(steps.drop_last()) + if steps.last() is Advance {
            1nat
        } else {
            0nat
        }
    }
}

/// A successor that waits to be committed was derived from the snapshot that
/// the cell holds, whatever has become of the shutdown flag since.
pub open spec fn consistent(sys: System) -> bool {
    sys.phase matches LoopPhase::Derived(next) ==> next == sys.cell.updated()
}

/// Every tick adds exactly one to the tick counter, modulo 2^64: after any
/// steps the counter stands at its start plus the number of snapshots
/// committed. A successor in waiting stays one derived from the cell.
pub proof fn lemma_each_tick_adds_one(sys: System, steps: Seq<Step>)
    requires
        consistent(sys),
    ensures
        consistent(run(sys, steps)),
        run(sys, steps).cell.tick_counter as int == (sys.cell.tick_counter + ticks(sys, steps))
            % 0x1_0000_0000_0000_0000,
    decreases steps.len(),
{
    if steps.len() > 0 {
        lemma_each_tick_adds_one(sys, steps.drop_last());
        let before = run(sys, steps.drop_last());
        if is_tick(before, steps.last()) {
            assert(run(sys, steps).cell.tick_counter == next_tick(before.cell.tick_counter));
        }
    }
}

/// The shutdown flag is monotonic: once set, no step clears it.
pub proof fn lemma_shutdown_flag_is_monotonic(sys: System, steps: Seq<Step>)
    requires
        sys.cell.shutdown_requested,
    ensures
        run(sys, steps).cell.shutdown_requested,
    decreases steps.len(),
{
    if steps.len() > 0 {
        lemma_shutdown_flag_is_monotonic(sys, steps.drop_last());
    }
}

/// A loop that has ended stays ended and commits nothing more.
pub proof fn lemma_terminated_is_final(sys: System, steps: Seq<Step>)
    requires
        sys.phase is Terminated,
    ensures
        run(sys, steps).phase is Terminated,
        ticks(sys, steps) == 0,
    decreases steps.len(),
{
    if steps.len() > 0 {
        lemma_terminated_is_final(sys, steps.drop_last());
    }
}

/// Once shutdown is asked for, the simulation thread commits at most one
/// more snapshot, the one it had already derived, and ends the next time it
/// looks at the cell: a waiting loop ends at its first step and commits
/// nothing; a loop with a successor in hand commits it at its first step and
/// ends at its second.
pub proof fn lemma_shutdown_ends_the_loop(sys: System, steps: Seq<Step>)
    requires
        sys.cell.shutdown_requested,
    ensures
        ticks(sys, steps) <= 1,
        !(sys.phase is Derived) ==> ticks(sys, steps) == 0,
        sys.phase is Derived ==> ticks(sys, steps) == if advances(steps) == 0 {
            0nat
        } else {
            1nat
        },
        advances(steps) >= 2 ==> run(sys, steps).phase is Terminated,
        sys.phase is Waiting && advances(steps) >= 1 ==> run(sys, steps).phase is Terminated,
        sys.phase is Waiting && advances(steps) == 0 ==> run(sys, steps).phase is Waiting,
        sys.phase is Derived && advances(steps) == 1 ==> run(sys, steps).phase is Waiting,
        sys.phase is Derived && advances(steps) == 0 ==> run(sys, steps).phase == sys.phase,
        sys.phase is Terminated ==> run(sys, steps).phase is Terminated,
    decreases steps.len(),
{
    if steps.len() > 0 {
        lemma_shutdown_ends_the_loop(sys, steps.drop_last());
        lemma_shutdown_flag_is_monotonic(sys, steps.drop_last());
    }
}

} // verus!
