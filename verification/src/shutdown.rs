//! Cooperative shutdown: the main thread asks once, then waits for the
//! simulation loop to see the request and end.

use crate::simulation::SimulationLoop;
use crate::state::StateCell;
use vstd::prelude::*;

verus! {

/// Stage of the shutdown protocol. The stages are passed in this order, and
/// none is entered twice.
#[derive(Clone, Copy, Debug, PartialEq, Eq, Structural)]
pub enum Lifecycle {
    Running,
    ShutdownRequested,
    Terminated,
}

/// Place of a stage in the protocol's order.
pub open spec fn rank(stage: Lifecycle) -> nat {
    match stage {
        Lifecycle::Running => 0,
        Lifecycle::ShutdownRequested => 1,
        Lifecycle::Terminated => 2,
    }
}

/// The stage after an intent to quit was seen.
pub open spec fn after_quit_intent(stage: Lifecycle) -> Lifecycle {
    match stage {
        Lifecycle::Running => Lifecycle::ShutdownRequested,
        _ => stage,
    }
}

/// The stage after the simulation thread was joined, given whether its loop
/// had ended.
pub open spec fn after_join(stage: Lifecycle, loop_ended: bool) -> Lifecycle {
    match stage {
        Lifecycle::ShutdownRequested => if loop_ended {
            Lifecycle::Terminated
        } else {
            stage
        },
        _ => stage,
    }
}

/// Something that happens to the coordinator.
#[derive(Clone, Copy, Debug, PartialEq, Eq, Structural)]
pub enum CoordinatorEvent {
    /// The input loop saw an intent to quit.
    QuitIntent,
    /// The simulation thread was joined; the flag says whether its loop had
    /// ended.
    Joined(bool),
}

/// The stage after `event`.
pub open spec fn next_stage(stage: Lifecycle, event: CoordinatorEvent) -> Lifecycle {
    match event {
        CoordinatorEvent::QuitIntent => after_quit_intent(stage),
        CoordinatorEvent::Joined(loop_ended) => after_join(stage, loop_ended),
    }
}

/// The stage after `events`, taken first to last.
pub open spec fn stage_after(stage: Lifecycle, events: Seq<CoordinatorEvent>) -> Lifecycle
    decreases events.len(),
{
    if events.len() == 0 {
        stage
    } else {
        next_stage(stage_after(stage, events.drop_last()), events.last())
    }
}

/// How often `events` take the protocol from running to shutdown requested.
pub open spec fn requests_made(stage: Lifecycle, events: Seq<CoordinatorEvent>) -> nat
    decreases events.len(),
{
    if events.len() == 0 {
        0
    } else {
        let before = stage_after(stage, events.drop_last());
        requests_made(stage, events.drop_last()) + if before is Running && next_stage(
            before,
            events.last(),
        ) is ShutdownRequested {
            1nat
        } else {
            0nat
        }
    }
}

/// The main thread's side of the shutdown protocol.
#[derive(Debug)]
pub struct ShutdownCoordinator {
    stage: Lifecycle,
}

impl View for ShutdownCoordinator {
    type V = Lifecycle;

    closed spec fn view(&self) -> Lifecycle {
        self.stage
    }
}

impl ShutdownCoordinator {
    /// A coordinator of a running system.
    pub fn new() -> (coordinator: ShutdownCoordinator)
        ensures
            coordinator@ == Lifecycle::Running,
    {
        ShutdownCoordinator { stage: Lifecycle::Running }
    }

    /// The current stage.
    pub fn stage(&self) -> (stage: Lifecycle)
        ensures
            stage == self@,
    {
        self.stage
    }

    /// Acts on an intent to quit, for a caller that holds the cell for
    /// writing. In a running system the shutdown flag is set and the caller
    /// is told to join the simulation thread; at any later stage nothing
    /// happens.
    pub fn request(&mut self, cell: &mut StateCell) -> (join: bool)
        ensures
            final(self)@ == after_quit_intent(old(self)@),
            join == (old(self)@ is Running),
            join ==> final(cell)@ == old(cell)@.shut_down(),
            !join ==> final(cell)@ == old(cell)@,
    {
        match self.stage {
            Lifecycle::Running => {
                cell.request_shutdown();
                self.stage = Lifecycle::ShutdownRequested;
                true
            },
            _ => false,
        }
    }

    /// Records that the simulation thread was joined and handed back its
    /// loop. The protocol is over if shutdown had been requested and the loop
    /// has ended. Returns whether it is over.
    pub fn joined(&mut self, sim: &SimulationLoop) -> (done: bool)
        ensures
            final(self)@ == after_join(old(self)@, sim@ is Terminated),
            done == (final(self)@ is Terminated),
    {
        match self.stage {
            Lifecycle::ShutdownRequested => {
                match sim.phase() {
                    crate::simulation::LoopPhase::Terminated => {
                        self.stage = Lifecycle::Terminated;
                        true
                    },
                    _ => false,
                }
            },
            Lifecycle::Terminated => true,
            Lifecycle::Running => false,
        }
    }
}

/// The protocol never goes back, and shutdown is requested at most once:
/// whatever happens, the stage only moves forward, and at most one event takes
/// the system from running to shutdown requested.
pub proof fn lemma_shutdown_is_one_way(stage: Lifecycle, events: Seq<CoordinatorEvent>)
    ensures
        rank(stage_after(stage, events)) >= rank(stage),
        requests_made(stage, events) <= 1,
        requests_made(stage, events) == 1 ==> stage is Running && !(stage_after(stage, events) is Running),
        !(stage is Running) ==> requests_made(stage, events) == 0,
        stage_after(stage, events) is Running ==> requests_made(stage, events) == 0,
    decreases events.len(),
{
    if events.len() > 0 {
        lemma_shutdown_is_one_way(stage, events.drop_last());
    }
}

} // verus!
