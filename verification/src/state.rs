//! The application snapshot and the rule that derives its successor.

use vstd::prelude::*;

verus! {

/// One complete, immutable snapshot of the simulation.
#[derive(Clone, Copy, Debug, PartialEq, Eq, Structural)]
pub struct AppState {
    /// Value of the shared counter as seen by the tick that made this snapshot.
    pub cross_thread_value: u64,
    /// Set once shutdown has been asked for.
    pub shutdown_requested: bool,
    /// Number of ticks so far, modulo 2^64.
    pub tick_counter: u64,
}

/// The tick count that follows `t`: one more, wrapping to zero after `u64::MAX`.
pub open spec fn next_tick(t: u64) -> u64 {
    if t == u64::MAX {
        0
    } else {
        (t + 1) as u64
    }
}

/// `next` as it lands in a cell that holds `current`: it replaces `current`
/// whole, but for the shutdown flag, which stays set once it is set.
pub open spec fn committed(current: AppState, next: AppState) -> AppState {
    AppState {
        cross_thread_value: next.cross_thread_value,
        shutdown_requested: current.shutdown_requested || next.shutdown_requested,
        tick_counter: next.tick_counter,
    }
}

impl AppState {
    /// `self` with the shutdown flag set.
    pub open spec fn shut_down(self) -> AppState {
        AppState {
            cross_thread_value: self.cross_thread_value,
            shutdown_requested: true,
            tick_counter: self.tick_counter,
        }
    }

    /// `self` with `value` as the mirror of the shared counter.
    pub open spec fn mirroring(self, value: u64) -> AppState {
        AppState {
            cross_thread_value: value,
            shutdown_requested: self.shutdown_requested,
            tick_counter: self.tick_counter,
        }
    }

    /// The snapshot that `update` derives from `self`.
    pub open spec fn updated(self) -> AppState {
        AppState {
            cross_thread_value: self.cross_thread_value,
            shutdown_requested: false,
            tick_counter: next_tick(self.tick_counter),
        }
    }
}

impl Default for AppState {
    fn default() -> (state: AppState)
        ensures
            state == (AppState { cross_thread_value: 0, shutdown_requested: false, tick_counter: 0 }),
    {
        AppState { cross_thread_value: 0, shutdown_requested: false, tick_counter: 0 }
    }
}

/// Derives the successor of `state`: the tick counter advances by one modulo
/// 2^64, the counter mirror is carried over, and the shutdown flag is clear.
pub fn update(state: &AppState) -> (next: AppState)
    ensures
        next == state.updated(),
        next.tick_counter as int == (state.tick_counter as int + 1) % 0x1_0000_0000_0000_0000,
        next.tick_counter != state.tick_counter,
{
    AppState {
        cross_thread_value: state.cross_thread_value,
        shutdown_requested: false,
        tick_counter: state.tick_counter.wrapping_add(1),
    }
}

/// Holder of the current snapshot. Exactly one snapshot is current at any
/// time; it is read whole and replaced whole.
#[derive(Debug)]
pub struct StateCell {
    current: AppState,
}

impl View for StateCell {
    type V = AppState;

    closed spec fn view(&self) -> AppState {
        self.current
    }
}

impl StateCell {
    /// A cell that holds `initial`.
    pub fn new(initial: AppState) -> (cell: StateCell)
        ensures
            cell@ == initial,
    {
        StateCell { current: initial }
    }

    /// The current snapshot.
    pub fn read(&self) -> (snapshot: AppState)
        ensures
            snapshot == self@,
    {
        self.current
    }

    /// Makes `new_state` the current snapshot. A shutdown flag that the cell
    /// already holds is kept, so that a writer who derived `new_state` from an
    /// earlier read cannot undo a request for shutdown made since.
    pub fn write(&mut self, new_state: AppState)
        ensures
            final(self)@ == committed(old(self)@, new_state),
    {
        let keep: bool = self.current.shutdown_requested || new_state.shutdown_requested;
        self.current = AppState {
            cross_thread_value: new_state.cross_thread_value,
            shutdown_requested: keep,
            tick_counter: new_state.tick_counter,
        };
    }

    /// Sets the shutdown flag on the current snapshot and says whether this
    /// call is the one that set it.
    pub fn request_shutdown(&mut self) -> (first: bool)
        ensures
            final(self)@ == old(self)@.shut_down(),
            first == !old(self)@.shutdown_requested,
    {
        let first: bool = !self.current.shutdown_requested;
        self.current = AppState {
            cross_thread_value: self.current.cross_thread_value,
            shutdown_requested: true,
            tick_counter: self.current.tick_counter,
        };
        first
    }
}

} // verus!
