//! Ordered, append-only registries of keyboard callbacks.
//!
//! A callback does not reach for shared state on its own: the state it may
//! change is handed to it, and the callback says which changes it may make.
//! A dispatch is then a chain of such changes, one per callback, in
//! registration order: each callback finds the state that the one before left.

use crate::counter::{applied, stepped, CounterOp, SharedCounter};
use vstd::prelude::*;

verus! {

/// What one key press or release carried. Built once per dispatch and passed
/// by value to every callback.
#[derive(Clone, Copy, Debug, PartialEq, Eq, Structural)]
pub struct KeyEventInfo {
    pub timestamp: u32,
    pub window_id: u32,
    /// Virtual key code, where the backend knew one.
    pub keycode: Option<i32>,
    /// Hardware scan code, where the backend knew one.
    pub scancode: Option<i32>,
    /// Bit set of the modifier keys held.
    pub keymod: u16,
    /// Whether the event is a key repeat.
    pub repeat: bool,
}

/// Something that can be invoked with a key event.
pub trait KeyCallback {
    /// The state that the callback may change.
    type State;

    /// Whether `call`, on `event`, may turn the state `before` into `after`.
    /// A callback that says nothing of itself may do anything.
    open spec fn permits(&self, event: KeyEventInfo, before: Self::State, after: Self::State) -> bool {
        true
    }

    /// Handles one event.
    fn call(&self, event: KeyEventInfo, state: &mut Self::State)
        ensures
            self.permits(event, *old(state), *final(state)),
    ;
}

/// Whether `trace` lists the states of one dispatch of `event`: the state
/// that each callback of `handlers` found, first to last, and then the state
/// that the last one left.
pub open spec fn is_trace<H: KeyCallback>(
    handlers: Seq<H>,
    event: KeyEventInfo,
    trace: Seq<H::State>,
) -> bool {
    &&& trace.len() == handlers.len() + 1
    &&& forall|i: int|
        0 <= i < handlers.len() ==> (#[trigger] handlers[i]).permits(event, trace[i], trace[i + 1])
}

/// Whether the callbacks of `handlers`, each handling `event` once, first to
/// last, may turn the state `start` into `end`.
pub open spec fn dispatched<H: KeyCallback>(
    handlers: Seq<H>,
    event: KeyEventInfo,
    start: H::State,
    end: H::State,
) -> bool {
    exists|trace: Seq<H::State>|
        #![trigger is_trace(handlers, event, trace)]
        is_trace(handlers, event, trace) && trace.first() == start && trace.last() == end
}

/// The callbacks of each event kind, in registration order.
pub struct HandlerFns<H> {
    pub keydowns: Vec<H>,
    pub keyups: Vec<H>,
}

impl<H> Default for HandlerFns<H> {
    fn default() -> (fns: Self)
        ensures
            fns.keydowns@ == Seq::<H>::empty(),
            fns.keyups@ == Seq::<H>::empty(),
    {
        Self { keydowns: Vec::new(), keyups: Vec::new() }
    }
}

/// Registry of key-down and key-up callbacks.
pub struct EventHandler<H> {
    inner_handlers: HandlerFns<H>,
}

impl<H> Default for EventHandler<H> {
    fn default() -> (handler: Self)
        ensures
            handler.keydowns() == Seq::<H>::empty(),
            handler.keyups() == Seq::<H>::empty(),
    {
        EventHandler { inner_handlers: HandlerFns::default() }
    }
}

impl<H> EventHandler<H> {
    /// The key-down callbacks, in registration order.
    pub closed spec fn keydowns(&self) -> Seq<H> {
        self.inner_handlers.keydowns@
    }

    /// The key-up callbacks, in registration order.
    pub closed spec fn keyups(&self) -> Seq<H> {
        self.inner_handlers.keyups@
    }

    /// A registry with no callbacks.
    pub fn new() -> (handler: Self)
        ensures
            handler.keydowns() == Seq::<H>::empty(),
            handler.keyups() == Seq::<H>::empty(),
    {
        Self::default()
    }

    /// Appends a key-up callback.
    pub fn register_handler_keyup(&mut self, callback: H)
        ensures
            final(self).keyups() == old(self).keyups().push(callback),
            final(self).keydowns() == old(self).keydowns(),
    {
        self.inner_handlers.keyups.push(callback);
    }

    /// Appends a key-down callback.
    pub fn register_handler_keydown(&mut self, callback: H)
        ensures
            final(self).keydowns() == old(self).keydowns().push(callback),
            final(self).keyups() == old(self).keyups(),
    {
        self.inner_handlers.keydowns.push(callback);
    }
}

/// Invokes every callback of `handlers` with `event`, first to last.
fn run_callbacks<H: KeyCallback>(handlers: &Vec<H>, event: KeyEventInfo, state: &mut H::State)
    ensures
        dispatched(handlers@, event, *old(state), *final(state)),
{
    let ghost mut trace: Seq<H::State> = seq![*state];
    let mut i: usize = 0;
    while i < handlers.len()
        invariant
            i <= handlers.len(),
            is_trace(handlers@.take(i as int), event, trace),
            trace.first() == *old(state),
            trace.last() == *state,
        decreases handlers.len() - i,
    {
        handlers[i].call(event, state);
        proof {
            trace = trace.push(*state);
        }
        i += 1;
    }
    proof {
        assert(handlers@.take(i as int) == handlers@);
    }
}

impl<H: KeyCallback> EventHandler<H> {
    /// Dispatches a key press: every key-down callback handles the event, in
    /// registration order.
    pub fn handle_key_down(
        &self,
        timestamp: u32,
        window_id: u32,
        keycode: Option<i32>,
        scancode: Option<i32>,
        keymod: u16,
        repeat: bool,
        state: &mut H::State,
    )
        ensures
            dispatched(
                self.keydowns(),
                (KeyEventInfo { timestamp, window_id, keycode, scancode, keymod, repeat }),
                *old(state),
                *final(state),
            ),
    {
        let event = KeyEventInfo { timestamp, window_id, keycode, scancode, keymod, repeat };
        run_callbacks(&self.inner_handlers.keydowns, event, state);
    }

    /// Dispatches a key release: every key-up callback handles the event, in
    /// registration order.
    pub fn handle_key_up(
        &self,
        timestamp: u32,
        window_id: u32,
        keycode: Option<i32>,
        scancode: Option<i32>,
        keymod: u16,
        repeat: bool,
        state: &mut H::State,
    )
        ensures
            dispatched(
                self.keyups(),
                (KeyEventInfo { timestamp, window_id, keycode, scancode, keymod, repeat }),
                *old(state),
                *final(state),
            ),
    {
        let event = KeyEventInfo { timestamp, window_id, keycode, scancode, keymod, repeat };
        run_callbacks(&self.inner_handlers.keyups, event, state);
    }
}

/// A callback that moves a `SharedCounter` by one step, and ignores key
/// repeats.
#[derive(Clone, Copy, Debug, PartialEq, Eq, Structural)]
pub struct CounterCallback {
    pub op: CounterOp,
}

/// The counter value that a `CounterCallback` with `op` leaves.
pub open spec fn counted(op: CounterOp, event: KeyEventInfo, value: u64) -> u64 {
    if event.repeat {
        value
    } else {
        stepped(value, op)
    }
}

impl KeyCallback for CounterCallback {
    type State = SharedCounter;

    open spec fn permits(&self, event: KeyEventInfo, before: SharedCounter, after: SharedCounter) -> bool {
        after@ == counted(self.op, event, before@)
    }

    fn call(&self, event: KeyEventInfo, state: &mut SharedCounter) {
        if event.repeat {
            return ;
        }
        state.apply(self.op);
    }
}

/// Registers the two counting callbacks: a key press moves the counter up, a
/// key release moves it down.
pub fn init_event_handler(handler: &mut EventHandler<CounterCallback>)
    ensures
        final(handler).keydowns() == old(handler).keydowns().push(
            CounterCallback { op: CounterOp::Increment },
        ),
        final(handler).keyups() == old(handler).keyups().push(
            CounterCallback { op: CounterOp::Decrement },
        ),
{
    handler.register_handler_keydown(CounterCallback { op: CounterOp::Increment });
    handler.register_handler_keyup(CounterCallback { op: CounterOp::Decrement });
}

/// The steps that the callbacks of `handlers` make, in registration order.
pub open spec fn ops_of(handlers: Seq<CounterCallback>) -> Seq<CounterOp> {
    Seq::new(handlers.len(), |i: int| handlers[i].op)
}

/// A dispatch to no callback changes nothing.
pub proof fn lemma_dispatch_empty<H: KeyCallback>(event: KeyEventInfo, start: H::State, end: H::State)
    ensures
        dispatched(Seq::<H>::empty(), event, start, end) <==> end == start,
{
    if end == start {
        assert(is_trace(Seq::<H>::empty(), event, seq![start]));
    }
}

/// A callback registered last is invoked last: a dispatch to `handlers` with
/// `last` appended is a dispatch to `handlers` followed by one call of `last`
/// on the state that they left.
pub proof fn lemma_dispatch_push<H: KeyCallback>(
    handlers: Seq<H>,
    last: H,
    event: KeyEventInfo,
    start: H::State,
    end: H::State,
)
    ensures
        dispatched(handlers.push(last), event, start, end) <==> exists|mid: H::State|
            #![trigger dispatched(handlers, event, start, mid)]
            dispatched(handlers, event, start, mid) && last.permits(event, mid, end),
{
    let longer = handlers.push(last);
    if dispatched(longer, event, start, end) {
        let trace = choose|trace: Seq<H::State>|
            #![trigger is_trace(longer, event, trace)]
            is_trace(longer, event, trace) && trace.first() == start && trace.last() == end;
        let shorter = trace.drop_last();
        assert forall|i: int| 0 <= i < handlers.len() implies (#[trigger] handlers[i]).permits(
            event,
            shorter[i],
            shorter[i + 1],
        ) by {
            assert(longer[i] == handlers[i]);
        }
        assert(is_trace(handlers, event, shorter));
        assert(longer[handlers.len() as int] == last);
        assert(dispatched(handlers, event, start, shorter.last()));
    }
    if exists|mid: H::State|
        #![trigger dispatched(handlers, event, start, mid)]
        dispatched(handlers, event, start, mid) && last.permits(event, mid, end) {
        let mid = choose|mid: H::State|
            #![trigger dispatched(handlers, event, start, mid)]
            dispatched(handlers, event, start, mid) && last.permits(event, mid, end);
        let shorter = choose|trace: Seq<H::State>|
            #![trigger is_trace(handlers, event, trace)]
            is_trace(handlers, event, trace) && trace.first() == start && trace.last() == mid;
        let trace = shorter.push(end);
        assert forall|i: int| 0 <= i < longer.len() implies (#[trigger] longer[i]).permits(
            event,
            trace[i],
            trace[i + 1],
        ) by {
            if i < handlers.len() {
                assert(longer[i] == handlers[i]);
            }
        }
        assert(is_trace(longer, event, trace));
    }
}

/// Callbacks registered in the order `a`, `b`, `c` are invoked in exactly
/// that order: `a` on the state at the start, `b` on what `a` left, `c` on what
/// `b` left.
pub proof fn lemma_dispatch_in_registration_order<H: KeyCallback>(
    a: H,
    b: H,
    c: H,
    event: KeyEventInfo,
    start: H::State,
    end: H::State,
)
    ensures
        dispatched(seq![a, b, c], event, start, end) <==> exists|after_a: H::State, after_b: H::State|
            #![trigger a.permits(event, start, after_a), b.permits(event, after_a, after_b)]
            a.permits(event, start, after_a) && b.permits(event, after_a, after_b) && c.permits(
                event,
                after_b,
                end,
            ),
{
    let handlers = seq![a, b, c];
    if dispatched(handlers, event, start, end) {
        let trace = choose|trace: Seq<H::State>|
            #![trigger is_trace(handlers, event, trace)]
            is_trace(handlers, event, trace) && trace.first() == start && trace.last() == end;
        assert(handlers[0].permits(event, trace[0], trace[1]));
        assert(handlers[1].permits(event, trace[1], trace[2]));
        assert(handlers[2].permits(event, trace[2], trace[3]));
        assert(a.permits(event, start, trace[1]) && b.permits(event, trace[1], trace[2]));
    }
    if exists|after_a: H::State, after_b: H::State|
        #![trigger a.permits(event, start, after_a), b.permits(event, after_a, after_b)]
        a.permits(event, start, after_a) && b.permits(event, after_a, after_b) && c.permits(
            event,
            after_b,
            end,
        ) {
        let (after_a, after_b) = choose|after_a: H::State, after_b: H::State|
            #![trigger a.permits(event, start, after_a), b.permits(event, after_a, after_b)]
            a.permits(event, start, after_a) && b.permits(event, after_a, after_b) && c.permits(
                event,
                after_b,
                end,
            );
        let trace = seq![start, after_a, after_b, end];
        assert(is_trace(handlers, event, trace));
    }
}

/// In a dispatch to counting callbacks, the counter after the first `k` of
/// them is the counter at the start moved by their steps, or unmoved where the
/// event is a repeat.
proof fn lemma_counting_trace(
    handlers: Seq<CounterCallback>,
    event: KeyEventInfo,
    trace: Seq<SharedCounter>,
    k: int,
)
    requires
        is_trace(handlers, event, trace),
        0 <= k <= handlers.len(),
    ensures
        event.repeat ==> trace[k]@ == trace[0]@,
        !event.repeat ==> trace[k]@ == applied(trace[0]@, ops_of(handlers.take(k))),
    decreases k,
{
    if k > 0 {
        lemma_counting_trace(handlers, event, trace, k - 1);
        assert(handlers[k - 1].permits(event, trace[k - 1], trace[k - 1 + 1]));
        let ops = ops_of(handlers.take(k));
        assert(ops.drop_last() == ops_of(handlers.take(k - 1)));
        assert(ops.last() == handlers[k - 1].op);
    } else {
        assert(ops_of(handlers.take(0)).len() == 0);
    }
}

/// What a dispatch to counting callbacks does to the counter: a repeat leaves
/// it as it was; any other event moves it by the step of every callback, in
/// registration order.
pub proof fn lemma_counting_dispatch(
    handlers: Seq<CounterCallback>,
    event: KeyEventInfo,
    start: SharedCounter,
    end: SharedCounter,
)
    requires
        dispatched(handlers, event, start, end),
    ensures
        event.repeat ==> end@ == start@,
        !event.repeat ==> end@ == applied(start@, ops_of(handlers)),
{
    let trace = choose|trace: Seq<SharedCounter>|
        #![trigger is_trace(handlers, event, trace)]
        is_trace(handlers, event, trace) && trace.first() == start && trace.last() == end;
    lemma_counting_trace(handlers, event, trace, handlers.len() as int);
    assert(handlers.take(handlers.len() as int) == handlers);
}

} // verus!
