use game_loop::counter::{CounterOp, SharedCounter};

#[test]
fn new_counter_is_zero() {
    assert_eq!(SharedCounter::new().get(), 0);
}

#[test]
fn increments_and_decrements_add_up() {
    let mut counter = SharedCounter::new();
    for _ in 0..7 {
        counter.increment();
    }
    for _ in 0..3 {
        counter.decrement();
    }
    assert_eq!(counter.get(), 4);
}

#[test]
fn interleaving_does_not_change_the_sum() {
    let mut first = SharedCounter::new();
    let mut second = SharedCounter::new();
    first.increment();
    let ops_one = [
        CounterOp::Increment,
        CounterOp::Decrement,
        CounterOp::Increment,
        CounterOp::Increment,
        CounterOp::Decrement,
    ];
    let ops_two = [
        CounterOp::Decrement,
        CounterOp::Decrement,
        CounterOp::Increment,
        CounterOp::Increment,
        CounterOp::Increment,
    ];
    second.increment();
    for op in ops_one {
        first.apply(op);
    }
    for op in ops_two {
        second.apply(op);
    }
    assert_eq!(first.get(), 2);
    assert_eq!(second.get(), 2);
}

#[test]
fn decrement_at_zero_wraps_to_the_largest_value() {
    let mut counter = SharedCounter::new();
    counter.decrement();
    assert_eq!(counter.get(), u64::MAX);
    counter.increment();
    assert_eq!(counter.get(), 0);
}

#[test]
fn apply_takes_one_step_of_its_kind() {
    let mut counter = SharedCounter::new();
    counter.apply(CounterOp::Increment);
    counter.apply(CounterOp::Increment);
    assert_eq!(counter.get(), 2);
    counter.apply(CounterOp::Decrement);
    assert_eq!(counter.get(), 1);
}

#[test]
fn many_steps_lose_no_update() {
    let mut counter = SharedCounter::new();
    for round in 0..1000u32 {
        counter.increment();
        counter.increment();
        if round % 2 == 0 {
            counter.decrement();
        }
    }
    assert_eq!(counter.get(), 2000 - 500);
}
