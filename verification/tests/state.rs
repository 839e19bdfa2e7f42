use game_loop::state::{update, AppState, StateCell};

#[test]
fn default_state_is_all_clear() {
    let state = AppState::default();
    assert_eq!(state.tick_counter, 0);
    assert!(!state.shutdown_requested);
    assert_eq!(state.cross_thread_value, 0);
}

#[test]
fn five_updates_from_zero_give_five() {
    let mut state = AppState::default();
    for expected in 1..=5u64 {
        state = update(&state);
        assert_eq!(state.tick_counter, expected);
    }
    assert_eq!(state.tick_counter, 5);
}

#[test]
fn update_wraps_to_zero_after_the_largest_count() {
    let state = AppState { cross_thread_value: 9, shutdown_requested: false, tick_counter: u64::MAX };
    let next = update(&state);
    assert_eq!(next.tick_counter, 0);
    assert_eq!(next.cross_thread_value, 9);
}

#[test]
fn update_just_below_the_largest_count_does_not_wrap() {
    let state =
        AppState { cross_thread_value: 0, shutdown_requested: false, tick_counter: u64::MAX - 1 };
    assert_eq!(update(&state).tick_counter, u64::MAX);
}

#[test]
fn update_carries_the_mirror_and_clears_the_flag() {
    let state = AppState { cross_thread_value: 41, shutdown_requested: true, tick_counter: 7 };
    let next = update(&state);
    assert_eq!(next, AppState { cross_thread_value: 41, shutdown_requested: false, tick_counter: 8 });
}

#[test]
fn cell_reads_back_what_it_was_made_with() {
    let initial = AppState { cross_thread_value: 3, shutdown_requested: false, tick_counter: 4 };
    let cell = StateCell::new(initial);
    assert_eq!(cell.read(), initial);
}

#[test]
fn write_replaces_the_snapshot_whole() {
    let mut cell = StateCell::new(AppState::default());
    let next = AppState { cross_thread_value: 10, shutdown_requested: false, tick_counter: 20 };
    cell.write(next);
    assert_eq!(cell.read(), next);
}

#[test]
fn write_may_set_the_flag() {
    let mut cell = StateCell::new(AppState::default());
    cell.write(AppState { cross_thread_value: 1, shutdown_requested: true, tick_counter: 2 });
    assert!(cell.read().shutdown_requested);
}

#[test]
fn write_cannot_clear_the_flag() {
    let mut cell = StateCell::new(AppState::default());
    assert!(cell.request_shutdown());
    cell.write(AppState { cross_thread_value: 5, shutdown_requested: false, tick_counter: 6 });
    assert_eq!(
        cell.read(),
        AppState { cross_thread_value: 5, shutdown_requested: true, tick_counter: 6 }
    );
}

#[test]
fn request_shutdown_sets_only_the_flag_and_reports_the_first_call() {
    let mut cell =
        StateCell::new(AppState { cross_thread_value: 8, shutdown_requested: false, tick_counter: 9 });
    assert!(cell.request_shutdown());
    assert_eq!(
        cell.read(),
        AppState { cross_thread_value: 8, shutdown_requested: true, tick_counter: 9 }
    );
    assert!(!cell.request_shutdown());
    assert!(cell.read().shutdown_requested);
}
