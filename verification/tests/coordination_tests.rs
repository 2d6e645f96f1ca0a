use chess_material_studio::coordination::{
    exit_persistence_action, next_generation, response_is_current, validate_screenshot_rgba_buffer,
    ExitPersistenceAction, WindowResizeTracker,
};

#[test]
fn stale_window_resize_resolution_cannot_overwrite_the_latest_resize() {
    let mut tracker: WindowResizeTracker<(u32, u32)> = WindowResizeTracker::new();
    let first = tracker.remember((800, 600));
    let second = tracker.remember((1024, 768));
    assert!(!tracker.accept_resolution(first));
    assert!(tracker.accept_resolution(second));
    assert!(!tracker.accept_resolution(second));
}

#[test]
fn final_close_consolidates_a_pending_normal_resize_before_persisting() {
    let mut tracker: WindowResizeTracker<(u32, u32)> = WindowResizeTracker::new();
    tracker.remember((1000, 700));
    assert_eq!(tracker.take_for_exit(), Some((1000, 700)));
    assert_eq!(tracker.take_for_exit(), None);
}

#[test]
fn resize_without_a_window_is_forgotten() {
    let mut tracker: WindowResizeTracker<(u32, u32)> = WindowResizeTracker::new();
    let generation = tracker.remember((640, 480));
    tracker.forget();
    assert!(!tracker.accept_resolution(generation));
    assert_eq!(tracker.take_for_exit(), None);
}

#[test]
fn generations_move_on_and_wrap() {
    let mut counter: u64 = 0;
    assert_eq!(next_generation(&mut counter), 1);
    assert_eq!(counter, 1);
    let mut top = u64::MAX;
    assert_eq!(next_generation(&mut top), 0);
    assert!(response_is_current(5, 5));
    assert!(!response_is_current(5, 4));
}

#[test]
fn close_after_engine_exit_requires_maximized_state_resolution() {
    assert_eq!(exit_persistence_action(true), ExitPersistenceAction::ResolveMaximizedStatus);
    assert_eq!(exit_persistence_action(false), ExitPersistenceAction::StayOpen);
}

#[test]
fn invalid_screenshot_rgba_buffer_is_rejected() {
    assert!(validate_screenshot_rgba_buffer(2, 2, 16).is_ok());
    assert_eq!(
        validate_screenshot_rgba_buffer(2, 2, 15).unwrap_err(),
        "screenshot RGBA buffer does not match its dimensions"
    );
    if usize::BITS == 32 {
        assert_eq!(validate_screenshot_rgba_buffer(u32::MAX, u32::MAX, 0).unwrap_err(), "screenshot dimensions are too large");
    }
}

#[test]
fn invalid_screenshot_rgba_buffer_is_propagated() {
    let error = validate_screenshot_rgba_buffer(1, 1, 3).expect_err("an invalid RGBA buffer must not be accepted");
    assert!(error.contains("RGBA buffer does not match"));
}
