use cec2uinput::events::{Event, MouseButton};
use cec2uinput::mouse::{MouseAction, MouseController};

#[test]
fn acceleration_within_a_burst() {
    let mut mc = MouseController::new();
    assert_eq!(
        mc.dispatch(MouseAction::MoveRight, 0),
        vec![Event::MouseMove(1, 0)]
    );
    assert_eq!(
        mc.dispatch(MouseAction::MoveRight, 10),
        vec![Event::MouseMove(10, 0)]
    );
    assert_eq!(
        mc.dispatch(MouseAction::MoveRight, 20),
        vec![Event::MouseMove(50, 0)]
    );
    assert_eq!(
        mc.dispatch(MouseAction::MoveRight, 30),
        vec![Event::MouseMove(100, 0)]
    );
}

#[test]
fn idle_reset_after_the_window() {
    let mut mc = MouseController::new();
    assert_eq!(
        mc.dispatch(MouseAction::MoveRight, 0),
        vec![Event::MouseMove(1, 0)]
    );
    assert_eq!(
        mc.dispatch(MouseAction::MoveRight, 600),
        vec![Event::MouseMove(1, 0)]
    );
}

#[test]
fn boundary_of_the_idle_window() {
    // Exactly 500 ms elapsed does not reset; 501 ms does.
    let mut mc = MouseController::new();
    mc.dispatch(MouseAction::MoveRight, 0);
    assert_eq!(
        mc.dispatch(MouseAction::MoveRight, 500),
        vec![Event::MouseMove(10, 0)]
    );
    let mut mc2 = MouseController::new();
    mc2.dispatch(MouseAction::MoveRight, 0);
    assert_eq!(
        mc2.dispatch(MouseAction::MoveRight, 501),
        vec![Event::MouseMove(1, 0)]
    );
}

#[test]
fn counters_are_per_direction_with_one_clock() {
    let mut mc = MouseController::new();
    assert_eq!(
        mc.dispatch(MouseAction::MoveRight, 0),
        vec![Event::MouseMove(1, 0)]
    );
    assert_eq!(
        mc.dispatch(MouseAction::MoveLeft, 10),
        vec![Event::MouseMove(-1, 0)]
    );
    // The second rightward move still accelerates: the clock is shared and
    // no idle window has passed.
    assert_eq!(
        mc.dispatch(MouseAction::MoveRight, 20),
        vec![Event::MouseMove(10, 0)]
    );
}

#[test]
fn vertical_signs_follow_display_coordinates() {
    let mut mc = MouseController::new();
    assert_eq!(
        mc.dispatch(MouseAction::MoveUp, 0),
        vec![Event::MouseMove(0, -1)]
    );
    assert_eq!(
        mc.dispatch(MouseAction::MoveDown, 10),
        vec![Event::MouseMove(0, 1)]
    );
}

#[test]
fn clicks_emit_buttons_and_touch_no_counter() {
    let mut mc = MouseController::new();
    assert_eq!(
        mc.dispatch(MouseAction::ClickLeft, 0),
        vec![Event::ClickButton(MouseButton::Left)]
    );
    assert_eq!(
        mc.dispatch(MouseAction::ClickRight, 10),
        vec![Event::ClickButton(MouseButton::Right)]
    );
    assert_eq!(mc.x_pos, 0);
    assert_eq!(mc.x_neg, 0);
    assert_eq!(mc.y_pos, 0);
    assert_eq!(mc.y_neg, 0);
}

#[test]
fn clicks_keep_the_idle_clock_alive() {
    // A click between two moves resets the idle clock even though it moves
    // nothing, so the second move still accelerates.
    let mut mc = MouseController::new();
    assert_eq!(
        mc.dispatch(MouseAction::MoveRight, 0),
        vec![Event::MouseMove(1, 0)]
    );
    mc.dispatch(MouseAction::ClickLeft, 400);
    assert_eq!(
        mc.dispatch(MouseAction::MoveRight, 800),
        vec![Event::MouseMove(10, 0)]
    );
    // Without the click, the same second move would have started over.
    let mut mc2 = MouseController::new();
    mc2.dispatch(MouseAction::MoveRight, 0);
    assert_eq!(
        mc2.dispatch(MouseAction::MoveRight, 800),
        vec![Event::MouseMove(1, 0)]
    );
}

#[test]
fn deltas_never_exceed_the_table() {
    let mut mc = MouseController::new();
    let mut expected = vec![1, 10, 50, 100, 500, 500, 500];
    let mut t = 0u64;
    for want in expected.drain(..) {
        let events = mc.dispatch(MouseAction::MoveRight, t);
        assert_eq!(events, vec![Event::MouseMove(want, 0)]);
        t += 10;
    }
    assert_eq!(mc.x_pos, 5);
}

#[test]
fn reset_clears_every_direction() {
    let mut mc = MouseController::new();
    mc.dispatch(MouseAction::MoveRight, 0);
    mc.dispatch(MouseAction::MoveDown, 10);
    mc.dispatch(MouseAction::MoveDown, 20);
    assert_eq!(
        mc.dispatch(MouseAction::MoveDown, 1000),
        vec![Event::MouseMove(0, 1)]
    );
    assert_eq!(
        mc.dispatch(MouseAction::MoveRight, 1010),
        vec![Event::MouseMove(1, 0)]
    );
}
