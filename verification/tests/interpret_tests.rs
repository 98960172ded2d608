use cec2uinput::events::{DiagKind, Event, MouseButton};
use cec2uinput::interp::Interpreter;
use cec2uinput::keys::{Key, Modifier};

fn token_string(token: &[char]) -> String {
    token.iter().collect()
}

#[test]
fn single_key_click() {
    let mut it = Interpreter::new();
    let (events, diags) = it.interpret("enter", 0);
    assert_eq!(events, vec![Event::ClickKey(Key::Enter)]);
    assert!(diags.is_empty());
}

#[test]
fn single_key_click_case_insensitive() {
    let mut it = Interpreter::new();
    let (upper, diags_upper) = it.interpret("Enter", 0);
    let (lower, diags_lower) = it.interpret("enter", 0);
    assert_eq!(upper, vec![Event::ClickKey(Key::Enter)]);
    assert_eq!(upper, lower);
    assert!(diags_upper.is_empty());
    assert!(diags_lower.is_empty());
}

#[test]
fn single_key_click_padded() {
    let mut it = Interpreter::new();
    let (events, diags) = it.interpret("  Del \t", 0);
    assert_eq!(events, vec![Event::ClickKey(Key::Delete)]);
    assert!(diags.is_empty());
}

#[test]
fn combo_order_ctrl_alt_del() {
    let mut it = Interpreter::new();
    let (events, diags) = it.interpret("ctrl+alt+del", 0);
    assert_eq!(
        events,
        vec![
            Event::PressMod(Modifier::LeftCtrl),
            Event::PressMod(Modifier::LeftAlt),
            Event::ClickKey(Key::Delete),
            Event::ReleaseMod(Modifier::LeftCtrl),
            Event::ReleaseMod(Modifier::LeftAlt),
        ]
    );
    assert!(diags.is_empty());
}

#[test]
fn combo_unknown_modifier_skipped() {
    let mut it = Interpreter::new();
    let (events, diags) = it.interpret("unknownmod+a", 0);
    assert_eq!(events, vec![Event::ClickKey(Key::A)]);
    assert_eq!(diags.len(), 1);
    assert_eq!(diags[0].kind, DiagKind::UnknownAction);
    assert_eq!(token_string(&diags[0].token), "unknownmod");
}

#[test]
fn combo_keys_in_token_order() {
    let mut it = Interpreter::new();
    let (events, diags) = it.interpret("shift+tab+rctrl", 0);
    assert_eq!(
        events,
        vec![
            Event::PressMod(Modifier::LeftShift),
            Event::PressMod(Modifier::RightCtrl),
            Event::ClickKey(Key::Tab),
            Event::ReleaseMod(Modifier::LeftShift),
            Event::ReleaseMod(Modifier::RightCtrl),
        ]
    );
    assert!(diags.is_empty());
}

#[test]
fn bracket_single_key_held() {
    let mut it = Interpreter::new();
    let (events, diags) = it.interpret("ctrl[c]", 0);
    assert_eq!(
        events,
        vec![
            Event::PressMod(Modifier::LeftCtrl),
            Event::ClickKey(Key::C),
            Event::ReleaseMod(Modifier::LeftCtrl),
        ]
    );
    assert!(diags.is_empty());
}

#[test]
fn bracket_with_comma_fragments() {
    // The top-level split runs before the bracket rule and is not bracket
    // aware, so this must NOT expand to alt-held clicks of a and f.
    let mut it = Interpreter::new();
    let (events, diags) = it.interpret("alt[a,f]", 0);
    assert!(events.is_empty());
    assert_eq!(diags.len(), 2);
    assert_eq!(diags[0].kind, DiagKind::UnknownAction);
    assert_eq!(token_string(&diags[0].token), "alt[a");
    assert_eq!(diags[1].kind, DiagKind::UnknownAction);
    assert_eq!(token_string(&diags[1].token), "f]");
}

#[test]
fn bracket_unknown_modifier() {
    let mut it = Interpreter::new();
    let (events, diags) = it.interpret("foo[a]", 0);
    assert!(events.is_empty());
    assert_eq!(diags.len(), 1);
    assert_eq!(diags[0].kind, DiagKind::UnknownModifier);
    assert_eq!(token_string(&diags[0].token), "foo");
}

#[test]
fn bracket_unknown_inner_key_skipped() {
    let mut it = Interpreter::new();
    let (events, diags) = it.interpret("alt[zz]", 0);
    assert_eq!(
        events,
        vec![
            Event::PressMod(Modifier::LeftAlt),
            Event::ReleaseMod(Modifier::LeftAlt),
        ]
    );
    assert_eq!(diags.len(), 1);
    assert_eq!(diags[0].kind, DiagKind::UnknownAction);
    assert_eq!(token_string(&diags[0].token), "zz");
}

#[test]
fn bracket_missing_close_falls_through() {
    let mut it = Interpreter::new();
    let (events, diags) = it.interpret("alt[a", 0);
    assert!(events.is_empty());
    assert_eq!(diags.len(), 1);
    assert_eq!(diags[0].kind, DiagKind::UnknownAction);
    assert_eq!(token_string(&diags[0].token), "alt[a");
}

#[test]
fn empty_action_is_noop() {
    let mut it = Interpreter::new();
    let (events, diags) = it.interpret("", 0);
    assert!(events.is_empty());
    assert!(diags.is_empty());
}

#[test]
fn whitespace_action_is_noop() {
    let mut it = Interpreter::new();
    let (events, diags) = it.interpret("   ", 0);
    assert!(events.is_empty());
    assert!(diags.is_empty());
}

#[test]
fn sequence_of_items_in_order() {
    let mut it = Interpreter::new();
    let (events, diags) = it.interpret("ctrl[c], enter", 0);
    assert_eq!(
        events,
        vec![
            Event::PressMod(Modifier::LeftCtrl),
            Event::ClickKey(Key::C),
            Event::ReleaseMod(Modifier::LeftCtrl),
            Event::ClickKey(Key::Enter),
        ]
    );
    assert!(diags.is_empty());
}

#[test]
fn unknown_single_item() {
    let mut it = Interpreter::new();
    let (events, diags) = it.interpret("bogus", 0);
    assert!(events.is_empty());
    assert_eq!(diags.len(), 1);
    assert_eq!(diags[0].kind, DiagKind::UnknownAction);
    assert_eq!(token_string(&diags[0].token), "bogus");
}

#[test]
fn unknown_item_does_not_stop_the_rest() {
    let mut it = Interpreter::new();
    let (events, diags) = it.interpret("bogus, enter", 0);
    assert_eq!(events, vec![Event::ClickKey(Key::Enter)]);
    assert_eq!(diags.len(), 1);
}

#[test]
fn unknown_mouse_action() {
    let mut it = Interpreter::new();
    let (events, diags) = it.interpret("mouse_bogus", 7);
    assert!(events.is_empty());
    assert_eq!(diags.len(), 1);
    assert_eq!(diags[0].kind, DiagKind::UnknownMouseAction);
    assert_eq!(token_string(&diags[0].token), "mouse_bogus");
    // An unresolved mouse name dispatches nothing, but it still records the
    // time: the timestamp update comes before the name branches.
    assert_eq!(it.mouse.last_move, Some(7));
}

#[test]
fn unknown_mouse_action_keeps_the_clock_alive() {
    // A bogus mouse item between two moves resets the idle clock, so the
    // second move still accelerates even though more than the idle window
    // passed since the first.
    let mut it = Interpreter::new();
    let (events, _) = it.interpret("mouse_right", 0);
    assert_eq!(events, vec![Event::MouseMove(1, 0)]);
    it.interpret("mouse_bogus", 400);
    let (events, _) = it.interpret("mouse_right", 800);
    assert_eq!(events, vec![Event::MouseMove(10, 0)]);
}

#[test]
fn unknown_mouse_action_applies_the_idle_clear() {
    // The idle check also runs for an unresolved mouse name: after a long
    // pause it clears the counters, so the next move starts over even though
    // it follows the bogus item closely.
    let mut it = Interpreter::new();
    it.interpret("mouse_right", 0);
    it.interpret("mouse_right", 10);
    it.interpret("mouse_bogus", 900);
    let (events, _) = it.interpret("mouse_right", 910);
    assert_eq!(events, vec![Event::MouseMove(1, 0)]);
}

#[test]
fn mouse_items_through_interpret() {
    let mut it = Interpreter::new();
    let (events, diags) = it.interpret("mouse_right", 0);
    assert_eq!(events, vec![Event::MouseMove(1, 0)]);
    assert!(diags.is_empty());
    let (events, diags) = it.interpret("mouse_lclick", 10);
    assert_eq!(events, vec![Event::ClickButton(MouseButton::Left)]);
    assert!(diags.is_empty());
    let (events, diags) = it.interpret("mouse_click_right", 20);
    assert_eq!(events, vec![Event::ClickButton(MouseButton::Right)]);
    assert!(diags.is_empty());
}

#[test]
fn empty_items_are_dropped() {
    let mut it = Interpreter::new();
    let (events, diags) = it.interpret(", enter ,, ", 0);
    assert_eq!(events, vec![Event::ClickKey(Key::Enter)]);
    assert!(diags.is_empty());
}

#[test]
fn alias_names_resolve_to_same_key() {
    let mut it = Interpreter::new();
    let (del_events, _) = it.interpret("del", 0);
    let (delete_events, _) = it.interpret("delete", 0);
    assert_eq!(del_events, delete_events);
    assert_eq!(del_events, vec![Event::ClickKey(Key::Delete)]);
}
