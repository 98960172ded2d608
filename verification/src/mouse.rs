//! The mouse motion controller: per-direction repeat counters that
//! accelerate cursor travel through a fixed step table and reset after an
//! idle window, plus the mouse-action name table.

use vstd::prelude::*;
use crate::events::{Event, MouseButton};
use crate::text::eq_lit;

verus! {

/// How long a pause (in milliseconds) must be before the next motion starts a
/// fresh burst with all counters cleared.
pub const IDLE_RESET_MS: u64 = 500;

/// The largest value a per-direction repeat counter can take; it indexes the
/// last entry of the step table.
pub const COUNTER_CAP: u8 = 5;

/// A mouse action selected by one `mouse_`-prefixed token.
#[derive(Clone, Copy, Debug, PartialEq, Eq, Structural)]
pub enum MouseAction {
    MoveRight,
    MoveLeft,
    MoveUp,
    MoveDown,
    ClickLeft,
    ClickRight,
}

/// The mouse-action name table, over already lowercased tokens.
pub open spec fn mouse_action_of_name(s: Seq<char>) -> Option<MouseAction> {
    if s == "mouse_right"@ {
        Some(MouseAction::MoveRight)
    } else if s == "mouse_left"@ {
        Some(MouseAction::MoveLeft)
    } else if s == "mouse_up"@ {
        Some(MouseAction::MoveUp)
    } else if s == "mouse_down"@ {
        Some(MouseAction::MoveDown)
    } else if s == "mouse_click_left"@ || s == "mouse_left_click"@ || s == "mouse_lclick"@ {
        Some(MouseAction::ClickLeft)
    } else if s == "mouse_click_right"@ || s == "mouse_right_click"@ || s == "mouse_rclick"@ {
        Some(MouseAction::ClickRight)
    } else {
        None
    }
}

/// Resolve a lowercased token as a mouse-action name.
pub fn mouse_action_from_name(tok: &[char]) -> (r: Option<MouseAction>)
    ensures
        r == mouse_action_of_name(tok@),
{
    if eq_lit(tok, "mouse_right") {
        Some(MouseAction::MoveRight)
    } else if eq_lit(tok, "mouse_left") {
        Some(MouseAction::MoveLeft)
    } else if eq_lit(tok, "mouse_up") {
        Some(MouseAction::MoveUp)
    } else if eq_lit(tok, "mouse_down") {
        Some(MouseAction::MoveDown)
    } else if eq_lit(tok, "mouse_click_left") || eq_lit(tok, "mouse_left_click") || eq_lit(
        tok,
        "mouse_lclick",
    ) {
        Some(MouseAction::ClickLeft)
    } else if eq_lit(tok, "mouse_click_right") || eq_lit(tok, "mouse_right_click") || eq_lit(
        tok,
        "mouse_rclick",
    ) {
        Some(MouseAction::ClickRight)
    } else {
        None
    }
}

/// Does the token begin with the characters `mouse_`? Such an item is always
/// routed to the mouse controller, resolved or not.
pub open spec fn has_mouse_prefix(s: Seq<char>) -> bool {
    s.len() >= 6 && s[0] == 'm' && s[1] == 'o' && s[2] == 'u' && s[3] == 's' && s[4] == 'e' && s[5]
        == '_'
}

/// Decide `has_mouse_prefix` executably.
pub fn token_has_mouse_prefix(tok: &[char]) -> (r: bool)
    ensures
        r == has_mouse_prefix(tok@),
{
    tok.len() >= 6 && tok[0] == 'm' && tok[1] == 'o' && tok[2] == 'u' && tok[3] == 's' && tok[4]
        == 'e' && tok[5] == '_'
}

/// The state of the mouse motion controller: one bounded repeat counter per
/// direction (`x_pos` is rightward, `y_pos` is upward motion, matching the
/// direction tokens `x+`, `x-`, `y+`, `y-`), and the time of the last
/// dispatched mouse action, shared by all four directions.
#[derive(Clone, Copy, Debug, PartialEq, Eq, Structural)]
pub struct MouseController {
    pub x_pos: u8,
    pub x_neg: u8,
    pub y_pos: u8,
    pub y_neg: u8,
    pub last_move: Option<u64>,
}

/// Every counter is within the step table's bounds.
pub open spec fn wf_controller(st: MouseController) -> bool {
    st.x_pos <= COUNTER_CAP && st.x_neg <= COUNTER_CAP && st.y_pos <= COUNTER_CAP && st.y_neg
        <= COUNTER_CAP
}

/// The controller state with all four counters cleared.
pub open spec fn clear_counters(st: MouseController) -> MouseController {
    MouseController { x_pos: 0, x_neg: 0, y_pos: 0, y_neg: 0, last_move: st.last_move }
}

/// The idle check at the head of every dispatch: if more than the idle window
/// has passed since the last action, all counters clear.
pub open spec fn idle_checked(st: MouseController, now: u64) -> MouseController {
    match st.last_move {
        Some(last) => if now as int > last as int + IDLE_RESET_MS as int {
            clear_counters(st)
        } else {
            st
        },
        None => st,
    }
}

/// One more repeat in a direction: the counter grows by one, capped.
pub open spec fn bump(c: u8) -> u8 {
    if c < COUNTER_CAP {
        (c as int + 1) as u8
    } else {
        c
    }
}

/// The step table, indexed by a direction's counter: the magnitude of the
/// emitted delta for the 1st, 2nd, ... repeat is 1, 10, 50, 100, 500.
pub open spec fn pos_step(c: u8) -> i32 {
    if c as int <= 1 {
        1
    } else if c == 2 {
        10
    } else if c == 3 {
        50
    } else if c == 4 {
        100
    } else {
        500
    }
}

/// The step table with the opposite sign, for leftward and upward motion.
pub open spec fn neg_step(c: u8) -> i32 {
    if c as int <= 1 {
        -1i32
    } else if c == 2 {
        -10i32
    } else if c == 3 {
        -50i32
    } else if c == 4 {
        -100i32
    } else {
        -500i32
    }
}

fn pos_step_of(c: u8) -> (r: i32)
    ensures
        r == pos_step(c),
{
    if c <= 1 {
        1
    } else if c == 2 {
        10
    } else if c == 3 {
        50
    } else if c == 4 {
        100
    } else {
        500
    }
}

fn neg_step_of(c: u8) -> (r: i32)
    ensures
        r == neg_step(c),
{
    if c <= 1 {
        -1
    } else if c == 2 {
        -10
    } else if c == 3 {
        -50
    } else if c == 4 {
        -100
    } else {
        -500
    }
}

/// The bookkeeping every `mouse_`-prefixed item performs before anything
/// else, resolved or not: the idle check, then `now` recorded as the
/// last-action time. The counters are untouched.
pub open spec fn touch_spec(st: MouseController, now: u64) -> MouseController {
    let st0 = idle_checked(st, now);
    MouseController {
        x_pos: st0.x_pos,
        x_neg: st0.x_neg,
        y_pos: st0.y_pos,
        y_neg: st0.y_neg,
        last_move: Some(now),
    }
}

/// What one dispatched mouse action does: the successor state and the emitted
/// events. Every call, clicks included, runs the idle check and records `now`
/// as the last-action time; only directional moves touch a counter. Deltas
/// are display coordinates: right and down positive, left and up negative.
pub open spec fn dispatch_spec(st: MouseController, action: MouseAction, now: u64) -> (
    MouseController,
    Seq<Event>,
) {
    let st1 = touch_spec(st, now);
    match action {
        MouseAction::MoveRight => {
            let c = bump(st1.x_pos);
            (
                MouseController { x_pos: c, ..st1 },
                seq![Event::MouseMove(pos_step(c), 0)],
            )
        },
        MouseAction::MoveLeft => {
            let c = bump(st1.x_neg);
            (
                MouseController { x_neg: c, ..st1 },
                seq![Event::MouseMove(neg_step(c), 0)],
            )
        },
        MouseAction::MoveUp => {
            let c = bump(st1.y_pos);
            (
                MouseController { y_pos: c, ..st1 },
                seq![Event::MouseMove(0, neg_step(c))],
            )
        },
        MouseAction::MoveDown => {
            let c = bump(st1.y_neg);
            (
                MouseController { y_neg: c, ..st1 },
                seq![Event::MouseMove(0, pos_step(c))],
            )
        },
        MouseAction::ClickLeft => (st1, seq![Event::ClickButton(MouseButton::Left)]),
        MouseAction::ClickRight => (st1, seq![Event::ClickButton(MouseButton::Right)]),
    }
}

impl MouseController {
    /// A fresh controller: no motion yet, every counter empty.
    pub fn new() -> (r: MouseController)
        ensures
            r == (MouseController {
                x_pos: 0u8,
                x_neg: 0u8,
                y_pos: 0u8,
                y_neg: 0u8,
                last_move: None::<u64>,
            }),
    {
        MouseController { x_pos: 0, x_neg: 0, y_pos: 0, y_neg: 0, last_move: None }
    }

    /// Run the idle check and record `now_ms` as the last-action time,
    /// without dispatching anything. This is what an unrecognized
    /// `mouse_`-prefixed item still does to the controller: the idle clock is
    /// kept alive even though no motion or click is emitted.
    pub fn touch(&mut self, now_ms: u64)
        ensures
            *final(self) == touch_spec(*old(self), now_ms),
    {
        if let Some(last) = self.last_move {
            if now_ms > last && now_ms - last > IDLE_RESET_MS {
                self.x_pos = 0;
                self.x_neg = 0;
                self.y_pos = 0;
                self.y_neg = 0;
            }
        }
        self.last_move = Some(now_ms);
    }

    /// Dispatch one mouse action at time `now_ms` (milliseconds on any clock
    /// that is consistent across calls), yielding the events to emit.
    pub fn dispatch(&mut self, action: MouseAction, now_ms: u64) -> (events: Vec<Event>)
        ensures
            (*final(self), events@) == dispatch_spec(*old(self), action, now_ms),
    {
        self.touch(now_ms);
        let mut events: Vec<Event> = Vec::new();
        match action {
            MouseAction::MoveRight => {
                if self.x_pos < COUNTER_CAP {
                    self.x_pos = self.x_pos + 1;
                }
                events.push(Event::MouseMove(pos_step_of(self.x_pos), 0));
            },
            MouseAction::MoveLeft => {
                if self.x_neg < COUNTER_CAP {
                    self.x_neg = self.x_neg + 1;
                }
                events.push(Event::MouseMove(neg_step_of(self.x_neg), 0));
            },
            MouseAction::MoveUp => {
                if self.y_pos < COUNTER_CAP {
                    self.y_pos = self.y_pos + 1;
                }
                events.push(Event::MouseMove(0, neg_step_of(self.y_pos)));
            },
            MouseAction::MoveDown => {
                if self.y_neg < COUNTER_CAP {
                    self.y_neg = self.y_neg + 1;
                }
                events.push(Event::MouseMove(0, pos_step_of(self.y_neg)));
            },
            MouseAction::ClickLeft => {
                events.push(Event::ClickButton(MouseButton::Left));
            },
            MouseAction::ClickRight => {
                events.push(Event::ClickButton(MouseButton::Right));
            },
        }
        proof {
            assert(events@ =~= dispatch_spec(*old(self), action, now_ms).1);
        }
        events
    }
}

} // verus!
