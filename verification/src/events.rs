//! Primitive input events and structured diagnostics: what interpreting an
//! action string hands to the embedding program.

use vstd::prelude::*;
use crate::keys::{Key, Modifier};

verus! {

/// A mouse button of the synthetic pointer device.
#[derive(Clone, Copy, Debug, PartialEq, Eq, Structural)]
pub enum MouseButton {
    Left,
    Right,
}

/// One primitive input event, to be sent to the synthetic device in order.
/// A key click stands for press followed by release; modifier presses and
/// releases are separate events so that keys can be clicked while a modifier
/// is held. `MouseMove` deltas are display coordinates: positive x is right,
/// positive y is down.
#[derive(Clone, Copy, Debug, PartialEq, Eq, Structural)]
pub enum Event {
    PressMod(Modifier),
    ReleaseMod(Modifier),
    ClickKey(Key),
    MouseMove(i32, i32),
    ClickButton(MouseButton),
}

/// What kind of token could not be resolved.
#[derive(Clone, Copy, Debug, PartialEq, Eq, Structural)]
pub enum DiagKind {
    UnknownAction,
    UnknownModifier,
    UnknownMouseAction,
}

/// A diagnostic for one skipped token: the kind of failure and the offending
/// token itself. Interpretation continues past it.
#[derive(Clone, Debug, PartialEq, Eq)]
pub struct Diag {
    pub kind: DiagKind,
    pub token: Vec<char>,
}

/// The mathematical image of a `Diag`.
pub struct DiagV {
    pub kind: DiagKind,
    pub token: Seq<char>,
}

impl View for Diag {
    type V = DiagV;

    open spec fn view(&self) -> DiagV {
        DiagV { kind: self.kind, token: self.token@ }
    }
}

impl DeepView for Diag {
    type V = DiagV;

    open spec fn deep_view(&self) -> DiagV {
        self.view()
    }
}

/// Append a diagnostic for a skipped token.
pub fn push_diag(diags: &mut Vec<Diag>, kind: DiagKind, token: Vec<char>)
    ensures
        final(diags).deep_view() == old(diags).deep_view().push(
            (DiagV { kind, token: token@ }),
        ),
{
    let ghost t = token@;
    diags.push(Diag { kind, token });
    proof {
        assert(diags.deep_view() =~~= old(diags).deep_view().push((DiagV { kind, token: t })));
    }
}

} // verus!
