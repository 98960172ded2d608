//! The action expression interpreter: splits an action string into items,
//! classifies each item (mouse action, bracketed modifier group, simultaneous
//! combination, single key) and expands it into primitive input events.
//!
//! Splitting at top-level commas happens first and is not bracket aware: a
//! bracketed group whose inner list contains a comma therefore arrives at the
//! classifier pre-fragmented and its fragments fall through to the single-key
//! rule. This is the documented, literal behavior of the grammar, kept on
//! purpose.

use vstd::prelude::*;
use crate::events::{Diag, DiagKind, DiagV, Event, push_diag};
use crate::keys::{Key, Modifier, key_from_name, key_of_name, modifier_from_name, modifier_of_name};
use crate::mouse::{
    MouseController, dispatch_spec, has_mouse_prefix, mouse_action_from_name, mouse_action_of_name,
    token_has_mouse_prefix, touch_spec,
};
use crate::text::{
    chars_of, contains_char, find_char, first_index_of, lower_token, split_on, split_token,
    to_lower, trim, trim_token,
};
use vstd::slice::{slice_subrange, slice_to_vec};

verus! {

/// The tokens of a piece list after per-token trimming, empties dropped; this
/// is how the tokens of a `+` combination and of a bracket inner list are
/// cleaned before resolution.
pub open spec fn clean_tokens(ps: Seq<Seq<char>>) -> Seq<Seq<char>>
    decreases ps.len(),
{
    if ps.len() == 0 {
        Seq::empty()
    } else {
        let rest = clean_tokens(ps.drop_last());
        let t = trim(ps.last());
        if t.len() == 0 {
            rest
        } else {
            rest.push(t)
        }
    }
}

/// The top-level items of an action string's piece list: trimmed, empties
/// dropped, and lowercased.
pub open spec fn norm_pieces(ps: Seq<Seq<char>>) -> Seq<Seq<char>>
    decreases ps.len(),
{
    if ps.len() == 0 {
        Seq::empty()
    } else {
        let rest = norm_pieces(ps.drop_last());
        let t = trim(ps.last());
        if t.len() == 0 {
            rest
        } else {
            rest.push(to_lower(t))
        }
    }
}

/// The items an action string is interpreted as: the whole string trimmed,
/// split at every comma, and each piece normalized.
pub open spec fn norm_items(s: Seq<char>) -> Seq<Seq<char>> {
    norm_pieces(split_on(trim(s), ','))
}

/// The modifiers of a combination's tokens, in order of appearance.
pub open spec fn combo_mods(toks: Seq<Seq<char>>) -> Seq<Modifier>
    decreases toks.len(),
{
    if toks.len() == 0 {
        Seq::empty()
    } else {
        let rest = combo_mods(toks.drop_last());
        match modifier_of_name(toks.last()) {
            Some(m) => rest.push(m),
            None => rest,
        }
    }
}

/// The non-modifier keys of a combination's tokens, in order of appearance.
pub open spec fn combo_keys(toks: Seq<Seq<char>>) -> Seq<Key>
    decreases toks.len(),
{
    if toks.len() == 0 {
        Seq::empty()
    } else {
        let rest = combo_keys(toks.drop_last());
        if modifier_of_name(toks.last()) is Some {
            rest
        } else {
            match key_of_name(toks.last()) {
                Some(k) => rest.push(k),
                None => rest,
            }
        }
    }
}

/// The diagnostics of a combination: one per token that resolves neither as a
/// modifier nor as a key.
pub open spec fn combo_diags(toks: Seq<Seq<char>>) -> Seq<DiagV>
    decreases toks.len(),
{
    if toks.len() == 0 {
        Seq::empty()
    } else {
        let rest = combo_diags(toks.drop_last());
        if modifier_of_name(toks.last()) is Some || key_of_name(toks.last()) is Some {
            rest
        } else {
            rest.push(DiagV { kind: DiagKind::UnknownAction, token: toks.last() })
        }
    }
}

/// Press events for a run of modifiers, in order.
pub open spec fn press_events(mods: Seq<Modifier>) -> Seq<Event> {
    mods.map_values(|m: Modifier| Event::PressMod(m))
}

/// Click events for a run of keys, in order.
pub open spec fn click_events(ks: Seq<Key>) -> Seq<Event> {
    ks.map_values(|k: Key| Event::ClickKey(k))
}

/// Release events for a run of modifiers, in the same order they were
/// pressed — deliberately not reversed; this is part of the contract.
pub open spec fn release_events(mods: Seq<Modifier>) -> Seq<Event> {
    mods.map_values(|m: Modifier| Event::ReleaseMod(m))
}

/// What a simultaneous `+` combination expands to: press every resolved
/// modifier, click every resolved key, release the modifiers in press order;
/// each unresolved token is skipped with a diagnostic.
pub open spec fn combo_step(item: Seq<char>) -> (Seq<Event>, Seq<DiagV>) {
    let toks = clean_tokens(split_on(item, '+'));
    (
        press_events(combo_mods(toks)) + click_events(combo_keys(toks)) + release_events(
            combo_mods(toks),
        ),
        combo_diags(toks),
    )
}

/// Click events for a bracket group's inner tokens: each token that resolves
/// as a key is clicked, the rest are skipped.
pub open spec fn inner_clicks(toks: Seq<Seq<char>>) -> Seq<Event>
    decreases toks.len(),
{
    if toks.len() == 0 {
        Seq::empty()
    } else {
        let rest = inner_clicks(toks.drop_last());
        match key_of_name(toks.last()) {
            Some(k) => rest.push(Event::ClickKey(k)),
            None => rest,
        }
    }
}

/// The diagnostics of a bracket group's inner list: one per unresolved token.
pub open spec fn inner_diags(toks: Seq<Seq<char>>) -> Seq<DiagV>
    decreases toks.len(),
{
    if toks.len() == 0 {
        Seq::empty()
    } else {
        let rest = inner_diags(toks.drop_last());
        match key_of_name(toks.last()) {
            Some(k) => rest,
            None => rest.push(DiagV { kind: DiagKind::UnknownAction, token: toks.last() }),
        }
    }
}

/// What a bracketed modifier group expands to, `lb` being the position of the
/// first `[`: the name before the bracket is resolved as a modifier; if it
/// resolves, the modifier is pressed once, each inner token is clicked, and
/// the modifier is released once; if not, the whole item is skipped with a
/// diagnostic.
pub open spec fn bracket_step(item: Seq<char>, lb: int) -> (Seq<Event>, Seq<DiagV>) {
    let mod_name = trim(item.take(lb));
    let inner = item.subrange(lb + 1, item.len() - 1);
    match modifier_of_name(mod_name) {
        Some(m) => {
            let toks = clean_tokens(split_on(inner, ','));
            (
                seq![Event::PressMod(m)] + inner_clicks(toks) + seq![Event::ReleaseMod(m)],
                inner_diags(toks),
            )
        },
        None => (Seq::empty(), seq![DiagV { kind: DiagKind::UnknownModifier, token: mod_name }]),
    }
}

/// What an item that is neither a mouse item nor a bracket group expands to:
/// a `+` combination if it contains `+`, otherwise a single key click or a
/// diagnostic.
pub open spec fn plus_or_single(item: Seq<char>) -> (Seq<Event>, Seq<DiagV>) {
    if item.contains('+') {
        combo_step(item)
    } else {
        match key_of_name(item) {
            Some(k) => (seq![Event::ClickKey(k)], Seq::empty()),
            None => (Seq::empty(), seq![DiagV { kind: DiagKind::UnknownAction, token: item }]),
        }
    }
}

/// What one normalized item does, in the grammar's fixed priority order:
/// a `mouse_`-prefixed item goes to the mouse controller (the only rule that
/// can change the controller state); an item with a `[` that ends with `]` is
/// a bracketed modifier group; an item with `+` is a simultaneous
/// combination; anything else is a single key name. Every `mouse_`-prefixed
/// item, recognized or not, runs the idle check and records the time before
/// its name branches: even an unknown mouse name keeps the idle clock alive.
pub open spec fn item_step(st: MouseController, item: Seq<char>, now: u64) -> (
    MouseController,
    Seq<Event>,
    Seq<DiagV>,
) {
    if has_mouse_prefix(item) {
        match mouse_action_of_name(item) {
            Some(a) => {
                let r = dispatch_spec(st, a, now);
                (r.0, r.1, Seq::empty())
            },
            None => (
                touch_spec(st, now),
                Seq::empty(),
                seq![DiagV { kind: DiagKind::UnknownMouseAction, token: item }],
            ),
        }
    } else {
        match first_index_of(item, '[') {
            Some(lb) => {
                if item.len() > 0 && item.last() == ']' {
                    let r = bracket_step(item, lb);
                    (st, r.0, r.1)
                } else {
                    let r = plus_or_single(item);
                    (st, r.0, r.1)
                }
            },
            None => {
                let r = plus_or_single(item);
                (st, r.0, r.1)
            },
        }
    }
}

/// Run a list of normalized items in order, threading the mouse-controller
/// state through and concatenating events and diagnostics.
pub open spec fn run_items(st: MouseController, items: Seq<Seq<char>>, now: u64) -> (
    MouseController,
    Seq<Event>,
    Seq<DiagV>,
) {
    run_items_rec(st, items, now)
}

pub open spec fn run_items_rec(st: MouseController, items: Seq<Seq<char>>, now: u64) -> (
    MouseController,
    Seq<Event>,
    Seq<DiagV>,
)
    decreases items.len(),
{
    if items.len() == 0 {
        (st, Seq::empty(), Seq::empty())
    } else {
        let prev = run_items_rec(st, items.drop_last(), now);
        let stp = item_step(prev.0, items.last(), now);
        (stp.0, prev.1 + stp.1, prev.2 + stp.2)
    }
}

/// What interpreting a whole action string at time `now` does.
pub open spec fn interpret_spec(st: MouseController, s: Seq<char>, now: u64) -> (
    MouseController,
    Seq<Event>,
    Seq<DiagV>,
) {
    run_items(st, norm_items(s), now)
}

/// The interpreter: it owns the mouse controller, the only state retained
/// between calls; the action string itself is never retained.
pub struct Interpreter {
    pub mouse: MouseController,
}

impl Interpreter {
    /// A fresh interpreter with an empty mouse controller.
    pub fn new() -> (r: Interpreter)
        ensures
            r.mouse == (MouseController {
                x_pos: 0u8,
                x_neg: 0u8,
                y_pos: 0u8,
                y_neg: 0u8,
                last_move: None::<u64>,
            }),
    {
        Interpreter { mouse: MouseController::new() }
    }

    /// Interpret one action string at time `now_ms`, returning the primitive
    /// events to send to the device, in order, and a diagnostic for every
    /// token that was skipped. Unrecognized tokens never fail the call; an
    /// empty or all-whitespace action yields nothing. Tokens are matched
    /// case-insensitively by ASCII folding: the whole name vocabulary is
    /// ASCII, so a name spelled with a non-ASCII uppercase letter does not
    /// resolve.
    pub fn interpret(&mut self, action: &str, now_ms: u64) -> (r: (Vec<Event>, Vec<Diag>))
        ensures
            ({
                let o = interpret_spec(old(self).mouse, action@, now_ms);
                &&& final(self).mouse == o.0
                &&& r.0@ == o.1
                &&& r.1.deep_view() == o.2
            }),
    {
        let cs = chars_of(action);
        let t = trim_token(cs.as_slice());
        let pieces = split_token(t.as_slice(), ',');
        let ghost st0 = self.mouse;
        let mut st = self.mouse;
        let mut events: Vec<Event> = Vec::new();
        let mut diags: Vec<Diag> = Vec::new();
        let n = pieces.len();
        let mut i: usize = 0;
        proof {
            assert(pieces.deep_view().take(0) =~~= Seq::<Seq<char>>::empty());
            assert(events@ =~= run_items(st0, norm_pieces(pieces.deep_view().take(0)), now_ms).1);
            assert(diags.deep_view() =~~= run_items(
                st0,
                norm_pieces(pieces.deep_view().take(0)),
                now_ms,
            ).2);
        }
        while i < n
            invariant
                n == pieces@.len(),
                i <= n,
                pieces.deep_view() == split_on(trim(action@), ','),
                ({
                    let o = run_items(st0, norm_pieces(pieces.deep_view().take(i as int)), now_ms);
                    &&& st == o.0
                    &&& events@ == o.1
                    &&& diags.deep_view() == o.2
                }),
            decreases n - i,
        {
            let ghost items_before = norm_pieces(pieces.deep_view().take(i as int));
            proof {
                assert(pieces.deep_view().take(i as int + 1).drop_last() =~~= pieces.deep_view()
                    .take(i as int));
                assert(pieces.deep_view().take(i as int + 1).last() == pieces@[i as int]@);
            }
            let piece = trim_token(pieces[i].as_slice());
            if piece.len() > 0 {
                let item = lower_token(piece.as_slice());
                process_item(&mut st, item.as_slice(), now_ms, &mut events, &mut diags);
                proof {
                    assert(norm_pieces(pieces.deep_view().take(i as int + 1)) =~~= items_before.push(
                        item@,
                    ));
                    assert(items_before.push(item@).drop_last() =~~= items_before);
                }
            } else {
                proof {
                    assert(norm_pieces(pieces.deep_view().take(i as int + 1)) =~~= items_before);
                }
            }
            i = i + 1;
        }
        proof {
            assert(pieces.deep_view().take(n as int) =~~= pieces.deep_view());
        }
        self.mouse = st;
        (events, diags)
    }
}

/// Expand one normalized item, appending its events and diagnostics and
/// updating the mouse-controller state as `item_step` says.
fn process_item(
    st: &mut MouseController,
    item: &[char],
    now_ms: u64,
    events: &mut Vec<Event>,
    diags: &mut Vec<Diag>,
)
    ensures
        ({
            let o = item_step(*old(st), item@, now_ms);
            &&& *final(st) == o.0
            &&& final(events)@ == old(events)@ + o.1
            &&& final(diags).deep_view() == old(diags).deep_view() + o.2
        }),
{
    if token_has_mouse_prefix(item) {
        match mouse_action_from_name(item) {
            Some(a) => {
                let mut evs = st.dispatch(a, now_ms);
                events.append(&mut evs);
                proof {
                    assert(diags.deep_view() =~~= old(diags).deep_view() + Seq::<DiagV>::empty());
                }
            },
            None => {
                st.touch(now_ms);
                push_diag(diags, DiagKind::UnknownMouseAction, slice_to_vec(item));
                proof {
                    assert(events@ =~= old(events)@ + Seq::<Event>::empty());
                    assert(diags.deep_view() =~~= old(diags).deep_view() + seq![
                        DiagV { kind: DiagKind::UnknownMouseAction, token: item@ },
                    ]);
                }
            },
        }
    } else {
        match find_char(item, '[') {
            Some(lb) => {
                if item.len() > 0 && item[item.len() - 1] == ']' {
                    proof {
                        crate::text::lemma_first_index_of_props(item@, '[');
                    }
                    bracket_item(item, lb, events, diags);
                } else {
                    plus_or_single_item(item, events, diags);
                }
            },
            None => {
                plus_or_single_item(item, events, diags);
            },
        }
    }
}

/// Expand a bracketed modifier group; `lb` is the position of the first `[`.
fn bracket_item(item: &[char], lb: usize, events: &mut Vec<Event>, diags: &mut Vec<Diag>)
    requires
        first_index_of(item@, '[') == Some(lb as int),
        (lb as int) < item@.len(),
        item@.len() > 0,
        item@.last() == ']',
        item@[lb as int] == '[',
    ensures
        ({
            let o = bracket_step(item@, lb as int);
            &&& final(events)@ == old(events)@ + o.0
            &&& final(diags).deep_view() == old(diags).deep_view() + o.1
        }),
{
    let mod_name = trim_token(slice_subrange(item, 0, lb));
    proof {
        assert(item@.subrange(0, lb as int) =~= item@.take(lb as int));
    }
    match modifier_from_name(mod_name.as_slice()) {
        Some(m) => {
            events.push(Event::PressMod(m));
            let ghost ev0 = events@;
            let len = item.len();
            proof {
                assert(lb < len);
                assert(item@[lb as int] == '[');
                assert(item@[len - 1] == ']');
                assert(lb as int != len - 1);
            }
            let inner = slice_subrange(item, lb + 1, len - 1);
            let toks = split_token(inner, ',');
            let ghost toksv = toks.deep_view();
            let nt = toks.len();
            let mut j: usize = 0;
            proof {
                assert(toksv.take(0) =~~= Seq::<Seq<char>>::empty());
                assert(events@ =~= ev0 + inner_clicks(clean_tokens(toksv.take(0))));
                assert(diags.deep_view() =~~= old(diags).deep_view() + inner_diags(
                    clean_tokens(toksv.take(0)),
                ));
            }
            while j < nt
                invariant
                    nt == toks@.len(),
                    j <= nt,
                    toksv == toks.deep_view(),
                    events@ == ev0 + inner_clicks(clean_tokens(toksv.take(j as int))),
                    diags.deep_view() == old(diags).deep_view() + inner_diags(
                        clean_tokens(toksv.take(j as int)),
                    ),
                decreases nt - j,
            {
                let ghost clean_before = clean_tokens(toksv.take(j as int));
                proof {
                    assert(toksv.take(j as int + 1).drop_last() =~~= toksv.take(j as int));
                    assert(toksv.take(j as int + 1).last() == toks@[j as int]@);
                }
                let tk = trim_token(toks[j].as_slice());
                if tk.len() > 0 {
                    proof {
                        assert(clean_tokens(toksv.take(j as int + 1)) =~~= clean_before.push(tk@));
                        assert(clean_before.push(tk@).drop_last() =~~= clean_before);
                    }
                    match key_from_name(tk.as_slice()) {
                        Some(k) => {
                            events.push(Event::ClickKey(k));
                        },
                        None => {
                            push_diag(diags, DiagKind::UnknownAction, tk);
                        },
                    }
                } else {
                    proof {
                        assert(clean_tokens(toksv.take(j as int + 1)) =~~= clean_before);
                    }
                }
                j = j + 1;
            }
            proof {
                assert(toksv.take(nt as int) =~~= toksv);
            }
            events.push(Event::ReleaseMod(m));
            proof {
                let o = bracket_step(item@, lb as int);
                assert(events@ =~= old(events)@ + o.0);
                assert(diags.deep_view() =~~= old(diags).deep_view() + o.1);
            }
        },
        None => {
            push_diag(diags, DiagKind::UnknownModifier, mod_name);
            proof {
                let o = bracket_step(item@, lb as int);
                assert(events@ =~= old(events)@ + o.0);
                assert(diags.deep_view() =~~= old(diags).deep_view() + o.1);
            }
        },
    }
}

/// Expand a `+` combination or a single key name.
fn plus_or_single_item(item: &[char], events: &mut Vec<Event>, diags: &mut Vec<Diag>)
    ensures
        ({
            let o = plus_or_single(item@);
            &&& final(events)@ == old(events)@ + o.0
            &&& final(diags).deep_view() == old(diags).deep_view() + o.1
        }),
{
    if contains_char(item, '+') {
        let toks = split_token(item, '+');
        let ghost toksv = toks.deep_view();
        let nt = toks.len();
        let mut mods: Vec<Modifier> = Vec::new();
        let mut keys: Vec<Key> = Vec::new();
        let mut j: usize = 0;
        proof {
            assert(toksv.take(0) =~~= Seq::<Seq<char>>::empty());
            assert(mods@ =~= combo_mods(clean_tokens(toksv.take(0))));
            assert(keys@ =~= combo_keys(clean_tokens(toksv.take(0))));
            assert(diags.deep_view() =~~= old(diags).deep_view() + combo_diags(
                clean_tokens(toksv.take(0)),
            ));
        }
        while j < nt
            invariant
                nt == toks@.len(),
                j <= nt,
                toksv == toks.deep_view(),
                mods@ == combo_mods(clean_tokens(toksv.take(j as int))),
                keys@ == combo_keys(clean_tokens(toksv.take(j as int))),
                diags.deep_view() == old(diags).deep_view() + combo_diags(
                    clean_tokens(toksv.take(j as int)),
                ),
            decreases nt - j,
        {
            let ghost clean_before = clean_tokens(toksv.take(j as int));
            proof {
                assert(toksv.take(j as int + 1).drop_last() =~~= toksv.take(j as int));
                assert(toksv.take(j as int + 1).last() == toks@[j as int]@);
            }
            let tk = trim_token(toks[j].as_slice());
            if tk.len() > 0 {
                proof {
                    assert(clean_tokens(toksv.take(j as int + 1)) =~~= clean_before.push(tk@));
                    assert(clean_before.push(tk@).drop_last() =~~= clean_before);
                }
                match modifier_from_name(tk.as_slice()) {
                    Some(m) => {
                        mods.push(m);
                    },
                    None => {
                        match key_from_name(tk.as_slice()) {
                            Some(k) => {
                                keys.push(k);
                            },
                            None => {
                                push_diag(diags, DiagKind::UnknownAction, tk);
                            },
                        }
                    },
                }
            } else {
                proof {
                    assert(clean_tokens(toksv.take(j as int + 1)) =~~= clean_before);
                }
            }
            j = j + 1;
        }
        proof {
            assert(toksv.take(nt as int) =~~= toksv);
        }
        let ghost cleaned = clean_tokens(toksv);
        let ghost ev0 = events@;
        let nm = mods.len();
        let mut p: usize = 0;
        while p < nm
            invariant
                nm == mods@.len(),
                p <= nm,
                mods@ == combo_mods(cleaned),
                events@ == ev0 + press_events(mods@).take(p as int),
            decreases nm - p,
        {
            events.push(Event::PressMod(mods[p]));
            p = p + 1;
            proof {
                assert(events@ =~= ev0 + press_events(mods@).take(p as int));
            }
        }
        proof {
            assert(press_events(mods@).take(nm as int) =~= press_events(mods@));
        }
        let ghost ev1 = events@;
        let nk = keys.len();
        let mut q: usize = 0;
        while q < nk
            invariant
                nk == keys@.len(),
                q <= nk,
                keys@ == combo_keys(cleaned),
                events@ == ev1 + click_events(keys@).take(q as int),
            decreases nk - q,
        {
            events.push(Event::ClickKey(keys[q]));
            q = q + 1;
            proof {
                assert(events@ =~= ev1 + click_events(keys@).take(q as int));
            }
        }
        proof {
            assert(click_events(keys@).take(nk as int) =~= click_events(keys@));
        }
        let ghost ev2 = events@;
        let mut w: usize = 0;
        while w < nm
            invariant
                nm == mods@.len(),
                w <= nm,
                mods@ == combo_mods(cleaned),
                events@ == ev2 + release_events(mods@).take(w as int),
            decreases nm - w,
        {
            events.push(Event::ReleaseMod(mods[w]));
            w = w + 1;
            proof {
                assert(events@ =~= ev2 + release_events(mods@).take(w as int));
            }
        }
        proof {
            assert(release_events(mods@).take(nm as int) =~= release_events(mods@));
            let o = plus_or_single(item@);
            assert(events@ =~= old(events)@ + o.0);
            assert(diags.deep_view() =~~= old(diags).deep_view() + o.1);
        }
    } else {
        match key_from_name(item) {
            Some(k) => {
                events.push(Event::ClickKey(k));
                proof {
                    assert(events@ =~= old(events)@ + seq![Event::ClickKey(k)]);
                    assert(diags.deep_view() =~~= old(diags).deep_view() + Seq::<DiagV>::empty());
                }
            },
            None => {
                push_diag(diags, DiagKind::UnknownAction, slice_to_vec(item));
                proof {
                    assert(events@ =~= old(events)@ + Seq::<Event>::empty());
                    assert(diags.deep_view() =~~= old(diags).deep_view() + seq![
                        DiagV { kind: DiagKind::UnknownAction, token: item@ },
                    ]);
                }
            },
        }
    }
}

} // verus!
