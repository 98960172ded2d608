//! The interpreter's general laws, stated over the same spec functions its
//! contracts use and proved once and for all.

use vstd::prelude::*;
use crate::events::{DiagV, Event};
use crate::keys::{
    Key, alias_key_of, digit_key_of, function_key_of, key_of_name, letter_key_of, nav_key_of,
    punct_key_of,
};
use crate::mouse::{
    MouseAction, MouseController, dispatch_spec, has_mouse_prefix, wf_controller,
};
use crate::interp::{
    bracket_step, clean_tokens, inner_clicks, interpret_spec, item_step, norm_items, norm_pieces,
    run_items_rec,
};
use crate::text::{
    first_index_of, is_space, lemma_first_index_of_props, lemma_split_on_absent,
    lemma_split_on_pieces_free, lemma_to_lower_contains, lemma_trim_all_space, lemma_trim_contains,
    lemma_trim_idempotent, lower_char, split_on, to_lower, trim,
};

verus! {

/// A single key name resolves to no comma, plus, bracket or mouse prefix:
/// such a token always falls through to the single-key rule, whole.
proof fn lemma_nav_key_name_plain(s: Seq<char>)
    requires
        nav_key_of(s) is Some,
    ensures
        !s.contains(','),
        !s.contains('+'),
        !s.contains('['),
        !has_mouse_prefix(s),
        s.len() > 0,
{
    reveal_strlit("select");
    reveal_strlit("enter");
    reveal_strlit("exit");
    reveal_strlit("esc");
    reveal_strlit("up");
    reveal_strlit("down");
    reveal_strlit("left");
    reveal_strlit("right");
    reveal_strlit("home");
    reveal_strlit("pageup");
    reveal_strlit("pagedown");
    reveal_strlit("end");
    reveal_strlit("tab");
    reveal_strlit("backspace");
    reveal_strlit("delete");
    reveal_strlit("insert");
}

proof fn lemma_function_key_name_plain(s: Seq<char>)
    requires
        function_key_of(s) is Some,
    ensures
        !s.contains(','),
        !s.contains('+'),
        !s.contains('['),
        !has_mouse_prefix(s),
        s.len() > 0,
{
    reveal_strlit("f1");
    reveal_strlit("f2");
    reveal_strlit("f3");
    reveal_strlit("f4");
    reveal_strlit("f5");
    reveal_strlit("f6");
    reveal_strlit("f7");
    reveal_strlit("f8");
    reveal_strlit("f9");
    reveal_strlit("f10");
    reveal_strlit("f11");
    reveal_strlit("f12");
}

proof fn lemma_digit_key_name_plain(s: Seq<char>)
    requires
        digit_key_of(s) is Some,
    ensures
        !s.contains(','),
        !s.contains('+'),
        !s.contains('['),
        !has_mouse_prefix(s),
        s.len() > 0,
{
    reveal_strlit("0");
    reveal_strlit("1");
    reveal_strlit("2");
    reveal_strlit("3");
    reveal_strlit("4");
    reveal_strlit("5");
    reveal_strlit("6");
    reveal_strlit("7");
    reveal_strlit("8");
    reveal_strlit("9");
}

proof fn lemma_punct_key_name_plain(s: Seq<char>)
    requires
        punct_key_of(s) is Some,
    ensures
        !s.contains(','),
        !s.contains('+'),
        !s.contains('['),
        !has_mouse_prefix(s),
        s.len() > 0,
{
    reveal_strlit("space");
    reveal_strlit("spacebar");
    reveal_strlit("dot");
    reveal_strlit("comma");
    reveal_strlit("minus");
    reveal_strlit("equal");
    reveal_strlit("slash");
    reveal_strlit("backslash");
    reveal_strlit("semicolon");
    reveal_strlit("apostrophe");
    reveal_strlit("leftbrace");
    reveal_strlit("rightbrace");
    reveal_strlit("grave");
}

proof fn lemma_letter_key_name_plain(s: Seq<char>)
    requires
        letter_key_of(s) is Some,
    ensures
        !s.contains(','),
        !s.contains('+'),
        !s.contains('['),
        !has_mouse_prefix(s),
        s.len() > 0,
{
    reveal_strlit("a");
    reveal_strlit("b");
    reveal_strlit("c");
    reveal_strlit("d");
    reveal_strlit("e");
    reveal_strlit("f");
    reveal_strlit("g");
    reveal_strlit("h");
    reveal_strlit("i");
    reveal_strlit("j");
    reveal_strlit("k");
    reveal_strlit("l");
    reveal_strlit("m");
    reveal_strlit("n");
    reveal_strlit("o");
    reveal_strlit("p");
    reveal_strlit("q");
    reveal_strlit("r");
    reveal_strlit("s");
    reveal_strlit("t");
    reveal_strlit("u");
    reveal_strlit("v");
    reveal_strlit("w");
    reveal_strlit("x");
    reveal_strlit("y");
    reveal_strlit("z");
}

proof fn lemma_alias_key_name_plain(s: Seq<char>)
    requires
        alias_key_of(s) is Some,
    ensures
        !s.contains(','),
        !s.contains('+'),
        !s.contains('['),
        !has_mouse_prefix(s),
        s.len() > 0,
{
    reveal_strlit("arrow_up");
    reveal_strlit("arrow_down");
    reveal_strlit("arrow_left");
    reveal_strlit("arrow_right");
    reveal_strlit("del");
    reveal_strlit("ins");
    reveal_strlit("pgup");
    reveal_strlit("pgdown");
    reveal_strlit("return");
}

/// Every recognized key name is a plain token: it contains no comma, no
/// plus, no bracket, and no `mouse_` prefix, so the grammar can only ever
/// treat it as a single-key item.
pub proof fn lemma_key_name_plain(s: Seq<char>)
    requires
        key_of_name(s) is Some,
    ensures
        !s.contains(','),
        !s.contains('+'),
        !s.contains('['),
        !has_mouse_prefix(s),
        s.len() > 0,
{
    if nav_key_of(s) is Some {
        lemma_nav_key_name_plain(s);
    } else if function_key_of(s) is Some {
        lemma_function_key_name_plain(s);
    } else if digit_key_of(s) is Some {
        lemma_digit_key_name_plain(s);
    } else if punct_key_of(s) is Some {
        lemma_punct_key_name_plain(s);
    } else if letter_key_of(s) is Some {
        lemma_letter_key_name_plain(s);
    } else {
        lemma_alias_key_name_plain(s);
    }
}

/// For every recognized single key name, case-insensitively and however it is
/// padded with whitespace, interpreting it emits exactly one click of the
/// resolved key, no other event, no diagnostic, and leaves the mouse
/// controller untouched.
pub proof fn lemma_single_key_click(st: MouseController, s: Seq<char>, now: u64, k: Key)
    requires
        key_of_name(to_lower(trim(s))) == Some(k),
    ensures
        ({
            let o = interpret_spec(st, s, now);
            &&& o.0 == st
            &&& o.1 =~= seq![Event::ClickKey(k)]
            &&& o.2 =~= Seq::<DiagV>::empty()
        }),
{
    let t = trim(s);
    let x = to_lower(t);
    lemma_key_name_plain(x);
    assert(!t.contains(',')) by {
        if t.contains(',') {
            lemma_to_lower_contains(t, ',');
        }
    }
    lemma_split_on_absent(t, ',');
    assert(norm_items(s) =~~= norm_pieces(seq![t]));
    lemma_trim_idempotent(s);
    assert(seq![t].drop_last() =~~= Seq::<Seq<char>>::empty());
    assert(seq![t].last() == t);
    assert(x.len() == t.len());
    assert(t.len() > 0);
    assert(norm_pieces(Seq::<Seq<char>>::empty()) =~~= Seq::<Seq<char>>::empty());
    assert(norm_pieces(seq![t]) =~~= seq![x]);
    assert(seq![x].drop_last() =~~= Seq::<Seq<char>>::empty());
    assert(run_items_rec(st, Seq::<Seq<char>>::empty(), now) == (
        st,
        Seq::<Event>::empty(),
        Seq::<DiagV>::empty(),
    ));
    let o = run_items_rec(st, seq![x], now);
    assert(first_index_of(x, '[') is None) by {
        lemma_first_index_of_props(x, '[');
        match first_index_of(x, '[') {
            Some(i) => {
                assert(x.contains('['));
            },
            None => {},
        }
    }
    assert(item_step(st, x, now) == (st, seq![Event::ClickKey(k)], Seq::<DiagV>::empty()));
    assert(o.1 =~= Seq::<Event>::empty() + seq![Event::ClickKey(k)]);
    assert(o.2 =~= Seq::<DiagV>::empty() + Seq::<DiagV>::empty());
}

/// An empty or all-whitespace action string is a no-op: no event, no
/// diagnostic, no state change.
pub proof fn lemma_blank_action_is_noop(st: MouseController, s: Seq<char>, now: u64)
    requires
        forall|i: int| 0 <= i < s.len() ==> is_space(s[i]),
    ensures
        ({
            let o = interpret_spec(st, s, now);
            &&& o.0 == st
            &&& o.1 =~= Seq::<Event>::empty()
            &&& o.2 =~= Seq::<DiagV>::empty()
        }),
{
    lemma_trim_all_space(s);
    let e = Seq::<char>::empty();
    assert(split_on(e, ',') == seq![e]);
    assert(seq![e].drop_last() =~~= Seq::<Seq<char>>::empty());
    assert(seq![e].last() == e);
    assert(trim(e) == e);
    assert(norm_pieces(Seq::<Seq<char>>::empty()) =~~= Seq::<Seq<char>>::empty());
    assert(norm_pieces(seq![e]) =~~= Seq::<Seq<char>>::empty());
}

/// No top-level item ever contains a comma: the top-level split runs first
/// and is not bracket aware, so a bracketed group with a comma inside its
/// brackets reaches the classifier only as fragments.
pub proof fn lemma_no_item_contains_comma(s: Seq<char>, i: int)
    requires
        0 <= i < norm_items(s).len(),
    ensures
        !norm_items(s)[i].contains(','),
{
    lemma_norm_pieces_comma_free(split_on(trim(s), ','), s, i);
}

proof fn lemma_norm_pieces_comma_free(ps: Seq<Seq<char>>, s: Seq<char>, i: int)
    requires
        ps == split_on(trim(s), ','),
        0 <= i < norm_pieces(ps).len(),
    ensures
        !norm_pieces(ps)[i].contains(','),
{
    assert forall|j: int| 0 <= j < ps.len() implies !ps[j].contains(',') by {
        lemma_split_on_pieces_free(trim(s), ',', j);
    }
    lemma_norm_pieces_comma_free_rec(ps, i);
}

proof fn lemma_norm_pieces_comma_free_rec(ps: Seq<Seq<char>>, i: int)
    requires
        forall|j: int| 0 <= j < ps.len() ==> !(#[trigger] ps[j]).contains(','),
        0 <= i < norm_pieces(ps).len(),
    ensures
        !norm_pieces(ps)[i].contains(','),
    decreases ps.len(),
{
    if ps.len() > 0 {
        let rest = norm_pieces(ps.drop_last());
        let t = trim(ps.last());
        if i < rest.len() {
            assert forall|j: int| 0 <= j < ps.drop_last().len() implies !(#[trigger] ps.drop_last()[j]).contains(
                ',',
            ) by {
                assert(ps.drop_last()[j] == ps[j]);
            }
            lemma_norm_pieces_comma_free_rec(ps.drop_last(), i);
        } else {
            assert(t.len() > 0 && norm_pieces(ps)[i] == to_lower(t));
            if to_lower(t).contains(',') {
                let w = choose|w: int| 0 <= w < to_lower(t).len() && to_lower(t)[w] == ',';
                assert(lower_char(t[w]) == ',');
                assert(t[w] == ',');
                assert(t.contains(','));
                lemma_trim_contains(ps.last(), ',');
                assert(ps.last() == ps[ps.len() - 1]);
            }
        }
    }
}

/// A delta within the step table's bounds: no emitted motion is ever larger
/// than the table's last entry, in either direction on either axis.
pub open spec fn event_in_bounds(e: Event) -> bool {
    match e {
        Event::MouseMove(dx, dy) => -500 <= dx && dx <= 500 && -500 <= dy && dy <= 500,
        _ => true,
    }
}

proof fn lemma_dispatch_bounded(st: MouseController, a: MouseAction, now: u64)
    ensures
        wf_controller(st) ==> wf_controller(dispatch_spec(st, a, now).0),
        forall|i: int|
            0 <= i < dispatch_spec(st, a, now).1.len() ==> event_in_bounds(
                #[trigger] dispatch_spec(st, a, now).1[i],
            ),
{
}

proof fn lemma_inner_clicks_bounded(toks: Seq<Seq<char>>, i: int)
    requires
        0 <= i < inner_clicks(toks).len(),
    ensures
        event_in_bounds(inner_clicks(toks)[i]),
    decreases toks.len(),
{
    if toks.len() > 0 {
        if i < inner_clicks(toks.drop_last()).len() {
            lemma_inner_clicks_bounded(toks.drop_last(), i);
        }
    }
}

proof fn lemma_item_step_bounded(st: MouseController, item: Seq<char>, now: u64)
    ensures
        wf_controller(st) ==> wf_controller(item_step(st, item, now).0),
        forall|i: int|
            0 <= i < item_step(st, item, now).1.len() ==> event_in_bounds(
                #[trigger] item_step(st, item, now).1[i],
            ),
{
    let o = item_step(st, item, now);
    if has_mouse_prefix(item) {
        match crate::mouse::mouse_action_of_name(item) {
            Some(a) => {
                lemma_dispatch_bounded(st, a, now);
            },
            None => {},
        }
    } else {
        assert forall|i: int| 0 <= i < o.1.len() implies event_in_bounds(#[trigger] o.1[i]) by {
            match first_index_of(item, '[') {
                Some(lb) => {
                    if item.len() > 0 && item.last() == ']' {
                        let b = bracket_step(item, lb);
                        match crate::keys::modifier_of_name(trim(item.take(lb))) {
                            Some(m) => {
                                let toks = clean_tokens(
                                    split_on(item.subrange(lb + 1, item.len() - 1), ','),
                                );
                                if 0 < i < 1 + inner_clicks(toks).len() {
                                    lemma_inner_clicks_bounded(toks, i - 1);
                                }
                            },
                            None => {},
                        }
                    }
                },
                None => {},
            }
        }
    }
}

proof fn lemma_run_items_bounded(st: MouseController, items: Seq<Seq<char>>, now: u64)
    ensures
        wf_controller(st) ==> wf_controller(run_items_rec(st, items, now).0),
        wf_controller(st) ==> forall|i: int|
            0 <= i < run_items_rec(st, items, now).1.len() ==> event_in_bounds(
                #[trigger] run_items_rec(st, items, now).1[i],
            ),
    decreases items.len(),
{
    if items.len() > 0 {
        lemma_run_items_bounded(st, items.drop_last(), now);
        let prev = run_items_rec(st, items.drop_last(), now);
        if wf_controller(st) {
            lemma_item_step_bounded(prev.0, items.last(), now);
        }
    }
}

/// However many actions run and however fast they repeat, the counters never
/// leave the step table's bounds and no emitted motion delta ever exceeds
/// 500 in magnitude.
pub proof fn lemma_acceleration_bounded(st: MouseController, s: Seq<char>, now: u64)
    requires
        wf_controller(st),
    ensures
        ({
            let o = interpret_spec(st, s, now);
            &&& wf_controller(o.0)
            &&& forall|i: int| 0 <= i < o.1.len() ==> event_in_bounds(#[trigger] o.1[i])
        }),
{
    lemma_run_items_bounded(st, norm_items(s), now);
}

} // verus!
