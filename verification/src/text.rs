//! Character-level helpers for tokenizing action strings: whitespace
//! classification, ASCII case folding, trimming and splitting.

use vstd::prelude::*;

verus! {

/// The characters with the Unicode `White_Space` property; these are what
/// trimming removes at both ends of a token.
pub open spec fn is_space(c: char) -> bool {
    c == ' ' || c == '\t' || c == '\n' || c == '\r' || c == '\u{b}' || c == '\u{c}'
        || c == '\u{85}' || c == '\u{a0}' || c == '\u{1680}' || (0x2000 <= c as u32 && c as u32
        <= 0x200a) || c == '\u{2028}' || c == '\u{2029}' || c == '\u{202f}' || c == '\u{205f}'
        || c == '\u{3000}'
}

/// Decide `is_space` executably.
pub fn char_is_space(c: char) -> (r: bool)
    ensures
        r == is_space(c),
{
    c == ' ' || c == '\t' || c == '\n' || c == '\r' || c == '\u{b}' || c == '\u{c}'
        || c == '\u{85}' || c == '\u{a0}' || c == '\u{1680}' || (0x2000 <= c as u32 && c as u32
        <= 0x200a) || c == '\u{2028}' || c == '\u{2029}' || c == '\u{202f}' || c == '\u{205f}'
        || c == '\u{3000}'
}

/// ASCII case folding of a single character; everything but `A`..`Z` is kept.
pub open spec fn lower_char(c: char) -> char {
    match c {
        'A' => 'a',
        'B' => 'b',
        'C' => 'c',
        'D' => 'd',
        'E' => 'e',
        'F' => 'f',
        'G' => 'g',
        'H' => 'h',
        'I' => 'i',
        'J' => 'j',
        'K' => 'k',
        'L' => 'l',
        'M' => 'm',
        'N' => 'n',
        'O' => 'o',
        'P' => 'p',
        'Q' => 'q',
        'R' => 'r',
        'S' => 's',
        'T' => 't',
        'U' => 'u',
        'V' => 'v',
        'W' => 'w',
        'X' => 'x',
        'Y' => 'y',
        'Z' => 'z',
        _ => c,
    }
}

/// Decide `lower_char` executably.
pub fn char_to_lower(c: char) -> (r: char)
    ensures
        r == lower_char(c),
{
    match c {
        'A' => 'a',
        'B' => 'b',
        'C' => 'c',
        'D' => 'd',
        'E' => 'e',
        'F' => 'f',
        'G' => 'g',
        'H' => 'h',
        'I' => 'i',
        'J' => 'j',
        'K' => 'k',
        'L' => 'l',
        'M' => 'm',
        'N' => 'n',
        'O' => 'o',
        'P' => 'p',
        'Q' => 'q',
        'R' => 'r',
        'S' => 's',
        'T' => 't',
        'U' => 'u',
        'V' => 'v',
        'W' => 'w',
        'X' => 'x',
        'Y' => 'y',
        'Z' => 'z',
        _ => c,
    }
}

/// ASCII case folding of a whole token, position by position.
pub open spec fn to_lower(s: Seq<char>) -> Seq<char> {
    s.map_values(|c: char| lower_char(c))
}

/// A token with its leading whitespace removed.
pub open spec fn trim_start(s: Seq<char>) -> Seq<char>
    decreases s.len(),
{
    if s.len() > 0 && is_space(s[0]) {
        trim_start(s.drop_first())
    } else {
        s
    }
}

/// A token with its trailing whitespace removed.
pub open spec fn trim_end(s: Seq<char>) -> Seq<char>
    decreases s.len(),
{
    if s.len() > 0 && is_space(s.last()) {
        trim_end(s.drop_last())
    } else {
        s
    }
}

/// A token with whitespace removed at both ends.
pub open spec fn trim(s: Seq<char>) -> Seq<char> {
    trim_end(trim_start(s))
}

/// A token of whitespace only trims to nothing.
pub proof fn lemma_trim_all_space(s: Seq<char>)
    requires
        forall|i: int| 0 <= i < s.len() ==> is_space(s[i]),
    ensures
        trim(s) =~= Seq::<char>::empty(),
    decreases s.len(),
{
    if s.len() > 0 {
        assert forall|i: int| 0 <= i < s.drop_first().len() implies is_space(
            s.drop_first()[i],
        ) by {
            assert(s.drop_first()[i] == s[i + 1]);
        }
        lemma_trim_all_space(s.drop_first());
    }
}

proof fn lemma_trim_start_contains(s: Seq<char>, c: char)
    requires
        trim_start(s).contains(c),
    ensures
        s.contains(c),
    decreases s.len(),
{
    if s.len() > 0 && is_space(s[0]) {
        lemma_trim_start_contains(s.drop_first(), c);
        let i = choose|i: int| 0 <= i < s.drop_first().len() && s.drop_first()[i] == c;
        assert(s[i + 1] == c);
    }
}

proof fn lemma_trim_end_contains(s: Seq<char>, c: char)
    requires
        trim_end(s).contains(c),
    ensures
        s.contains(c),
    decreases s.len(),
{
    if s.len() > 0 && is_space(s.last()) {
        lemma_trim_end_contains(s.drop_last(), c);
        let i = choose|i: int| 0 <= i < s.drop_last().len() && s.drop_last()[i] == c;
        assert(s[i] == c);
    }
}

/// Trimming introduces no character.
pub proof fn lemma_trim_contains(s: Seq<char>, c: char)
    requires
        trim(s).contains(c),
    ensures
        s.contains(c),
{
    lemma_trim_end_contains(trim_start(s), c);
    lemma_trim_start_contains(s, c);
}

proof fn lemma_trim_start_head(s: Seq<char>)
    ensures
        trim_start(s).len() > 0 ==> !is_space(trim_start(s)[0]),
    decreases s.len(),
{
    if s.len() > 0 && is_space(s[0]) {
        lemma_trim_start_head(s.drop_first());
    }
}

proof fn lemma_trim_end_last(s: Seq<char>)
    ensures
        trim_end(s).len() > 0 ==> !is_space(trim_end(s).last()),
    decreases s.len(),
{
    if s.len() > 0 && is_space(s.last()) {
        lemma_trim_end_last(s.drop_last());
    }
}

proof fn lemma_trim_end_keeps_head(s: Seq<char>)
    ensures
        trim_end(s).len() > 0 ==> s.len() > 0 && trim_end(s)[0] == s[0],
    decreases s.len(),
{
    if s.len() > 0 && is_space(s.last()) {
        lemma_trim_end_keeps_head(s.drop_last());
    }
}

/// Trimming an already trimmed token changes nothing.
pub proof fn lemma_trim_idempotent(s: Seq<char>)
    ensures
        trim(trim(s)) == trim(s),
{
    let t = trim_start(s);
    let u = trim_end(t);
    lemma_trim_start_head(s);
    lemma_trim_end_last(t);
    lemma_trim_end_keeps_head(t);
    if u.len() == 0 {
        assert(trim_start(u) =~= u);
    } else {
        assert(!is_space(u[0]));
        assert(trim_start(u) == u);
        assert(!is_space(u.last()));
    }
}

/// Case folding keeps every character that folds to itself.
pub proof fn lemma_to_lower_contains(s: Seq<char>, c: char)
    requires
        lower_char(c) == c,
        s.contains(c),
    ensures
        to_lower(s).contains(c),
{
    let i = choose|i: int| 0 <= i < s.len() && s[i] == c;
    assert(to_lower(s)[i] == c);
}

/// A string split at every occurrence of `sep`; the separators themselves are
/// dropped, and `n` separators yield `n + 1` pieces (possibly empty ones).
pub open spec fn split_on(s: Seq<char>, sep: char) -> Seq<Seq<char>>
    decreases s.len(),
{
    if s.len() == 0 {
        seq![Seq::<char>::empty()]
    } else if s[0] == sep {
        seq![Seq::<char>::empty()] + split_on(s.drop_first(), sep)
    } else {
        let rest = split_on(s.drop_first(), sep);
        seq![seq![s[0]] + rest[0]] + rest.drop_first()
    }
}

/// Splitting always yields at least one piece.
pub proof fn lemma_split_on_len(s: Seq<char>, sep: char)
    ensures
        split_on(s, sep).len() >= 1,
    decreases s.len(),
{
    if s.len() > 0 {
        lemma_split_on_len(s.drop_first(), sep);
    }
}

/// Appending a separator appends one empty piece.
pub proof fn lemma_split_on_push_sep(s: Seq<char>, sep: char)
    ensures
        split_on(s.push(sep), sep) =~~= split_on(s, sep).push(Seq::<char>::empty()),
    decreases s.len(),
{
    lemma_split_on_len(s, sep);
    if s.len() == 0 {
        assert(s.push(sep).drop_first() =~= Seq::<char>::empty());
        assert(s.push(sep)[0] == sep);
        assert(split_on(s.push(sep), sep) == seq![Seq::<char>::empty()] + split_on(
            Seq::<char>::empty(),
            sep,
        ));
        assert(split_on(Seq::<char>::empty(), sep) == seq![Seq::<char>::empty()]);
    } else {
        assert(s.push(sep).drop_first() =~= s.drop_first().push(sep));
        lemma_split_on_push_sep(s.drop_first(), sep);
        lemma_split_on_len(s.drop_first(), sep);
        let rp = split_on(s.drop_first().push(sep), sep);
        if s[0] == sep {
            assert(split_on(s.push(sep), sep) == seq![Seq::<char>::empty()] + rp);
            assert(split_on(s, sep) == seq![Seq::<char>::empty()] + split_on(s.drop_first(), sep));
        } else {
            assert(split_on(s.push(sep), sep) == seq![seq![s[0]] + rp[0]] + rp.drop_first());
            assert(split_on(s, sep) == seq![seq![s[0]] + split_on(s.drop_first(), sep)[0]]
                + split_on(s.drop_first(), sep).drop_first());
        }
    }
}

/// Appending an ordinary character extends the last piece.
pub proof fn lemma_split_on_push_other(s: Seq<char>, sep: char, c: char)
    requires
        c != sep,
    ensures
        split_on(s.push(c), sep) =~~= split_on(s, sep).update(
            split_on(s, sep).len() - 1,
            split_on(s, sep).last().push(c),
        ),
    decreases s.len(),
{
    lemma_split_on_len(s, sep);
    if s.len() == 0 {
        assert(s.push(c).drop_first() =~= Seq::<char>::empty());
        assert(s.push(c)[0] == c);
        assert(split_on(s.push(c), sep) == seq![
            seq![c] + split_on(Seq::<char>::empty(), sep)[0],
        ] + split_on(Seq::<char>::empty(), sep).drop_first());
        assert(split_on(Seq::<char>::empty(), sep) == seq![Seq::<char>::empty()]);
        assert(seq![c] + Seq::<char>::empty() =~= Seq::<char>::empty().push(c));
    } else {
        assert(s.push(c).drop_first() =~= s.drop_first().push(c));
        lemma_split_on_push_other(s.drop_first(), sep, c);
        lemma_split_on_len(s.drop_first(), sep);
        let r = split_on(s.drop_first(), sep);
        let rp = split_on(s.drop_first().push(c), sep);
        if s[0] == sep {
            assert(split_on(s.push(c), sep) =~~= seq![Seq::<char>::empty()] + rp);
        } else {
            assert(split_on(s.push(c), sep) =~~= seq![seq![s[0]] + rp[0]] + rp.drop_first());
            if r.len() == 1 {
                assert(seq![s[0]] + r[0].push(c) =~= (seq![s[0]] + r[0]).push(c));
            }
        }
    }
}

/// No piece of a split contains the separator.
pub proof fn lemma_split_on_pieces_free(s: Seq<char>, sep: char, i: int)
    requires
        0 <= i < split_on(s, sep).len(),
    ensures
        !split_on(s, sep)[i].contains(sep),
    decreases s.len(),
{
    lemma_split_on_len(s, sep);
    if s.len() == 0 {
    } else if s[0] == sep {
        if i > 0 {
            lemma_split_on_pieces_free(s.drop_first(), sep, i - 1);
        }
    } else {
        lemma_split_on_len(s.drop_first(), sep);
        if i == 0 {
            lemma_split_on_pieces_free(s.drop_first(), sep, 0);
            assert forall|j: int| 0 <= j < split_on(s, sep)[0].len() implies split_on(s, sep)[0][j]
                != sep by {
                if j > 0 {
                    assert(split_on(s, sep)[0][j] == split_on(s.drop_first(), sep)[0][j - 1]);
                }
            }
        } else {
            lemma_split_on_pieces_free(s.drop_first(), sep, i);
        }
    }
}

/// A string with no separator splits into itself alone.
pub proof fn lemma_split_on_absent(s: Seq<char>, sep: char)
    requires
        !s.contains(sep),
    ensures
        split_on(s, sep) =~~= seq![s],
    decreases s.len(),
{
    if s.len() > 0 {
        assert(s[0] != sep);
        assert(!s.drop_first().contains(sep)) by {
            assert forall|j: int| 0 <= j < s.drop_first().len() implies s.drop_first()[j]
                != sep by {
                assert(s.drop_first()[j] == s[j + 1]);
            }
        }
        lemma_split_on_absent(s.drop_first(), sep);
        assert(split_on(s, sep)[0] =~= s);
    }
}

/// Collect the characters of a string.
pub fn chars_of(s: &str) -> (r: Vec<char>)
    ensures
        r@ == s@,
{
    let n = s.unicode_len();
    let mut r: Vec<char> = Vec::new();
    let mut i: usize = 0;
    while i < n
        invariant
            n == s@.len(),
            i <= n,
            r@ =~= s@.take(i as int),
        decreases n - i,
    {
        r.push(s.get_char(i));
        i = i + 1;
        assert(r@ =~= s@.take(i as int));
    }
    assert(r@ =~= s@);
    r
}

/// Compare a token to a literal.
pub fn eq_lit(tok: &[char], lit: &str) -> (r: bool)
    ensures
        r == (tok@ == lit@),
{
    let n = lit.unicode_len();
    if tok.len() != n {
        return false;
    }
    let mut i: usize = 0;
    while i < n
        invariant
            n == lit@.len(),
            tok@.len() == n,
            i <= n,
            forall|j: int| 0 <= j < i ==> tok@[j] == lit@[j],
        decreases n - i,
    {
        if tok[i] != lit.get_char(i) {
            return false;
        }
        i = i + 1;
    }
    proof {
        assert(tok@ =~= lit@);
    }
    true
}

/// Compare two strings character by character.
pub fn str_eq(a: &str, b: &str) -> (r: bool)
    ensures
        r == (a@ == b@),
{
    let n = a.unicode_len();
    if n != b.unicode_len() {
        return false;
    }
    let mut i: usize = 0;
    while i < n
        invariant
            n == a@.len(),
            b@.len() == n,
            i <= n,
            forall|j: int| 0 <= j < i ==> a@[j] == b@[j],
        decreases n - i,
    {
        if a.get_char(i) != b.get_char(i) {
            return false;
        }
        i = i + 1;
    }
    proof {
        assert(a@ =~= b@);
    }
    true
}

/// Does the token contain the character?
pub fn contains_char(tok: &[char], c: char) -> (r: bool)
    ensures
        r == tok@.contains(c),
{
    let mut i: usize = 0;
    while i < tok.len()
        invariant
            i <= tok@.len(),
            forall|j: int| 0 <= j < i ==> tok@[j] != c,
        decreases tok@.len() - i,
    {
        if tok[i] == c {
            return true;
        }
        i = i + 1;
    }
    false
}

/// The position of the first occurrence of a character, if any.
pub open spec fn first_index_of(s: Seq<char>, c: char) -> Option<int>
    decreases s.len(),
{
    if s.len() == 0 {
        None
    } else if s[0] == c {
        Some(0int)
    } else {
        match first_index_of(s.drop_first(), c) {
            Some(i) => Some(i + 1),
            None => None,
        }
    }
}

proof fn lemma_first_index_found(s: Seq<char>, c: char, i: int)
    requires
        0 <= i < s.len(),
        s[i] == c,
        forall|j: int| 0 <= j < i ==> s[j] != c,
    ensures
        first_index_of(s, c) == Some(i),
    decreases i,
{
    if i > 0 {
        assert forall|j: int| 0 <= j < i - 1 implies s.drop_first()[j] != c by {
            assert(s.drop_first()[j] == s[j + 1]);
        }
        lemma_first_index_found(s.drop_first(), c, i - 1);
    }
}

proof fn lemma_first_index_absent(s: Seq<char>, c: char)
    requires
        forall|j: int| 0 <= j < s.len() ==> s[j] != c,
    ensures
        first_index_of(s, c) is None,
    decreases s.len(),
{
    if s.len() > 0 {
        assert forall|j: int| 0 <= j < s.drop_first().len() implies s.drop_first()[j] != c by {
            assert(s.drop_first()[j] == s[j + 1]);
        }
        lemma_first_index_absent(s.drop_first(), c);
    }
}

/// What the position returned by `first_index_of` means.
pub proof fn lemma_first_index_of_props(s: Seq<char>, c: char)
    ensures
        match first_index_of(s, c) {
            Some(i) => 0 <= i < s.len() && s[i] == c && (forall|j: int| 0 <= j < i ==> s[j] != c),
            None => forall|j: int| 0 <= j < s.len() ==> s[j] != c,
        },
    decreases s.len(),
{
    if s.len() > 0 && s[0] != c {
        lemma_first_index_of_props(s.drop_first(), c);
        match first_index_of(s.drop_first(), c) {
            Some(i) => {
                assert(s[i + 1] == s.drop_first()[i]);
                assert forall|j: int| 0 <= j < i + 1 implies s[j] != c by {
                    if j > 0 {
                        assert(s[j] == s.drop_first()[j - 1]);
                    }
                }
            },
            None => {
                assert forall|j: int| 0 <= j < s.len() implies s[j] != c by {
                    if j > 0 {
                        assert(s[j] == s.drop_first()[j - 1]);
                    }
                }
            },
        }
    }
}

/// Find the first occurrence of a character, if any.
pub fn find_char(tok: &[char], c: char) -> (r: Option<usize>)
    ensures
        match r {
            Some(i) => first_index_of(tok@, c) == Some(i as int),
            None => first_index_of(tok@, c) is None,
        },
{
    let mut i: usize = 0;
    while i < tok.len()
        invariant
            i <= tok@.len(),
            forall|j: int| 0 <= j < i ==> tok@[j] != c,
        decreases tok@.len() - i,
    {
        if tok[i] == c {
            proof {
                lemma_first_index_found(tok@, c, i as int);
            }
            return Some(i);
        }
        i = i + 1;
    }
    proof {
        lemma_first_index_absent(tok@, c);
    }
    None
}

/// Copy a token with whitespace removed at both ends.
pub fn trim_token(tok: &[char]) -> (r: Vec<char>)
    ensures
        r@ == trim(tok@),
{
    let n = tok.len();
    let mut i: usize = 0;
    proof {
        assert(tok@.skip(0) =~= tok@);
    }
    while i < n && char_is_space(tok[i])
        invariant
            n == tok@.len(),
            i <= n,
            trim_start(tok@) == trim_start(tok@.skip(i as int)),
        decreases n - i,
    {
        proof {
            assert(tok@.skip(i as int).drop_first() =~= tok@.skip(i as int + 1));
        }
        i = i + 1;
    }
    proof {
        if i < n {
            assert(trim_start(tok@) =~= tok@.skip(i as int));
        } else {
            assert(tok@.skip(i as int) =~= Seq::<char>::empty());
        }
        assert(trim_start(tok@) =~= tok@.skip(i as int));
    }
    let mut j: usize = n;
    while j > i && char_is_space(tok[j - 1])
        invariant
            n == tok@.len(),
            i <= j <= n,
            trim_start(tok@) == tok@.skip(i as int),
            trim(tok@) == trim_end(tok@.subrange(i as int, j as int)),
        decreases j,
    {
        proof {
            assert(tok@.subrange(i as int, j as int).drop_last() =~= tok@.subrange(
                i as int,
                j as int - 1,
            ));
        }
        j = j - 1;
    }
    proof {
        assert(tok@.skip(i as int) =~= tok@.subrange(i as int, n as int));
        assert(trim(tok@) =~= tok@.subrange(i as int, j as int));
    }
    let mut r: Vec<char> = Vec::new();
    let mut k: usize = i;
    while k < j
        invariant
            i <= k <= j <= n,
            n == tok@.len(),
            r@ =~= tok@.subrange(i as int, k as int),
        decreases j - k,
    {
        r.push(tok[k]);
        k = k + 1;
        assert(r@ =~= tok@.subrange(i as int, k as int));
    }
    r
}

/// Copy a token with every character case-folded.
pub fn lower_token(tok: &[char]) -> (r: Vec<char>)
    ensures
        r@ == to_lower(tok@),
{
    let n = tok.len();
    let mut r: Vec<char> = Vec::new();
    let mut i: usize = 0;
    while i < n
        invariant
            n == tok@.len(),
            i <= n,
            r@ =~= to_lower(tok@).take(i as int),
        decreases n - i,
    {
        r.push(char_to_lower(tok[i]));
        i = i + 1;
        assert(r@ =~= to_lower(tok@).take(i as int));
    }
    assert(r@ =~= to_lower(tok@));
    r
}

/// Split a token at every occurrence of `sep`.
pub fn split_token(tok: &[char], sep: char) -> (r: Vec<Vec<char>>)
    ensures
        r.deep_view() == split_on(tok@, sep),
        r@.len() >= 1,
{
    let n = tok.len();
    let mut out: Vec<Vec<char>> = Vec::new();
    let mut cur: Vec<char> = Vec::new();
    let mut i: usize = 0;
    proof {
        assert(tok@.take(0) =~= Seq::<char>::empty());
        assert(out.deep_view().push(cur@) =~~= split_on(tok@.take(0), sep));
    }
    while i < n
        invariant
            n == tok@.len(),
            i <= n,
            out.deep_view().push(cur@) =~~= split_on(tok@.take(i as int), sep),
        decreases n - i,
    {
        proof {
            assert(tok@.take(i as int + 1) =~= tok@.take(i as int).push(tok@[i as int]));
        }
        if tok[i] == sep {
            proof {
                lemma_split_on_push_sep(tok@.take(i as int), sep);
            }
            let ghost old_out = out.deep_view();
            let ghost old_cur = cur@;
            out.push(cur);
            cur = Vec::new();
            proof {
                assert(out.deep_view() =~~= old_out.push(old_cur));
                assert(out.deep_view().push(cur@) =~~= split_on(tok@.take(i as int + 1), sep));
            }
        } else {
            proof {
                lemma_split_on_push_other(tok@.take(i as int), sep, tok@[i as int]);
                lemma_split_on_len(tok@.take(i as int), sep);
            }
            let ghost old_out = out.deep_view();
            let ghost old_cur = cur@;
            cur.push(tok[i]);
            proof {
                assert(out.deep_view().push(cur@) =~~= split_on(tok@.take(i as int + 1), sep));
            }
        }
        i = i + 1;
    }
    proof {
        assert(tok@.take(n as int) =~= tok@);
    }
    let ghost old_out = out.deep_view();
    let ghost old_cur = cur@;
    out.push(cur);
    proof {
        assert(out.deep_view() =~~= old_out.push(old_cur));
        assert(out.deep_view() =~~= split_on(tok@, sep));
        lemma_split_on_len(tok@, sep);
    }
    out
}

} // verus!
