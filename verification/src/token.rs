//! Tokenizing and token-level text shaping.
//!
//! The surface grammars are whitespace-insensitive, so raw text is first
//! broken into tokens: maximal runs of word characters (letters, digits,
//! `_`, `'`), or single punctuation characters.  Scanning for separators is
//! depth-aware, so that a separator inside brackets, braces, parentheses or
//! angle brackets does not split the run it stands in.

use vstd::prelude::*;
use crate::text::{is_word_char, is_space_char, word_char, space_char};
use crate::text::copy_text;

verus! {

/// The end of the word-character run that starts at position `i`: the first
/// position at or past `i` holding no word character.
pub open spec fn word_end(s: Seq<char>, i: int) -> int
    decreases s.len() - i,
{
    if 0 <= i < s.len() && is_word_char(s[i]) {
        word_end(s, i + 1)
    } else {
        i
    }
}

/// Bounds and meaning of [`word_end`].
pub proof fn lemma_word_end(s: Seq<char>, i: int)
    requires
        0 <= i <= s.len(),
    ensures
        i <= word_end(s, i) <= s.len(),
        forall|j: int| i <= j < word_end(s, i) ==> is_word_char(s[j]),
        word_end(s, i) < s.len() ==> !is_word_char(s[word_end(s, i)]),
    decreases s.len() - i,
{
    if i < s.len() && is_word_char(s[i]) {
        lemma_word_end(s, i + 1);
    }
}

/// The token sequence of the text from position `i` on.
pub open spec fn spec_tokenize_at(s: Seq<char>, i: int) -> Seq<Seq<char>>
    decreases s.len() - i,
    via spec_tokenize_at_dec
{
    if i < 0 || i >= s.len() {
        Seq::empty()
    } else if is_space_char(s[i]) {
        spec_tokenize_at(s, i + 1)
    } else if is_word_char(s[i]) {
        seq![s.subrange(i, word_end(s, i))] + spec_tokenize_at(s, word_end(s, i))
    } else {
        seq![seq![s[i]]] + spec_tokenize_at(s, i + 1)
    }
}

#[via_fn]
proof fn spec_tokenize_at_dec(s: Seq<char>, i: int) {
    if 0 <= i < s.len() && is_word_char(s[i]) {
        lemma_word_end(s, i + 1);
        assert(word_end(s, i) == word_end(s, i + 1));
    }
}

/// The token sequence of a whole text.
pub open spec fn spec_tokenize(s: Seq<char>) -> Seq<Seq<char>> {
    spec_tokenize_at(s, 0)
}

/// Breaks a text into its tokens.
pub fn tokenize(s: &Vec<char>) -> (r: Vec<Vec<char>>)
    ensures
        r.deep_view() == spec_tokenize(s@),
{
    let mut r: Vec<Vec<char>> = Vec::new();
    let mut i: usize = 0;
    while i < s.len()
        invariant
            i <= s@.len(),
            spec_tokenize(s@) == r.deep_view() + spec_tokenize_at(s@, i as int),
        decreases s@.len() - i,
    {
        let c = s[i];
        if space_char(c) {
            i = i + 1;
        } else if word_char(c) {
            let ghost start = i as int;
            let ghost rdv0 = r.deep_view();
            let mut w: Vec<char> = Vec::new();
            let mut j: usize = i;
            while j < s.len() && word_char(s[j])
                invariant
                    start <= j <= s@.len(),
                    w@ == s@.subrange(start, j as int),
                    word_end(s@, start) == word_end(s@, j as int),
                decreases s@.len() - j,
            {
                w.push(s[j]);
                assert(w@ =~= s@.subrange(start, j + 1));
                j = j + 1;
            }
            assert(word_end(s@, j as int) == j as int);
            proof {
                lemma_word_end(s@, start);
            }
            let ghost wv = w@;
            r.push(w);
            assert(r.deep_view() =~~= rdv0.push(wv));
            assert(spec_tokenize_at(s@, start) == seq![wv] + spec_tokenize_at(s@, j as int));
            assert(rdv0 + spec_tokenize_at(s@, start) =~= r.deep_view() + spec_tokenize_at(
                s@,
                j as int,
            ));
            i = j;
        } else {
            let ghost rdv0 = r.deep_view();
            let mut w: Vec<char> = Vec::new();
            w.push(c);
            assert(w@ =~= seq![s@[i as int]]);
            let ghost wv = w@;
            r.push(w);
            assert(r.deep_view() =~~= rdv0.push(wv));
            assert(spec_tokenize_at(s@, i as int) == seq![wv] + spec_tokenize_at(s@, i + 1));
            assert(rdv0 + spec_tokenize_at(s@, i as int) =~= r.deep_view() + spec_tokenize_at(
                s@,
                i + 1,
            ));
            i = i + 1;
        }
    }
    assert(spec_tokenize(s@) =~= r.deep_view() + spec_tokenize_at(s@, s@.len() as int));
    assert(spec_tokenize(s@) =~= r.deep_view());
    r
}

/// An element of the deep view of a token vector is that token's view.
pub broadcast proof fn lemma_text_vec_deep_view(v: Vec<Vec<char>>, i: int)
    requires
        0 <= i < v@.len(),
    ensures
        #[trigger] v.deep_view()[i] == v@[i]@,
{
    assert(v.deep_view()[i] =~= v@[i]@);
}

/// Whether token `t` is exactly the punctuation character `c`.
pub open spec fn is_punct(t: Seq<char>, c: char) -> bool {
    t.len() == 1 && t[0] == c
}

/// Runtime test for [`is_punct`].
pub fn token_is(t: &Vec<char>, c: char) -> (r: bool)
    ensures
        r == is_punct(t@, c),
{
    t.len() == 1 && t[0] == c
}

/// Nesting depth of an `open`/`close` pair before position `i`.  A close at
/// depth zero is ignored rather than driving the depth negative.
pub open spec fn pair_depth(toks: Seq<Seq<char>>, open: char, close: char, i: int) -> int
    decreases i,
{
    if i <= 0 {
        0
    } else {
        let d = pair_depth(toks, open, close, i - 1);
        if is_punct(toks[i - 1], open) {
            d + 1
        } else if is_punct(toks[i - 1], close) && d > 0 {
            d - 1
        } else {
            d
        }
    }
}

/// Nesting depth of angle brackets before position `i`.  The `>` of a `->`
/// arrow closes nothing, and a stray `>` at depth zero is ignored.
pub open spec fn angle_depth(toks: Seq<Seq<char>>, i: int) -> int
    decreases i,
{
    if i <= 0 {
        0
    } else {
        let d = angle_depth(toks, i - 1);
        if is_punct(toks[i - 1], '<') {
            d + 1
        } else if is_punct(toks[i - 1], '>') && !(i >= 2 && is_punct(toks[i - 2], '-')) && d > 0 {
            d - 1
        } else {
            d
        }
    }
}

/// Whether position `i` stands outside every parenthesis, bracket and brace
/// pair — and, if `angles` is set, outside every angle bracket as well.
pub open spec fn at_top_level(toks: Seq<Seq<char>>, i: int, angles: bool) -> bool {
    &&& pair_depth(toks, '(', ')', i) == 0
    &&& pair_depth(toks, '[', ']', i) == 0
    &&& pair_depth(toks, '{', '}', i) == 0
    &&& (angles ==> angle_depth(toks, i) == 0)
}

/// The first position at or past `i` holding separator `sep` at top level,
/// or the length if there is none.
pub open spec fn find_sep_from(toks: Seq<Seq<char>>, sep: char, angles: bool, i: int) -> int
    decreases toks.len() - i,
{
    if i < 0 || i >= toks.len() {
        toks.len() as int
    } else if is_punct(toks[i], sep) && at_top_level(toks, i, angles) {
        i
    } else {
        find_sep_from(toks, sep, angles, i + 1)
    }
}

/// Bounds and meaning of [`find_sep_from`].
pub proof fn lemma_find_sep(toks: Seq<Seq<char>>, sep: char, angles: bool, i: int)
    requires
        0 <= i <= toks.len(),
    ensures
        i <= find_sep_from(toks, sep, angles, i) <= toks.len(),
        find_sep_from(toks, sep, angles, i) < toks.len() ==> is_punct(
            toks[find_sep_from(toks, sep, angles, i)],
            sep,
        ) && at_top_level(toks, find_sep_from(toks, sep, angles, i), angles),
        forall|j: int|
            i <= j < find_sep_from(toks, sep, angles, i) ==> !(is_punct(toks[j], sep)
                && at_top_level(toks, j, angles)),
    decreases toks.len() - i,
{
    if i < toks.len() && !(is_punct(toks[i], sep) && at_top_level(toks, i, angles)) {
        lemma_find_sep(toks, sep, angles, i + 1);
    }
}

/// Finds the first top-level occurrence of `sep`, or the length if none.
pub fn find_sep(toks: &Vec<Vec<char>>, sep: char, angles: bool) -> (k: usize)
    ensures
        k as int == find_sep_from(toks.deep_view(), sep, angles, 0),
{
    let ghost dv = toks.deep_view();
    let mut i: usize = 0;
    let mut round: usize = 0;
    let mut square: usize = 0;
    let mut curly: usize = 0;
    let mut angle: usize = 0;
    while i < toks.len()
        invariant
            i <= toks@.len(),
            dv == toks.deep_view(),
            round <= i && square <= i && curly <= i && angle <= i,
            round as int == pair_depth(dv, '(', ')', i as int),
            square as int == pair_depth(dv, '[', ']', i as int),
            curly as int == pair_depth(dv, '{', '}', i as int),
            angle as int == angle_depth(dv, i as int),
            find_sep_from(dv, sep, angles, 0) == find_sep_from(dv, sep, angles, i as int),
        decreases toks@.len() - i,
    {
        assert(dv[i as int] == toks@[i as int]@);
        let top = round == 0 && square == 0 && curly == 0 && (!angles || angle == 0);
        if token_is(&toks[i], sep) && top {
            return i;
        }
        if token_is(&toks[i], '(') {
            round = round + 1;
        } else if token_is(&toks[i], ')') {
            if round > 0 {
                round = round - 1;
            }
        } else if token_is(&toks[i], '[') {
            square = square + 1;
        } else if token_is(&toks[i], ']') {
            if square > 0 {
                square = square - 1;
            }
        } else if token_is(&toks[i], '{') {
            curly = curly + 1;
        } else if token_is(&toks[i], '}') {
            if curly > 0 {
                curly = curly - 1;
            }
        } else if token_is(&toks[i], '<') {
            angle = angle + 1;
        } else if token_is(&toks[i], '>') {
            let arrow = i >= 1 && token_is(&toks[i - 1], '-');
            if !arrow && angle > 0 {
                angle = angle - 1;
            }
        }
        i = i + 1;
    }
    toks.len()
}

/// Copies the token range `[a, b)`.
pub fn copy_token_range(toks: &Vec<Vec<char>>, a: usize, b: usize) -> (r: Vec<Vec<char>>)
    requires
        a <= b <= toks@.len(),
    ensures
        r.deep_view() == toks.deep_view().subrange(a as int, b as int),
{
    let mut r: Vec<Vec<char>> = Vec::new();
    let mut i: usize = a;
    while i < b
        invariant
            a <= i <= b <= toks@.len(),
            r.deep_view() =~= toks.deep_view().subrange(a as int, i as int),
        decreases b - i,
    {
        let ghost rdv0 = r.deep_view();
        let t = copy_text(&toks[i]);
        let ghost tv = t@;
        r.push(t);
        assert(r.deep_view() =~~= rdv0.push(tv));
        assert(tv == toks.deep_view()[i as int]);
        i = i + 1;
    }
    assert(r.deep_view() =~= toks.deep_view().subrange(a as int, b as int));
    r
}

/// The segments of a token run between its top-level occurrences of `sep`.
/// A run with no separator is one segment; `n` separators yield `n + 1`
/// segments, possibly empty ones.
pub open spec fn spec_split(toks: Seq<Seq<char>>, sep: char) -> Seq<Seq<Seq<char>>>
    decreases toks.len(),
    via spec_split_dec
{
    let k = find_sep_from(toks, sep, true, 0);
    if k == toks.len() {
        seq![toks]
    } else {
        seq![toks.subrange(0, k)] + spec_split(toks.skip(k + 1), sep)
    }
}

#[via_fn]
proof fn spec_split_dec(toks: Seq<Seq<char>>, sep: char) {
    lemma_find_sep(toks, sep, true, 0);
}

/// Splits a token run at its top-level occurrences of `sep`.
pub fn split_top(toks: &Vec<Vec<char>>, sep: char) -> (r: Vec<Vec<Vec<char>>>)
    ensures
        r.deep_view() == spec_split(toks.deep_view(), sep),
    decreases toks@.len(),
{
    let ghost dv = toks.deep_view();
    proof {
        lemma_find_sep(dv, sep, true, 0);
    }
    let k = find_sep(toks, sep, true);
    if k == toks.len() {
        let whole = copy_token_range(toks, 0, toks.len());
        assert(whole.deep_view() =~= dv);
        let mut r: Vec<Vec<Vec<char>>> = Vec::new();
        let ghost wv = whole.deep_view();
        r.push(whole);
        assert(r.deep_view() =~= seq![wv]);
        r
    } else {
        let seg = copy_token_range(toks, 0, k);
        let rest = copy_token_range(toks, k + 1, toks.len());
        assert(rest.deep_view() =~= dv.skip(k + 1));
        let ghost segv = seg.deep_view();
        let mut r = split_top(&rest, sep);
        let ghost rdv0 = r.deep_view();
        r.insert(0, seg);
        assert(r.deep_view() =~= seq![segv] + rdv0);
        r
    }
}

/// Whether two adjacent tokens would fuse into one word if printed without
/// a space between them.
pub open spec fn needs_space(a: Seq<char>, b: Seq<char>) -> bool {
    a.len() > 0 && b.len() > 0 && is_word_char(a.last()) && is_word_char(b.first())
}

/// The canonical text of a token run: the tokens in order, with one space
/// between two adjacent tokens that would otherwise fuse.
pub open spec fn spec_norm_join(toks: Seq<Seq<char>>) -> Seq<char>
    decreases toks.len(),
{
    if toks.len() == 0 {
        Seq::empty()
    } else if toks.len() == 1 {
        toks[0]
    } else if needs_space(toks[0], toks[1]) {
        toks[0] + seq![' '] + spec_norm_join(toks.drop_first())
    } else {
        toks[0] + spec_norm_join(toks.drop_first())
    }
}

/// Appends the contents of `t` to `acc`.
pub fn append_text(acc: &mut Vec<char>, t: &Vec<char>)
    ensures
        final(acc)@ == old(acc)@ + t@,
{
    let mut i: usize = 0;
    while i < t.len()
        invariant
            i <= t@.len(),
            acc@ == old(acc)@ + t@.subrange(0, i as int),
        decreases t@.len() - i,
    {
        acc.push(t[i]);
        assert(acc@ =~= old(acc)@ + t@.subrange(0, i + 1));
        i = i + 1;
    }
    assert(acc@ =~= old(acc)@ + t@);
}

/// Renders a token run as its canonical text.
pub fn norm_join(toks: &Vec<Vec<char>>) -> (r: Vec<char>)
    ensures
        r@ == spec_norm_join(toks.deep_view()),
{
    let ghost dv = toks.deep_view();
    let mut r: Vec<char> = Vec::new();
    let mut i: usize = 0;
    assert(dv.skip(0) =~= dv);
    assert(r@ + spec_norm_join(dv) =~= spec_norm_join(dv));
    while i < toks.len()
        invariant
            i <= toks@.len(),
            spec_norm_join(dv) == r@ + spec_norm_join(dv.skip(i as int)),
        decreases toks@.len() - i,
    {
        assert(dv.skip(i as int)[0] == dv[i as int]);
        append_text(&mut r, &toks[i]);
        if i + 1 < toks.len() {
            assert(dv.skip(i as int)[1] == dv[i + 1]);
            assert(dv.skip(i as int).drop_first() =~= dv.skip(i + 1));
            let a = &toks[i];
            let b = &toks[i + 1];
            if a.len() > 0 && b.len() > 0 && word_char(a[a.len() - 1]) && word_char(b[0]) {
                r.push(' ');
                assert(needs_space(dv[i as int], dv[i + 1]));
            } else {
                assert(!needs_space(dv[i as int], dv[i + 1]));
            }
        } else {
            assert(dv.skip(i as int).len() == 1);
        }
        i = i + 1;
    }
    assert(spec_norm_join(dv.skip(toks@.len() as int)) =~= Seq::<char>::empty());
    assert(r@ =~= spec_norm_join(dv));
    r
}

/// The text of a path: its segments joined by `::`.
pub open spec fn spec_join_path(segs: Seq<Seq<char>>) -> Seq<char>
    decreases segs.len(),
{
    if segs.len() == 0 {
        Seq::empty()
    } else if segs.len() == 1 {
        segs[0]
    } else {
        segs[0] + seq![':', ':'] + spec_join_path(segs.drop_first())
    }
}

/// Renders a path from its segments.
pub fn join_path(segs: &Vec<Vec<char>>) -> (r: Vec<char>)
    ensures
        r@ == spec_join_path(segs.deep_view()),
{
    let ghost dv = segs.deep_view();
    let mut r: Vec<char> = Vec::new();
    let mut i: usize = 0;
    assert(dv.skip(0) =~= dv);
    assert(r@ + spec_join_path(dv) =~= spec_join_path(dv));
    while i < segs.len()
        invariant
            i <= segs@.len(),
            spec_join_path(dv) == r@ + spec_join_path(dv.skip(i as int)),
        decreases segs@.len() - i,
    {
        assert(dv.skip(i as int)[0] == dv[i as int]);
        append_text(&mut r, &segs[i]);
        if i + 1 < segs.len() {
            assert(dv.skip(i as int).drop_first() =~= dv.skip(i + 1));
            r.push(':');
            r.push(':');
        } else {
            assert(dv.skip(i as int).len() == 1);
        }
        i = i + 1;
    }
    assert(spec_join_path(dv.skip(segs@.len() as int)) =~= Seq::<char>::empty());
    assert(r@ =~= spec_join_path(dv));
    r
}

} // verus!
