//! The grammar parser for the three custom surface grammars.
//!
//! The grammars, stated over token runs (whitespace never matters):
//!
//! ```text
//! ChoiceExpr     := Type ('|' Type)*                      at least one type
//! Settings       := (Pair (',' Pair)*)? ';'               Pair := Ident ':' BoolLit
//! DerivationList := Derivation (',' Derivation)* ','?
//! Derivation     := Visibility Ident ':' '[' FieldBinding (',' FieldBinding)* ']'
//! FieldBinding   := (Key ':')? Type                       Key := Ident | Number
//! Input          := Settings? DerivationList
//! ```
//!
//! A `Type` is an opaque, non-empty token run; the bare `_` is the wildcard
//! marker and is no type.  Each production has a specification function that
//! defines it, and an executable parser proved to return exactly what the
//! specification says.

use vstd::prelude::*;
use crate::ast::{Settings, Error, Bind, BindView, Binding, BindingView, Vis, VisView, Derivation,
    DerivationView};
use crate::text::{is_word_char, is_digit_char, spec_dec, dec_chars, text_eq_str};
use crate::token::{is_punct, token_is, spec_split, split_top, spec_norm_join, norm_join,
    find_sep_from, find_sep, lemma_find_sep, copy_token_range, append_text, spec_tokenize,
    tokenize};

verus! {

broadcast use crate::token::lemma_text_vec_deep_view;

/// An identifier: word characters only, no leading digit, no `'`, and not
/// the bare wildcard `_`.
pub open spec fn is_ident_text(t: Seq<char>) -> bool {
    &&& t.len() > 0
    &&& !is_digit_char(t[0])
    &&& forall|i: int| 0 <= i < t.len() ==> is_word_char(t[i]) && t[i] != '\''
    &&& t != seq!['_']
}

/// A plain number: decimal digits only.
pub open spec fn is_number_text(t: Seq<char>) -> bool {
    t.len() > 0 && forall|i: int| 0 <= i < t.len() ==> is_digit_char(t[i])
}

/// Runtime test for [`is_ident_text`].
pub fn ident_text(t: &Vec<char>) -> (r: bool)
    ensures
        r == is_ident_text(t@),
{
    if t.len() == 0 {
        return false;
    }
    if crate::text::digit_char(t[0]) {
        return false;
    }
    let mut i: usize = 0;
    while i < t.len()
        invariant
            i <= t@.len(),
            forall|j: int| 0 <= j < i ==> is_word_char(t@[j]) && t@[j] != '\'',
        decreases t@.len() - i,
    {
        if !crate::text::word_char(t[i]) || t[i] == '\'' {
            return false;
        }
        i = i + 1;
    }
    if t.len() == 1 && t[0] == '_' {
        assert(t@ =~= seq!['_']);
        return false;
    }
    assert(t@ != seq!['_']);
    true
}

/// Runtime test for [`is_number_text`].
pub fn number_text(t: &Vec<char>) -> (r: bool)
    ensures
        r == is_number_text(t@),
{
    if t.len() == 0 {
        return false;
    }
    let mut i: usize = 0;
    while i < t.len()
        invariant
            i <= t@.len(),
            forall|j: int| 0 <= j < i ==> is_digit_char(t@[j]),
        decreases t@.len() - i,
    {
        if !crate::text::digit_char(t[i]) {
            return false;
        }
        i = i + 1;
    }
    true
}

// ---------------------------------------------------------------- settings

/// Applies one recognized settings pair; unrecognized names are ignored.
pub open spec fn apply_setting(name: Seq<char>, value: bool, acc: Settings) -> Settings {
    if name == "GenStructs"@ {
        Settings { generate_structs: value, ..acc }
    } else if name == "DeleteTemplate"@ {
        Settings { delete_template: value, ..acc }
    } else if name == "OmitEmptyTupleFields"@ {
        Settings { omit_empty_tuple_fields: value, ..acc }
    } else {
        acc
    }
}

/// The settings segment: `Ident ':' BoolLit` pairs separated by commas,
/// applied left to right on top of `acc`.
pub open spec fn spec_parse_settings(toks: Seq<Seq<char>>, acc: Settings) -> Result<Settings, Error>
    decreases toks.len(),
{
    if toks.len() == 0 {
        Ok(acc)
    } else if toks.len() < 3 {
        Err(Error::InvalidSetting)
    } else if !(is_ident_text(toks[0]) && is_punct(toks[1], ':') && (toks[2] == "true"@ || toks[2]
        == "false"@)) {
        Err(Error::InvalidSetting)
    } else {
        let acc2 = apply_setting(toks[0], toks[2] == "true"@, acc);
        if toks.len() == 3 {
            Ok(acc2)
        } else if is_punct(toks[3], ',') && toks.len() > 4 {
            spec_parse_settings(toks.skip(4), acc2)
        } else {
            Err(Error::InvalidSetting)
        }
    }
}

/// Parses the settings segment, from token position `i` on.
pub fn parse_settings(toks: &Vec<Vec<char>>, i: usize, acc: Settings) -> (r: Result<
    Settings,
    Error,
>)
    requires
        i <= toks@.len(),
    ensures
        (match spec_parse_settings(toks.deep_view().skip(i as int), acc) {
            Ok(st) => r matches Ok(s) && s == st,
            Err(e) => r matches Err(x) && x == e,
        }),
    decreases toks@.len() - i,
{
    let ghost rest = toks.deep_view().skip(i as int);
    let n = toks.len();
    if i == n {
        return Ok(acc);
    }
    assert(rest[0] == toks.deep_view()[i as int]);
    if n - i < 3 {
        return Err(Error::InvalidSetting);
    }
    assert(rest[1] == toks.deep_view()[i + 1]);
    assert(rest[2] == toks.deep_view()[i + 2]);
    let is_true = text_eq_str(&toks[i + 2], "true");
    let is_false = text_eq_str(&toks[i + 2], "false");
    if !(ident_text(&toks[i]) && token_is(&toks[i + 1], ':') && (is_true || is_false)) {
        return Err(Error::InvalidSetting);
    }
    let name = &toks[i];
    let mut acc2 = acc;
    if text_eq_str(name, "GenStructs") {
        acc2.generate_structs = is_true;
    } else if text_eq_str(name, "DeleteTemplate") {
        acc2.delete_template = is_true;
    } else if text_eq_str(name, "OmitEmptyTupleFields") {
        acc2.omit_empty_tuple_fields = is_true;
    }
    assert(acc2 == apply_setting(rest[0], rest[2] == "true"@, acc));
    if n - i == 3 {
        return Ok(acc2);
    }
    assert(rest[3] == toks.deep_view()[i + 3]);
    if token_is(&toks[i + 3], ',') && n - i > 4 {
        assert(rest.skip(4) =~= toks.deep_view().skip(i + 4));
        parse_settings(toks, i + 4, acc2)
    } else {
        Err(Error::InvalidSetting)
    }
}

// ------------------------------------------------------------ choice lists

/// The bare wildcard marker, as a one-token segment.
pub open spec fn seg_is_wildcard(seg: Seq<Seq<char>>) -> bool {
    seg.len() == 1 && seg[0] == seq!['_']
}

/// Whether some alternative of a split choice expression is empty or the
/// wildcard.
pub open spec fn spec_choice_bad(segs: Seq<Seq<Seq<char>>>) -> bool {
    exists|i: int| 0 <= i < segs.len() && (segs[i].len() == 0 || seg_is_wildcard(segs[i]))
}

/// The choice expression: alternatives separated by top-level `|`, each a
/// non-empty, non-wildcard token run, each yielding its canonical text.
pub open spec fn spec_parse_choice(toks: Seq<Seq<char>>) -> Result<Seq<Seq<char>>, Error> {
    if toks.len() == 0 {
        Err(Error::EmptyChoiceSet)
    } else {
        let segs = spec_split(toks, '|');
        if spec_choice_bad(segs) {
            Err(Error::MalformedChoiceExpr)
        } else {
            Ok(segs.map_values(|s: Seq<Seq<char>>| spec_norm_join(s)))
        }
    }
}

/// Runtime test for [`seg_is_wildcard`] on a token vector.
fn seg_wildcard(seg: &Vec<Vec<char>>) -> (r: bool)
    ensures
        r == seg_is_wildcard(seg.deep_view()),
{
    if seg.len() == 1 && token_is(&seg[0], '_') {
        assert(seg.deep_view()[0] =~= seq!['_']);
        true
    } else {
        assert(seg.deep_view().len() == 1 ==> seg.deep_view()[0] == seg@[0]@);
        false
    }
}

/// Parses a choice expression into its candidate list.
pub fn parse_choice(toks: &Vec<Vec<char>>) -> (r: Result<Vec<Vec<char>>, Error>)
    ensures
        (match spec_parse_choice(toks.deep_view()) {
            Ok(cs) => r matches Ok(v) && v.deep_view() == cs,
            Err(e) => r matches Err(x) && x == e,
        }),
{
    let ghost dv = toks.deep_view();
    if toks.len() == 0 {
        return Err(Error::EmptyChoiceSet);
    }
    let segs = split_top(toks, '|');
    let ghost sdv = spec_split(dv, '|');
    let mut i: usize = 0;
    while i < segs.len()
        invariant
            i <= segs@.len(),
            segs.deep_view() == sdv,
            forall|j: int| 0 <= j < i ==> !(sdv[j].len() == 0 || seg_is_wildcard(sdv[j])),
        decreases segs@.len() - i,
    {
        assert(segs.deep_view()[i as int] == segs@[i as int].deep_view());
        if segs[i].len() == 0 || seg_wildcard(&segs[i]) {
            assert(spec_choice_bad(sdv));
            return Err(Error::MalformedChoiceExpr);
        }
        i = i + 1;
    }
    assert(!spec_choice_bad(sdv));
    let mut out: Vec<Vec<char>> = Vec::new();
    let mut k: usize = 0;
    while k < segs.len()
        invariant
            k <= segs@.len(),
            segs.deep_view() == sdv,
            out.deep_view() =~= sdv.subrange(0, k as int).map_values(
                |s: Seq<Seq<char>>| spec_norm_join(s),
            ),
        decreases segs@.len() - k,
    {
        let ghost odv0 = out.deep_view();
        let t = norm_join(&segs[k]);
        let ghost tv = t@;
        out.push(t);
        assert(out.deep_view() =~~= odv0.push(tv));
        assert(segs@[k as int].deep_view() == sdv[k as int]);
        assert(out.deep_view() =~= sdv.subrange(0, k + 1).map_values(
            |s: Seq<Seq<char>>| spec_norm_join(s),
        ));
        k = k + 1;
    }
    assert(sdv.subrange(0, sdv.len() as int) =~= sdv);
    assert(out.deep_view() =~= sdv.map_values(|s: Seq<Seq<char>>| spec_norm_join(s)));
    Ok(out)
}

// -------------------------------------------------------------- bindings

/// The normalized key of a binding's key token: a number `n` becomes `_n`,
/// an identifier stands as written.
pub open spec fn spec_binding_key(tok: Seq<char>) -> Result<Seq<char>, Error> {
    if is_number_text(tok) {
        Ok(seq!['_'] + tok)
    } else if is_ident_text(tok) {
        Ok(tok)
    } else if tok.len() > 0 && is_digit_char(tok[0]) {
        Err(Error::NonNumericKeyLiteral)
    } else {
        Err(Error::MalformedDerivation)
    }
}

/// Whether a binding's token run starts with an explicit `Key ':'` (and not
/// a `::` path separator).
pub open spec fn binding_is_keyed(toks: Seq<Seq<char>>) -> bool {
    toks.len() >= 2 && is_punct(toks[1], ':') && !(toks.len() >= 3 && is_punct(toks[2], ':'))
}

/// One field binding; `idx` is its position in the binding list, which
/// names the key of a bare (keyless) binding.
pub open spec fn spec_parse_binding(toks: Seq<Seq<char>>, idx: int) -> Result<BindingView, Error> {
    if binding_is_keyed(toks) {
        match spec_binding_key(toks[0]) {
            Err(e) => Err(e),
            Ok(key) => {
                let ty = toks.skip(2);
                if ty.len() == 0 {
                    Err(Error::MalformedDerivation)
                } else if seg_is_wildcard(ty) {
                    Ok(BindingView { key, bind: BindView::Wildcard })
                } else {
                    Ok(BindingView { key, bind: BindView::Chosen(spec_norm_join(ty)) })
                }
            },
        }
    } else if toks.len() == 0 {
        Err(Error::MalformedDerivation)
    } else {
        let key = seq!['_'] + spec_dec(idx as nat);
        if seg_is_wildcard(toks) {
            Ok(BindingView { key, bind: BindView::Wildcard })
        } else {
            Ok(BindingView { key, bind: BindView::Chosen(spec_norm_join(toks)) })
        }
    }
}

/// Parses one field binding.
pub fn parse_binding(toks: &Vec<Vec<char>>, idx: usize) -> (r: Result<Binding, Error>)
    ensures
        (match spec_parse_binding(toks.deep_view(), idx as int) {
            Ok(bv) => r matches Ok(b) && b@ == bv,
            Err(e) => r matches Err(x) && x == e,
        }),
{
    let ghost dv = toks.deep_view();
    let keyed = toks.len() >= 2 && token_is(&toks[1], ':') && !(toks.len() >= 3 && token_is(
        &toks[2],
        ':',
    ));
    assert(keyed == binding_is_keyed(dv));
    if keyed {
        let kt = &toks[0];
        let key: Vec<char>;
        if number_text(kt) {
            let mut k: Vec<char> = Vec::new();
            k.push('_');
            append_text(&mut k, kt);
            assert(k@ =~= seq!['_'] + dv[0]);
            key = k;
        } else if ident_text(kt) {
            key = crate::text::copy_text(kt);
        } else if kt.len() > 0 && crate::text::digit_char(kt[0]) {
            return Err(Error::NonNumericKeyLiteral);
        } else {
            return Err(Error::MalformedDerivation);
        }
        let ty = copy_token_range(toks, 2, toks.len());
        assert(ty.deep_view() =~= dv.skip(2));
        if ty.len() == 0 {
            return Err(Error::MalformedDerivation);
        }
        if seg_wildcard(&ty) {
            Ok(Binding { key, bind: Bind::Wildcard })
        } else {
            let t = norm_join(&ty);
            Ok(Binding { key, bind: Bind::Chosen(t) })
        }
    } else if toks.len() == 0 {
        Err(Error::MalformedDerivation)
    } else {
        let mut key: Vec<char> = Vec::new();
        key.push('_');
        let d = dec_chars(idx);
        append_text(&mut key, &d);
        assert(key@ =~= seq!['_'] + spec_dec(idx as nat));
        if seg_wildcard(toks) {
            Ok(Binding { key, bind: Bind::Wildcard })
        } else {
            let t = norm_join(toks);
            Ok(Binding { key, bind: Bind::Chosen(t) })
        }
    }
}

/// The binding list of one derivation, from segment `idx` on.
pub open spec fn spec_parse_bindings(segs: Seq<Seq<Seq<char>>>, idx: int) -> Result<
    Seq<BindingView>,
    Error,
>
    decreases segs.len(),
{
    if segs.len() == 0 {
        Ok(Seq::empty())
    } else {
        match spec_parse_binding(segs[0], idx) {
            Err(e) => Err(e),
            Ok(b) => match spec_parse_bindings(segs.drop_first(), idx + 1) {
                Err(e) => Err(e),
                Ok(rest) => Ok(seq![b] + rest),
            },
        }
    }
}

/// Parses the binding segments from position `i` on.
pub fn parse_bindings(segs: &Vec<Vec<Vec<char>>>, i: usize) -> (r: Result<Vec<Binding>, Error>)
    requires
        i <= segs@.len(),
    ensures
        (match spec_parse_bindings(segs.deep_view().skip(i as int), i as int) {
            Ok(bs) => r matches Ok(v) && v.deep_view() == bs,
            Err(e) => r matches Err(x) && x == e,
        }),
    decreases segs@.len() - i,
{
    let ghost rest = segs.deep_view().skip(i as int);
    if i == segs.len() {
        let v: Vec<Binding> = Vec::new();
        assert(v.deep_view() =~= Seq::<BindingView>::empty());
        return Ok(v);
    }
    assert(rest[0] == segs.deep_view()[i as int]);
    assert(segs.deep_view()[i as int] == segs@[i as int].deep_view());
    match parse_binding(&segs[i], i) {
        Err(e) => Err(e),
        Ok(b) => {
            assert(rest.drop_first() =~= segs.deep_view().skip(i + 1));
            match parse_bindings(segs, i + 1) {
                Err(e) => Err(e),
                Ok(mut v) => {
                    let ghost vdv = v.deep_view();
                    let ghost bv = b@;
                    v.insert(0, b);
                    assert(v.deep_view() =~~= seq![bv] + vdv);
                    Ok(v)
                },
            }
        },
    }
}

/// Two bindings of one derivation sharing a key.
pub open spec fn binds_have_dup(binds: Seq<BindingView>) -> bool {
    exists|i: int, j: int| 0 <= i < j < binds.len() && binds[i].key == binds[j].key
}

/// Runtime test for [`binds_have_dup`].
pub fn find_dup_key(binds: &Vec<Binding>) -> (r: bool)
    ensures
        r == binds_have_dup(binds.deep_view()),
{
    let ghost dv = binds.deep_view();
    let mut i: usize = 0;
    while i < binds.len()
        invariant
            i <= binds@.len(),
            forall|a: int, b: int| 0 <= a < b < binds@.len() && a < i ==> dv[a].key != dv[b].key,
        decreases binds@.len() - i,
    {
        let mut j: usize = i + 1;
        while j < binds.len()
            invariant
                i < binds@.len(),
                i + 1 <= j <= binds@.len(),
                forall|b: int| i < b < j ==> dv[i as int].key != dv[b].key,
            decreases binds@.len() - j,
        {
            assert(dv[i as int] == binds@[i as int]@);
            assert(dv[j as int] == binds@[j as int]@);
            if crate::text::text_eq(&binds[i].key, &binds[j].key) {
                assert(binds_have_dup(dv));
                return true;
            }
            j = j + 1;
        }
        i = i + 1;
    }
    assert(!binds_have_dup(dv));
    false
}

// ------------------------------------------------------------ derivations

/// The optional visibility prefix of a derivation: nothing, `pub`, or
/// `pub ( ... )`; yields the visibility and the remaining tokens.
pub open spec fn spec_parse_vis(toks: Seq<Seq<char>>) -> Result<
    (VisView, Seq<Seq<char>>),
    Error,
> {
    if toks.len() > 0 && toks[0] == "pub"@ {
        if toks.len() > 1 && is_punct(toks[1], '(') {
            let inner = toks.skip(2);
            let j = find_sep_from(inner, ')', false, 0);
            if j == inner.len() {
                Err(Error::MalformedDerivation)
            } else {
                Ok(
                    (
                        VisView::Restricted(spec_norm_join(inner.subrange(0, j))),
                        inner.skip(j + 1),
                    ),
                )
            }
        } else {
            Ok((VisView::Public, toks.skip(1)))
        }
    } else {
        Ok((VisView::Inherited, toks))
    }
}

/// Parses the visibility prefix; returns the visibility and the position
/// of the first token after it.
pub fn parse_vis(toks: &Vec<Vec<char>>) -> (r: Result<(Vis, Vec<Vec<char>>), Error>)
    ensures
        (match spec_parse_vis(toks.deep_view()) {
            Ok(p) => r matches Ok(q) && q.0@ == p.0 && q.1.deep_view() == p.1,
            Err(e) => r matches Err(x) && x == e,
        }),
{
    let ghost dv = toks.deep_view();
    if toks.len() > 0 && text_eq_str(&toks[0], "pub") {
        if toks.len() > 1 && token_is(&toks[1], '(') {
            let inner = copy_token_range(toks, 2, toks.len());
            assert(inner.deep_view() =~= dv.skip(2));
            proof {
                lemma_find_sep(inner.deep_view(), ')', false, 0);
            }
            let j = find_sep(&inner, ')', false);
            if j == inner.len() {
                Err(Error::MalformedDerivation)
            } else {
                let restr = copy_token_range(&inner, 0, j);
                let restr_text = norm_join(&restr);
                let after = copy_token_range(&inner, j + 1, inner.len());
                assert(after.deep_view() =~= inner.deep_view().skip(j + 1));
                Ok((Vis::Restricted(restr_text), after))
            }
        } else {
            let after = copy_token_range(toks, 1, toks.len());
            assert(after.deep_view() =~= dv.skip(1));
            Ok((Vis::Public, after))
        }
    } else {
        let after = copy_token_range(toks, 0, toks.len());
        assert(after.deep_view() =~= dv);
        Ok((Vis::Inherited, after))
    }
}

/// One derivation: a visibility, a name, and a bracketed, non-empty
/// binding list whose keys are pairwise distinct.
pub open spec fn spec_parse_derivation(toks: Seq<Seq<char>>) -> Result<DerivationView, Error> {
    match spec_parse_vis(toks) {
        Err(e) => Err(e),
        Ok((vis, rest)) => {
            if rest.len() < 4 {
                Err(Error::MalformedDerivation)
            } else if !(is_ident_text(rest[0]) && is_punct(rest[1], ':') && is_punct(rest[2], '[')
                && is_punct(rest[rest.len() - 1], ']')) {
                Err(Error::MalformedDerivation)
            } else {
                let inner = rest.subrange(3, rest.len() - 1);
                if find_sep_from(inner, ']', false, 0) != inner.len() {
                    Err(Error::MalformedDerivation)
                } else if inner.len() == 0 {
                    Err(Error::MalformedDerivation)
                } else {
                    match spec_parse_bindings(spec_split(inner, ','), 0) {
                        Err(e) => Err(e),
                        Ok(binds) => {
                            if binds_have_dup(binds) {
                                Err(Error::DuplicateBindingKey)
                            } else {
                                Ok(DerivationView { name: rest[0], vis, binds })
                            }
                        },
                    }
                }
            }
        },
    }
}

/// Parses one derivation.
pub fn parse_derivation(toks: &Vec<Vec<char>>) -> (r: Result<Derivation, Error>)
    ensures
        (match spec_parse_derivation(toks.deep_view()) {
            Ok(d) => r matches Ok(q) && q@ == d,
            Err(e) => r matches Err(x) && x == e,
        }),
{
    let ghost dv = toks.deep_view();
    match parse_vis(toks) {
        Err(e) => Err(e),
        Ok((vis, rest)) => {
            let ghost rdv = rest.deep_view();
            let n = rest.len();
            if n < 4 {
                return Err(Error::MalformedDerivation);
            }
            assert(rdv[0] == rest@[0]@);
            assert(rdv[1] == rest@[1]@);
            assert(rdv[2] == rest@[2]@);
            assert(rdv[n - 1] == rest@[n - 1]@);
            if !(ident_text(&rest[0]) && token_is(&rest[1], ':') && token_is(&rest[2], '[')
                && token_is(&rest[n - 1], ']')) {
                return Err(Error::MalformedDerivation);
            }
            let inner = copy_token_range(&rest, 3, n - 1);
            assert(inner.deep_view() =~= rdv.subrange(3, n - 1));
            proof {
                lemma_find_sep(inner.deep_view(), ']', false, 0);
            }
            let j = find_sep(&inner, ']', false);
            if j != inner.len() {
                return Err(Error::MalformedDerivation);
            }
            if inner.len() == 0 {
                return Err(Error::MalformedDerivation);
            }
            let segs = split_top(&inner, ',');
            assert(segs.deep_view().skip(0) =~= segs.deep_view());
            match parse_bindings(&segs, 0) {
                Err(e) => Err(e),
                Ok(binds) => {
                    if find_dup_key(&binds) {
                        Err(Error::DuplicateBindingKey)
                    } else {
                        let name = crate::text::copy_text(&rest[0]);
                        Ok(Derivation { name, vis, binds })
                    }
                },
            }
        },
    }
}

/// The derivation list from segment `i` on.
pub open spec fn spec_parse_derivations(segs: Seq<Seq<Seq<char>>>) -> Result<
    Seq<DerivationView>,
    Error,
>
    decreases segs.len(),
{
    if segs.len() == 0 {
        Ok(Seq::empty())
    } else {
        match spec_parse_derivation(segs[0]) {
            Err(e) => Err(e),
            Ok(d) => match spec_parse_derivations(segs.drop_first()) {
                Err(e) => Err(e),
                Ok(rest) => Ok(seq![d] + rest),
            },
        }
    }
}

/// Parses the derivation segments from position `i` on.
pub fn parse_derivations(segs: &Vec<Vec<Vec<char>>>, i: usize) -> (r: Result<
    Vec<Derivation>,
    Error,
>)
    requires
        i <= segs@.len(),
    ensures
        (match spec_parse_derivations(segs.deep_view().skip(i as int)) {
            Ok(ds) => r matches Ok(v) && v.deep_view() == ds,
            Err(e) => r matches Err(x) && x == e,
        }),
    decreases segs@.len() - i,
{
    let ghost rest = segs.deep_view().skip(i as int);
    if i == segs.len() {
        let v: Vec<Derivation> = Vec::new();
        assert(v.deep_view() =~= Seq::<DerivationView>::empty());
        return Ok(v);
    }
    assert(rest[0] == segs.deep_view()[i as int]);
    assert(segs.deep_view()[i as int] == segs@[i as int].deep_view());
    match parse_derivation(&segs[i]) {
        Err(e) => Err(e),
        Ok(d) => {
            assert(rest.drop_first() =~= segs.deep_view().skip(i + 1));
            match parse_derivations(segs, i + 1) {
                Err(e) => Err(e),
                Ok(mut v) => {
                    let ghost vdv = v.deep_view();
                    let ghost dvw = d@;
                    v.insert(0, d);
                    assert(v.deep_view() =~~= seq![dvw] + vdv);
                    Ok(v)
                },
            }
        },
    }
}

/// The derivation list: non-empty, comma-separated, with one trailing
/// comma tolerated.
pub open spec fn spec_parse_derivation_list(toks: Seq<Seq<char>>) -> Result<
    Seq<DerivationView>,
    Error,
> {
    if toks.len() == 0 {
        Err(Error::MalformedDerivation)
    } else {
        let segs0 = spec_split(toks, ',');
        let segs = if segs0.len() > 1 && segs0.last().len() == 0 {
            segs0.drop_last()
        } else {
            segs0
        };
        spec_parse_derivations(segs)
    }
}

/// Parses the derivation list.
pub fn parse_derivation_list(toks: &Vec<Vec<char>>) -> (r: Result<Vec<Derivation>, Error>)
    ensures
        (match spec_parse_derivation_list(toks.deep_view()) {
            Ok(ds) => r matches Ok(v) && v.deep_view() == ds,
            Err(e) => r matches Err(x) && x == e,
        }),
{
    let ghost dv = toks.deep_view();
    if toks.len() == 0 {
        return Err(Error::MalformedDerivation);
    }
    let mut segs = split_top(toks, ',');
    let ghost sdv0 = segs.deep_view();
    if segs.len() > 1 && segs[segs.len() - 1].len() == 0 {
        assert(sdv0[sdv0.len() - 1] == segs@[segs@.len() - 1].deep_view());
        let _ = segs.pop();
        assert(segs.deep_view() =~~= sdv0.drop_last());
    } else {
        assert(segs.deep_view().len() > 1 ==> segs.deep_view().last() == segs@[segs@.len()
            - 1].deep_view());
    }
    assert(segs.deep_view().skip(0) =~= segs.deep_view());
    parse_derivations(&segs, 0)
}

// ------------------------------------------------------------- the input

/// A parsed configuration input: the settings and the derivation list.
pub struct AttrView {
    pub settings: Settings,
    pub derivations: Seq<DerivationView>,
}

/// The whole configuration input: an optional settings segment, closed by
/// the first top-level `;`, then the derivation list.
pub open spec fn spec_parse_attr(s: Seq<char>) -> Result<AttrView, Error> {
    let toks = spec_tokenize(s);
    let k = find_sep_from(toks, ';', false, 0);
    let none = (Settings {
        generate_structs: false,
        delete_template: false,
        omit_empty_tuple_fields: false,
    });
    if k == toks.len() {
        match spec_parse_derivation_list(toks) {
            Err(e) => Err(e),
            Ok(ds) => Ok(AttrView { settings: none, derivations: ds }),
        }
    } else {
        match spec_parse_settings(toks.subrange(0, k), none) {
            Err(e) => Err(e),
            Ok(st) => match spec_parse_derivation_list(toks.skip(k + 1)) {
                Err(e) => Err(e),
                Ok(ds) => Ok(AttrView { settings: st, derivations: ds }),
            },
        }
    }
}

/// Parses the configuration input of one invocation.
pub fn parse_attr(s: &Vec<char>) -> (r: Result<(Settings, Vec<Derivation>), Error>)
    ensures
        (match spec_parse_attr(s@) {
            Ok(av) => r matches Ok(p) && p.0 == av.settings && p.1.deep_view() == av.derivations,
            Err(e) => r matches Err(x) && x == e,
        }),
{
    let toks = tokenize(s);
    let ghost dv = toks.deep_view();
    proof {
        lemma_find_sep(dv, ';', false, 0);
    }
    let k = find_sep(&toks, ';', false);
    let none = Settings::initial();
    if k == toks.len() {
        match parse_derivation_list(&toks) {
            Err(e) => Err(e),
            Ok(ds) => Ok((none, ds)),
        }
    } else {
        let head = copy_token_range(&toks, 0, k);
        assert(head.deep_view() =~= dv.subrange(0, k as int));
        assert(head.deep_view().skip(0) =~= head.deep_view());
        match parse_settings(&head, 0, none) {
            Err(e) => Err(e),
            Ok(st) => {
                let tail = copy_token_range(&toks, k + 1, toks.len());
                assert(tail.deep_view() =~= dv.skip(k + 1));
                match parse_derivation_list(&tail) {
                    Err(e) => Err(e),
                    Ok(ds) => Ok((st, ds)),
                }
            },
        }
    }
}

} // verus!
