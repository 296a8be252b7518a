//! The choice extractor.
//!
//! Walks a template's fields in declaration order, recognizes choice fields
//! by the marker name `either` in a macro-shaped type — a name-based
//! recognizer, so an unrelated macro of the same name is taken for the
//! marker too — and parses each recognized body into its candidate list.

use vstd::prelude::*;
use crate::ast::{Template, FieldView, FieldTypeView, Choice, ChoiceView, Error, spec_field_key};
use crate::parse::spec_parse_choice;
use crate::text::{copy_text, dec_chars, text_eq_str, spec_dec};
use crate::token::{spec_tokenize, tokenize};

verus! {

broadcast use {crate::token::lemma_text_vec_deep_view, crate::text::lemma_chars_deep_view};

/// Whether a macro-shaped type's path names the choice marker.
pub open spec fn is_marker_path(path: Seq<Seq<char>>) -> bool {
    exists|i: int| 0 <= i < path.len() && path[i] == "either"@
}

/// Runtime test for [`is_marker_path`].
pub fn marker_path(path: &Vec<Vec<char>>) -> (r: bool)
    ensures
        r == is_marker_path(path.deep_view()),
{
    let mut i: usize = 0;
    while i < path.len()
        invariant
            i <= path@.len(),
            forall|j: int| 0 <= j < i ==> path.deep_view()[j] != "either"@,
        decreases path@.len() - i,
    {
        if text_eq_str(&path[i], "either") {
            assert(path.deep_view()[i as int] == "either"@);
            return true;
        }
        i = i + 1;
    }
    false
}

/// The choice-field descriptors of the fields from position `i` on, in
/// declaration order, or the first body's grammar error.
pub open spec fn spec_extract(fields: Seq<FieldView>, i: int) -> Result<Seq<ChoiceView>, Error>
    decreases fields.len() - i,
{
    if i < 0 || i >= fields.len() {
        Ok(Seq::empty())
    } else {
        let rest = spec_extract(fields, i + 1);
        match fields[i].ty {
            FieldTypeView::Plain(_) => rest,
            FieldTypeView::Marker { path, body } => {
                if !is_marker_path(path) {
                    rest
                } else {
                    match spec_parse_choice(spec_tokenize(body)) {
                        Err(e) => Err(e),
                        Ok(cands) => match rest {
                            Err(e) => Err(e),
                            Ok(cs) => Ok(
                                seq![
                                    (ChoiceView {
                                        field_index: i,
                                        key: spec_field_key(fields[i].name, i),
                                        candidates: cands,
                                    }),
                                ] + cs,
                            ),
                        },
                    }
                }
            },
        }
    }
}

/// What extraction guarantees of its descriptors: indices stand in range
/// in strictly increasing field order, every candidate set is non-empty,
/// and every key is the field's key.
pub proof fn lemma_extract_props(fields: Seq<FieldView>, i: int, cs: Seq<ChoiceView>)
    requires
        0 <= i <= fields.len(),
        spec_extract(fields, i) == Result::<Seq<ChoiceView>, Error>::Ok(cs),
    ensures
        cs.len() <= fields.len() - i,
        forall|j: int| 0 <= j < cs.len() ==> i + j <= #[trigger] cs[j].field_index < fields.len(),
        forall|j: int| 0 <= j < cs.len() ==> #[trigger] cs[j].candidates.len() >= 1,
        forall|j: int|
            0 <= j < cs.len() ==> #[trigger] cs[j].key == spec_field_key(
                fields[cs[j].field_index].name,
                cs[j].field_index,
            ),
        forall|a: int, b: int|
            0 <= a < b < cs.len() ==> #[trigger] cs[a].field_index < #[trigger] cs[b].field_index,
    decreases fields.len() - i,
{
    if i < fields.len() {
        match fields[i].ty {
            FieldTypeView::Plain(_) => {
                lemma_extract_props(fields, i + 1, cs);
            },
            FieldTypeView::Marker { path, body } => {
                if !is_marker_path(path) {
                    lemma_extract_props(fields, i + 1, cs);
                } else {
                    match spec_parse_choice(spec_tokenize(body)) {
                        Err(_) => {},
                        Ok(cands) => {
                            let rest = spec_extract(fields, i + 1);
                            match rest {
                                Err(_) => {},
                                Ok(tail) => {
                                    lemma_extract_props(fields, i + 1, tail);
                                    assert(cs[0].candidates == cands);
                                    lemma_choice_nonempty(spec_tokenize(body), cands);
                                    assert forall|j: int| 1 <= j < cs.len() implies cs[j]
                                        == tail[j - 1] by {}
                                },
                            }
                        },
                    }
                }
            },
        }
    }
}

/// A successfully parsed choice expression has at least one candidate.
pub proof fn lemma_choice_nonempty(toks: Seq<Seq<char>>, cands: Seq<Seq<char>>)
    requires
        spec_parse_choice(toks) == Result::<Seq<Seq<char>>, Error>::Ok(cands),
    ensures
        cands.len() >= 1,
{
}

/// Extracts the choice-field descriptors of a template, from field `i` on.
pub fn extract_choices(t: &Template, i: usize) -> (r: Result<Vec<Choice>, Error>)
    requires
        i <= t.fields@.len(),
    ensures
        (match spec_extract(t@.fields, i as int) {
            Ok(cs) => r matches Ok(v) && v.deep_view() == cs,
            Err(e) => r matches Err(x) && x == e,
        }),
    decreases t.fields@.len() - i,
{
    if i == t.fields.len() {
        let v: Vec<Choice> = Vec::new();
        assert(v.deep_view() =~= Seq::<ChoiceView>::empty());
        return Ok(v);
    }
    assert(t@.fields[i as int] == t.fields@[i as int]@);
    match &t.fields[i].ty {
        crate::ast::FieldType::Plain(_) => extract_choices(t, i + 1),
        crate::ast::FieldType::Marker { path, body } => {
            if !marker_path(path) {
                return extract_choices(t, i + 1);
            }
            let toks = tokenize(body);
            match crate::parse::parse_choice(&toks) {
                Err(e) => Err(e),
                Ok(cands) => {
                    match extract_choices(t, i + 1) {
                        Err(e) => Err(e),
                        Ok(mut v) => {
                            let key: Vec<char>;
                            match &t.fields[i].name {
                                Some(n) => {
                                    key = copy_text(n);
                                },
                                None => {
                                    let mut k: Vec<char> = Vec::new();
                                    k.push('_');
                                    let d = dec_chars(i);
                                    crate::token::append_text(&mut k, &d);
                                    assert(k@ =~= seq!['_'] + spec_dec(i as nat));
                                    key = k;
                                },
                            }
                            let c = Choice { field_index: i, key, candidates: cands };
                            let ghost cv = c@;
                            let ghost vdv = v.deep_view();
                            v.insert(0, c);
                            assert(v.deep_view() =~~= seq![cv] + vdv);
                            assert(cv == (spec_extract(t@.fields, i as int)->Ok_0)[0]);
                            Ok(v)
                        },
                    }
                },
            }
        },
    }
}

} // verus!
