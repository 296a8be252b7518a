//! The derivation resolver.
//!
//! For each derivation and each choice field, in field order: an absent or
//! wildcard binding resolves to the first-listed candidate (the declared
//! default); a bound type resolves to itself exactly when it stands in the
//! candidate set, and fails resolution otherwise.  A binding whose key is
//! no choice field of the template is rejected after the fields resolve.

use vstd::prelude::*;
use crate::ast::{Bind, BindView, Binding, BindingView, Derivation, DerivationView, Choice,
    ChoiceView, Error, ErrorView};
use crate::names::texts_contain;
use crate::text::{copy_text, text_eq};
use crate::token::copy_token_range;

verus! {

broadcast use {crate::token::lemma_text_vec_deep_view, crate::text::lemma_chars_deep_view};

/// What a derivation binds `key` to: the first binding with that key, if
/// any.
pub open spec fn spec_lookup(binds: Seq<BindingView>, key: Seq<char>) -> Option<BindView>
    decreases binds.len(),
{
    if binds.len() == 0 {
        None
    } else if binds[0].key == key {
        Some(binds[0].bind)
    } else {
        spec_lookup(binds.drop_first(), key)
    }
}

/// The outcome of resolving one field.
pub enum FieldOutcome {
    /// The field resolves to this type.
    Picked(Seq<char>),
    /// The field was bound to this type, which is no candidate.
    Clash(Seq<char>),
}

/// Resolution of one field: lookup, then wildcard, then default; a bound
/// type must stand in the candidate set.
pub open spec fn spec_resolve_field(
    binds: Seq<BindingView>,
    key: Seq<char>,
    cands: Seq<Seq<char>>,
) -> FieldOutcome {
    match spec_lookup(binds, key) {
        None => FieldOutcome::Picked(cands[0]),
        Some(BindView::Wildcard) => FieldOutcome::Picked(cands[0]),
        Some(BindView::Chosen(t)) => if cands.contains(t) {
            FieldOutcome::Picked(t)
        } else {
            FieldOutcome::Clash(t)
        },
    }
}

/// The outcome of resolving a whole derivation's fields.
pub enum ResolutionOutcome {
    /// Every field resolved, to these types, in field order.
    Done(Seq<Seq<char>>),
    /// Field `at` (a choice ordinal) was bound to `offending`, which is no
    /// candidate of it; fields before `at` resolved.
    Failed { at: int, offending: Seq<char> },
}

/// Resolution of the choice fields from ordinal `i` on, stopping at the
/// first failure.
pub open spec fn spec_resolve_from(
    binds: Seq<BindingView>,
    choices: Seq<ChoiceView>,
    i: int,
) -> ResolutionOutcome
    decreases choices.len() - i,
{
    if i < 0 || i >= choices.len() {
        ResolutionOutcome::Done(Seq::empty())
    } else {
        match spec_resolve_field(binds, choices[i].key, choices[i].candidates) {
            FieldOutcome::Clash(t) => ResolutionOutcome::Failed { at: i, offending: t },
            FieldOutcome::Picked(t) => match spec_resolve_from(binds, choices, i + 1) {
                ResolutionOutcome::Failed { at, offending } => (ResolutionOutcome::Failed {
                    at,
                    offending,
                }),
                ResolutionOutcome::Done(rest) => ResolutionOutcome::Done(seq![t] + rest),
            },
        }
    }
}

/// Whether some choice field carries `key`.
pub open spec fn choice_key_exists(choices: Seq<ChoiceView>, key: Seq<char>) -> bool {
    exists|j: int| 0 <= j < choices.len() && choices[j].key == key
}

/// The first binding, from position `i` on, whose key is no choice field.
pub open spec fn spec_first_stray(
    binds: Seq<BindingView>,
    choices: Seq<ChoiceView>,
    i: int,
) -> Option<int>
    decreases binds.len() - i,
{
    if i < 0 || i >= binds.len() {
        None
    } else if !choice_key_exists(choices, binds[i].key) {
        Some(i)
    } else {
        spec_first_stray(binds, choices, i + 1)
    }
}

/// Resolution of one whole derivation: every field in field order, then
/// the check that no binding names an unknown key.
pub open spec fn spec_resolve_derivation(d: DerivationView, choices: Seq<ChoiceView>) -> Result<
    Seq<Seq<char>>,
    ErrorView,
> {
    match spec_resolve_from(d.binds, choices, 0) {
        ResolutionOutcome::Failed { at, offending } => Err(
            ErrorView::TypeNotInCandidateSet {
                derivation: d.name,
                field: choices[at].key,
                offending,
                candidates: choices[at].candidates,
            },
        ),
        ResolutionOutcome::Done(tys) => match spec_first_stray(d.binds, choices, 0) {
            Some(j) => Err(ErrorView::UnknownFieldKey { derivation: d.name, field: d.binds[j].key }),
            None => Ok(tys),
        },
    }
}

/// Finds the first binding with the given key, from position `i` on.
fn lookup(binds: &Vec<Binding>, key: &Vec<char>, i: usize) -> (r: Option<usize>)
    requires
        i <= binds@.len(),
    ensures
        (match spec_lookup(binds.deep_view().skip(i as int), key@) {
            None => r is None,
            Some(b) => r matches Some(k) && i <= k < binds@.len() && binds@[k as int]@.bind == b
                && binds@[k as int]@.key == key@,
        }),
    decreases binds@.len() - i,
{
    let ghost rest = binds.deep_view().skip(i as int);
    if i == binds.len() {
        return None;
    }
    assert(rest[0] == binds.deep_view()[i as int]);
    assert(binds.deep_view()[i as int] == binds@[i as int]@);
    if text_eq(&binds[i].key, key) {
        Some(i)
    } else {
        assert(rest.drop_first() =~= binds.deep_view().skip(i + 1));
        lookup(binds, key, i + 1)
    }
}

/// Resolves every choice field of one derivation and checks its binding
/// keys, in the order the specification functions say.
pub fn resolve_derivation(d: &Derivation, choices: &Vec<Choice>) -> (r: Result<
    Vec<Vec<char>>,
    Error,
>)
    requires
        forall|j: int| 0 <= j < choices@.len() ==> #[trigger] choices@[j].candidates@.len() >= 1,
    ensures
        (match spec_resolve_derivation(d@, choices.deep_view()) {
            Ok(tys) => r matches Ok(v) && v.deep_view() == tys && v@.len() == choices@.len(),
            Err(e) => r matches Err(x) && x@ == e,
        }),
{
    let ghost bdv = d@.binds;
    let ghost cdv = choices.deep_view();
    let mut out: Vec<Vec<char>> = Vec::new();
    let mut i: usize = 0;
    assert(bdv.skip(0) =~= bdv);
    while i < choices.len()
        invariant
            i <= choices@.len(),
            out@.len() == i,
            (match spec_resolve_from(bdv, cdv, i as int) {
                ResolutionOutcome::Done(rest) => spec_resolve_from(bdv, cdv, 0)
                    == ResolutionOutcome::Done(out.deep_view() + rest),
                ResolutionOutcome::Failed { at, offending } => spec_resolve_from(bdv, cdv, 0)
                    == (ResolutionOutcome::Failed { at, offending }),
            }),
        decreases choices@.len() - i,
    {
        assert(cdv[i as int] == choices@[i as int]@);
        let c = &choices[i];
        let ghost odv0 = out.deep_view();
        match lookup(&d.binds, &c.key, 0) {
            None => {
                let t = copy_text(&c.candidates[0]);
                let ghost tv = t@;
                assert(tv == cdv[i as int].candidates[0]);
                out.push(t);
                assert(out.deep_view() =~~= odv0.push(tv));
            },
            Some(k) => {
                match &d.binds[k].bind {
                    Bind::Wildcard => {
                        let t = copy_text(&c.candidates[0]);
                        let ghost tv = t@;
                        assert(tv == cdv[i as int].candidates[0]);
                        out.push(t);
                        assert(out.deep_view() =~~= odv0.push(tv));
                    },
                    Bind::Chosen(bt) => {
                        if texts_contain(&c.candidates, bt) {
                            let t = copy_text(bt);
                            let ghost tv = t@;
                            out.push(t);
                            assert(out.deep_view() =~~= odv0.push(tv));
                        } else {
                            assert(spec_resolve_field(bdv, cdv[i as int].key, cdv[i as int].candidates)
                                == FieldOutcome::Clash(bt@));
                            let cands = copy_token_range(&c.candidates, 0, c.candidates.len());
                            assert(cands.deep_view() =~= cdv[i as int].candidates);
                            let e = Error::TypeNotInCandidateSet {
                                derivation: copy_text(&d.name),
                                field: copy_text(&c.key),
                                offending: copy_text(bt),
                                candidates: cands,
                            };
                            assert(e@ == (ErrorView::TypeNotInCandidateSet {
                                derivation: d@.name,
                                field: cdv[i as int].key,
                                offending: bt@,
                                candidates: cdv[i as int].candidates,
                            }));
                            return Err(e);
                        }
                    },
                }
            },
        }
        proof {
            let out_now = out.deep_view();
            match spec_resolve_from(bdv, cdv, i + 1) {
                ResolutionOutcome::Done(rest) => {
                    assert(odv0.push(out_now[i as int]) + rest =~= odv0 + (seq![out_now[i as int]]
                        + rest));
                },
                ResolutionOutcome::Failed { at, offending } => {},
            }
        }
        i = i + 1;
    }
    assert(spec_resolve_from(bdv, cdv, choices@.len() as int) == ResolutionOutcome::Done(
        Seq::<Seq<char>>::empty(),
    ));
    assert(out.deep_view() + Seq::<Seq<char>>::empty() =~= out.deep_view());
    assert(spec_resolve_from(bdv, cdv, 0) == ResolutionOutcome::Done(out.deep_view()));
    // every field resolved; now reject a binding whose key no choice field carries
    let mut b: usize = 0;
    assert(spec_first_stray(bdv, cdv, 0) == spec_first_stray(bdv, cdv, b as int));
    while b < d.binds.len()
        invariant
            b <= d.binds@.len(),
            spec_resolve_from(bdv, cdv, 0) == ResolutionOutcome::Done(out.deep_view()),
            out@.len() == choices@.len(),
            spec_first_stray(bdv, cdv, 0) == spec_first_stray(bdv, cdv, b as int),
        decreases d.binds@.len() - b,
    {
        assert(bdv[b as int] == d.binds@[b as int]@);
        let mut j: usize = 0;
        let mut found = false;
        while j < choices.len()
            invariant
                j <= choices@.len(),
                b < d.binds@.len(),
                bdv[b as int] == d.binds@[b as int]@,
                found <==> exists|q: int| 0 <= q < j && cdv[q].key == bdv[b as int].key,
            decreases choices@.len() - j,
        {
            assert(cdv[j as int] == choices@[j as int]@);
            if text_eq(&choices[j].key, &d.binds[b].key) {
                found = true;
                assert(cdv[j as int].key == bdv[b as int].key);
            }
            j = j + 1;
        }
        assert(found == choice_key_exists(cdv, bdv[b as int].key));
        if !found {
            assert(spec_first_stray(bdv, cdv, b as int) == Some(b as int));
            let e = Error::UnknownFieldKey {
                derivation: copy_text(&d.name),
                field: copy_text(&d.binds[b].key),
            };
            assert(e@ == (ErrorView::UnknownFieldKey {
                derivation: d@.name,
                field: bdv[b as int].key,
            }));
            return Err(e);
        }
        b = b + 1;
    }
    assert(spec_first_stray(bdv, cdv, d.binds@.len() as int) is None);
    Ok(out)
}

/// A derivation that omits a field, or binds it to the wildcard, resolves
/// that field to its first-listed candidate — the declared default.
pub proof fn lemma_default_resolution(
    binds: Seq<BindingView>,
    choices: Seq<ChoiceView>,
    tys: Seq<Seq<char>>,
    i: int,
)
    requires
        spec_resolve_from(binds, choices, 0) == ResolutionOutcome::Done(tys),
        0 <= i < choices.len(),
        spec_lookup(binds, choices[i].key) is None || spec_lookup(binds, choices[i].key) == Some(
            BindView::Wildcard,
        ),
    ensures
        tys.len() == choices.len(),
        tys[i] == choices[i].candidates[0],
{
    lemma_resolution_pointwise(binds, choices, tys, 0);
}

/// When resolution of every field succeeds, it yields one type per choice
/// field: the bound type where a candidate is bound, and the default
/// candidate where the field is unbound or bound to the wildcard.
pub proof fn lemma_resolution_pointwise(
    binds: Seq<BindingView>,
    choices: Seq<ChoiceView>,
    tys: Seq<Seq<char>>,
    i: int,
)
    requires
        0 <= i <= choices.len(),
        spec_resolve_from(binds, choices, i) == ResolutionOutcome::Done(tys),
    ensures
        tys.len() == choices.len() - i,
        forall|j: int|
            i <= j < choices.len() ==> spec_resolve_field(binds, choices[j].key, choices[j].candidates)
                == FieldOutcome::Picked(tys[j - i]),
    decreases choices.len() - i,
{
    if i < choices.len() {
        match spec_resolve_field(binds, choices[i].key, choices[i].candidates) {
            FieldOutcome::Clash(_) => {},
            FieldOutcome::Picked(t) => {
                match spec_resolve_from(binds, choices, i + 1) {
                    ResolutionOutcome::Failed { .. } => {},
                    ResolutionOutcome::Done(rest) => {
                        lemma_resolution_pointwise(binds, choices, rest, i + 1);
                        assert(tys == seq![t] + rest);
                        assert(tys[0] == t);
                        assert forall|j: int| i + 1 <= j < choices.len() implies spec_resolve_field(
                            binds,
                            choices[j].key,
                            choices[j].candidates,
                        ) == FieldOutcome::Picked(tys[j - i]) by {
                            assert(tys[j - i] == rest[j - (i + 1)]);
                        }
                    },
                }
            },
        }
    }
}

/// A derivation that binds a choice field to a type outside that field's
/// candidate set fails resolution — with exactly that derivation name,
/// that field's key, the offending type, and that field's candidate set —
/// provided every choice field before it resolves.
pub proof fn lemma_clash_reported(d: DerivationView, choices: Seq<ChoiceView>, i: int, t: Seq<char>)
    requires
        0 <= i < choices.len(),
        spec_lookup(d.binds, choices[i].key) == Some(BindView::Chosen(t)),
        !choices[i].candidates.contains(t),
        forall|j: int|
            0 <= j < i ==> #[trigger] spec_resolve_field(
                d.binds,
                choices[j].key,
                choices[j].candidates,
            ) is Picked,
    ensures
        spec_resolve_derivation(d, choices) == Result::<Seq<Seq<char>>, ErrorView>::Err(
            ErrorView::TypeNotInCandidateSet {
                derivation: d.name,
                field: choices[i].key,
                offending: t,
                candidates: choices[i].candidates,
            },
        ),
{
    lemma_clash_from(d.binds, choices, i, t, 0);
}

/// The type a clashing field was bound to.
pub open spec fn clash_ty(o: FieldOutcome) -> Seq<char> {
    match o {
        FieldOutcome::Picked(t) => t,
        FieldOutcome::Clash(t) => t,
    }
}

/// A derivation that binds any choice field to a type outside that
/// field's candidate set never resolves: the failure names the
/// derivation, the first such field's key, its offending type, and its
/// exact candidate set.
pub proof fn lemma_resolution_fails_on_bad_binding(
    d: DerivationView,
    choices: Seq<ChoiceView>,
    i: int,
)
    requires
        0 <= i < choices.len(),
        spec_resolve_field(d.binds, choices[i].key, choices[i].candidates) is Clash,
    ensures
        spec_resolve_derivation(d, choices) is Err,
        exists|j: int|
            #![trigger choices[j]]
            0 <= j <= i && spec_resolve_field(d.binds, choices[j].key, choices[j].candidates)
                is Clash && spec_resolve_derivation(d, choices) == Result::<
                Seq<Seq<char>>,
                ErrorView,
            >::Err(
                ErrorView::TypeNotInCandidateSet {
                    derivation: d.name,
                    field: choices[j].key,
                    offending: clash_ty(
                        spec_resolve_field(d.binds, choices[j].key, choices[j].candidates),
                    ),
                    candidates: choices[j].candidates,
                },
            ),
{
    lemma_first_clash(d.binds, choices, 0, i);
    let r = spec_resolve_from(d.binds, choices, 0);
    match r {
        ResolutionOutcome::Done(_) => {},
        ResolutionOutcome::Failed { at, offending } => {
            assert(0 <= at <= i && spec_resolve_field(d.binds, choices[at].key, choices[at].candidates)
                is Clash && spec_resolve_derivation(d, choices) == Result::<
                Seq<Seq<char>>,
                ErrorView,
            >::Err(
                ErrorView::TypeNotInCandidateSet {
                    derivation: d.name,
                    field: choices[at].key,
                    offending: clash_ty(
                        spec_resolve_field(d.binds, choices[at].key, choices[at].candidates),
                    ),
                    candidates: choices[at].candidates,
                },
            ));
        },
    }
}

/// Some field at or past `k` clashes, so resolution from `k` fails at the
/// first such field.
proof fn lemma_first_clash(binds: Seq<BindingView>, choices: Seq<ChoiceView>, k: int, i: int)
    requires
        0 <= k <= i < choices.len(),
        spec_resolve_field(binds, choices[i].key, choices[i].candidates) is Clash,
    ensures
        spec_resolve_from(binds, choices, k) matches ResolutionOutcome::Failed { at, offending }
            && k <= at <= i && spec_resolve_field(binds, choices[at].key, choices[at].candidates)
            == FieldOutcome::Clash(offending),
    decreases choices.len() - k,
{
    match spec_resolve_field(binds, choices[k].key, choices[k].candidates) {
        FieldOutcome::Clash(_) => {},
        FieldOutcome::Picked(_) => {
            lemma_first_clash(binds, choices, k + 1, i);
        },
    }
}

/// Helper for [`lemma_clash_reported`]: the first clash is reported from
/// any starting ordinal at or before it.
proof fn lemma_clash_from(
    binds: Seq<BindingView>,
    choices: Seq<ChoiceView>,
    i: int,
    t: Seq<char>,
    k: int,
)
    requires
        0 <= k <= i < choices.len(),
        spec_lookup(binds, choices[i].key) == Some(BindView::Chosen(t)),
        !choices[i].candidates.contains(t),
        forall|j: int|
            0 <= j < i ==> #[trigger] spec_resolve_field(
                binds,
                choices[j].key,
                choices[j].candidates,
            ) is Picked,
    ensures
        spec_resolve_from(binds, choices, k) == (ResolutionOutcome::Failed {
            at: i,
            offending: t,
        }),
    decreases choices.len() - k,
{
    if k < i {
        lemma_clash_from(binds, choices, i, t, k + 1);
    }
}

} // verus!
