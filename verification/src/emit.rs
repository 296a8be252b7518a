//! The emitter.
//!
//! Alias mode rewrites the template once — every choice field's type
//! becomes a freshly synthesized type parameter — and emits one type alias
//! per derivation.  Struct-generation mode emits one independent record
//! definition per derivation and, unless the delete setting is on, the
//! template itself (with each choice field holding its default candidate)
//! after them.  The first resolution failure stops the run, keeping what
//! was already emitted alongside the diagnostic.

use vstd::prelude::*;
use crate::ast::{Template, TemplateView, ParamView, FieldTypeView, FieldType, StructField,
    StructFieldView, StructDef, StructDefView, AliasDef, AliasDefView, OutputItem, OutputItemView,
    Output, OutputView, Choice, ChoiceView, Derivation, DerivationView, Settings, Error, ErrorView,
    Vis};
use crate::text::copy_text;
use crate::token::{spec_join_path, join_path, copy_token_range, append_text};
use crate::resolve::{spec_resolve_derivation, resolve_derivation};
use crate::names::{synth_chain, names_of_idxs, synth_names};
use crate::extract::{spec_extract, lemma_extract_props};

verus! {

broadcast use {crate::token::lemma_text_vec_deep_view, crate::text::lemma_chars_deep_view};

/// The emitted text of a field's declared type: plain text as written, a
/// macro-shaped type as `path!(body)`.
pub open spec fn spec_render_field_ty(ft: FieldTypeView) -> Seq<char> {
    match ft {
        FieldTypeView::Plain(t) => t,
        FieldTypeView::Marker { path, body } => spec_join_path(path) + seq!['!', '('] + body + seq![
            ')',
        ],
    }
}

/// Renders a field's declared type.
fn render_field_ty(ft: &FieldType) -> (r: Vec<char>)
    ensures
        r@ == spec_render_field_ty(ft@),
{
    match ft {
        FieldType::Plain(t) => copy_text(t),
        FieldType::Marker { path, body } => {
            let mut r = join_path(path);
            r.push('!');
            r.push('(');
            append_text(&mut r, body);
            r.push(')');
            assert(r@ =~= spec_render_field_ty(ft@));
            r
        },
    }
}

/// The ordinal in `choices` of the choice field at template position `i`,
/// searching from ordinal `j` on.
pub open spec fn spec_choice_at(choices: Seq<ChoiceView>, i: int, j: int) -> Option<int>
    decreases choices.len() - j,
{
    if j < 0 || j >= choices.len() {
        None
    } else if choices[j].field_index == i {
        Some(j)
    } else {
        spec_choice_at(choices, i, j + 1)
    }
}

/// Finds the choice ordinal of field `i`, from ordinal `j` on.
fn choice_at(choices: &Vec<Choice>, i: usize, j: usize) -> (r: Option<usize>)
    requires
        j <= choices@.len(),
    ensures
        (match spec_choice_at(choices.deep_view(), i as int, j as int) {
            None => r is None,
            Some(q) => r matches Some(k) && k as int == q && k < choices@.len(),
        }),
    decreases choices@.len() - j,
{
    if j == choices.len() {
        return None;
    }
    assert(choices.deep_view()[j as int] == choices@[j as int]@);
    if choices[j].field_index == i {
        Some(j)
    } else {
        choice_at(choices, i, j + 1)
    }
}

/// The declaration texts of a template's pre-existing parameters.
pub open spec fn param_decls(t: TemplateView) -> Seq<Seq<char>> {
    t.params.map_values(|p: ParamView| p.decl)
}

/// The bare names of a template's pre-existing parameters.
pub open spec fn param_names(t: TemplateView) -> Seq<Seq<char>> {
    t.params.map_values(|p: ParamView| p.name)
}

/// Collects the parameter declaration texts.
fn collect_param_decls(t: &Template) -> (r: Vec<Vec<char>>)
    ensures
        r.deep_view() == param_decls(t@),
{
    let mut r: Vec<Vec<char>> = Vec::new();
    let mut i: usize = 0;
    while i < t.params.len()
        invariant
            i <= t.params@.len(),
            r.deep_view() =~= param_decls(t@).subrange(0, i as int),
        decreases t.params@.len() - i,
    {
        let ghost rdv0 = r.deep_view();
        let d = copy_text(&t.params[i].decl);
        let ghost dv = d@;
        r.push(d);
        assert(r.deep_view() =~~= rdv0.push(dv));
        assert(t@.params[i as int] == t.params@[i as int]@);
        assert(r.deep_view() =~= param_decls(t@).subrange(0, i + 1));
        i = i + 1;
    }
    assert(r.deep_view() =~= param_decls(t@));
    r
}

/// Collects the bare parameter names.
pub fn collect_param_names(t: &Template) -> (r: Vec<Vec<char>>)
    ensures
        r.deep_view() == param_names(t@),
{
    let mut r: Vec<Vec<char>> = Vec::new();
    let mut i: usize = 0;
    while i < t.params.len()
        invariant
            i <= t.params@.len(),
            r.deep_view() =~= param_names(t@).subrange(0, i as int),
        decreases t.params@.len() - i,
    {
        let ghost rdv0 = r.deep_view();
        let d = copy_text(&t.params[i].name);
        let ghost dv = d@;
        r.push(d);
        assert(r.deep_view() =~~= rdv0.push(dv));
        assert(t@.params[i as int] == t.params@[i as int]@);
        assert(r.deep_view() =~= param_names(t@).subrange(0, i + 1));
        i = i + 1;
    }
    assert(r.deep_view() =~= param_names(t@));
    r
}

/// Copies a visibility.
fn copy_vis(v: &Vis) -> (r: Vis)
    ensures
        r@ == v@,
{
    match v {
        Vis::Inherited => Vis::Inherited,
        Vis::Public => Vis::Public,
        Vis::Restricted(t) => Vis::Restricted(copy_text(t)),
    }
}

/// Copies a list of texts.
fn copy_texts(v: &Vec<Vec<char>>) -> (r: Vec<Vec<char>>)
    ensures
        r.deep_view() == v.deep_view(),
{
    let r = copy_token_range(v, 0, v.len());
    assert(r.deep_view() =~= v.deep_view());
    r
}

// ------------------------------------------------------------- alias mode

/// The rewritten template of alias mode: the pre-existing parameter
/// declarations followed by the synthesized names, and each choice field's
/// type replaced by its synthesized parameter.
pub open spec fn spec_rewritten_template(
    t: TemplateView,
    choices: Seq<ChoiceView>,
    ns: Seq<Seq<char>>,
) -> StructDefView {
    StructDefView {
        name: t.name,
        vis: t.vis,
        params: param_decls(t) + ns,
        kind: t.kind,
        fields: Seq::new(
            t.fields.len(),
            |i: int|
                StructFieldView {
                    name: t.fields[i].name,
                    ty: match spec_choice_at(choices, i, 0) {
                        Some(j) => ns[j],
                        None => spec_render_field_ty(t.fields[i].ty),
                    },
                },
        ),
    }
}

/// The alias one successfully resolved derivation yields: its own
/// parameter list is the template's original one, and it instantiates the
/// rewritten template with the original parameters followed by the
/// resolved types in field order.
pub open spec fn spec_alias_for(
    t: TemplateView,
    d: DerivationView,
    tys: Seq<Seq<char>>,
) -> AliasDefView {
    AliasDefView {
        name: d.name,
        vis: d.vis,
        params: param_decls(t),
        target: t.name,
        args: param_names(t) + tys,
    }
}

/// Builds the rewritten template.
fn build_rewritten_template(t: &Template, choices: &Vec<Choice>, ns: &Vec<Vec<char>>) -> (r:
    StructDef)
    requires
        ns@.len() == choices@.len(),
    ensures
        r@ == spec_rewritten_template(t@, choices.deep_view(), ns.deep_view()),
{
    let ghost cdv = choices.deep_view();
    let ghost nsdv = ns.deep_view();
    let mut params = collect_param_decls(t);
    let ghost pdv0 = params.deep_view();
    let more = copy_texts(ns);
    let mut q: usize = 0;
    let ghost before = params.deep_view();
    while q < more.len()
        invariant
            q <= more@.len(),
            more.deep_view() == nsdv,
            params.deep_view() =~= before + nsdv.subrange(0, q as int),
        decreases more@.len() - q,
    {
        let ghost pdv = params.deep_view();
        let e = copy_text(&more[q]);
        let ghost ev = e@;
        params.push(e);
        assert(params.deep_view() =~~= pdv.push(ev));
        assert(ev == nsdv[q as int]);
        assert(params.deep_view() =~= before + nsdv.subrange(0, q + 1));
        q = q + 1;
    }
    assert(params.deep_view() =~= param_decls(t@) + nsdv);
    let mut fields: Vec<StructField> = Vec::new();
    let mut i: usize = 0;
    let ghost goal = spec_rewritten_template(t@, cdv, nsdv).fields;
    while i < t.fields.len()
        invariant
            i <= t.fields@.len(),
            goal == spec_rewritten_template(t@, cdv, nsdv).fields,
            fields.deep_view() =~= goal.subrange(0, i as int),
            ns@.len() == choices@.len(),
        decreases t.fields@.len() - i,
    {
        assert(t@.fields[i as int] == t.fields@[i as int]@);
        let name: Option<Vec<char>> = match &t.fields[i].name {
            Some(n) => Some(copy_text(n)),
            None => None,
        };
        proof {
            lemma_choice_at_bounds(cdv, i as int, 0);
        }
        let ty: Vec<char> = match choice_at(choices, i, 0) {
            Some(j) => copy_text(&ns[j]),
            None => render_field_ty(&t.fields[i].ty),
        };
        let f = StructField { name, ty };
        let ghost fv = f@;
        let ghost fdv0 = fields.deep_view();
        fields.push(f);
        assert(fields.deep_view() =~~= fdv0.push(fv));
        assert(fv == goal[i as int]);
        assert(fields.deep_view() =~= goal.subrange(0, i + 1));
        i = i + 1;
    }
    assert(fields.deep_view() =~= goal);
    let r = StructDef {
        name: copy_text(&t.name),
        vis: copy_vis(&t.vis),
        params,
        kind: t.kind,
        fields,
    };
    r
}

/// A found choice ordinal stands in range.
proof fn lemma_choice_at_bounds(choices: Seq<ChoiceView>, i: int, j: int)
    requires
        0 <= j <= choices.len(),
    ensures
        spec_choice_at(choices, i, j) matches Some(q) ==> j <= q < choices.len()
            && choices[q].field_index == i,
    decreases choices.len() - j,
{
    if j < choices.len() && choices[j].field_index != i {
        lemma_choice_at_bounds(choices, i, j + 1);
    }
}

/// Builds the alias of one resolved derivation.
fn build_alias(t: &Template, d: &Derivation, tys: &Vec<Vec<char>>) -> (r: AliasDef)
    ensures
        r@ == spec_alias_for(t@, d@, tys.deep_view()),
{
    let ghost tysdv = tys.deep_view();
    let params = collect_param_decls(t);
    let mut args = collect_param_names(t);
    let ghost before = args.deep_view();
    let mut q: usize = 0;
    while q < tys.len()
        invariant
            q <= tys@.len(),
            args.deep_view() =~= before + tysdv.subrange(0, q as int),
        decreases tys@.len() - q,
    {
        let ghost adv = args.deep_view();
        let e = copy_text(&tys[q]);
        let ghost ev = e@;
        args.push(e);
        assert(args.deep_view() =~~= adv.push(ev));
        assert(ev == tysdv[q as int]);
        assert(args.deep_view() =~= before + tysdv.subrange(0, q + 1));
        q = q + 1;
    }
    assert(args.deep_view() =~= param_names(t@) + tysdv);
    AliasDef {
        name: copy_text(&d.name),
        vis: copy_vis(&d.vis),
        params,
        target: copy_text(&t.name),
        args,
    }
}

/// The aliases of the derivations from index `i` on, stopping at the
/// first resolution failure, whose diagnostic is handed back beside them.
pub open spec fn spec_alias_items(
    t: TemplateView,
    choices: Seq<ChoiceView>,
    ds: Seq<DerivationView>,
    i: int,
) -> (Seq<OutputItemView>, Option<ErrorView>)
    decreases ds.len() - i,
{
    if i < 0 || i >= ds.len() {
        (Seq::empty(), None)
    } else {
        match spec_resolve_derivation(ds[i], choices) {
            Err(e) => (Seq::empty(), Some(e)),
            Ok(tys) => {
                let rest = spec_alias_items(t, choices, ds, i + 1);
                (seq![OutputItemView::Alias(spec_alias_for(t, ds[i], tys))] + rest.0, rest.1)
            },
        }
    }
}

/// Alias-mode output: the rewritten template always, then the aliases up
/// to the first failure.
pub open spec fn spec_gen_types(
    t: TemplateView,
    choices: Seq<ChoiceView>,
    ns: Seq<Seq<char>>,
    ds: Seq<DerivationView>,
) -> OutputView {
    let rest = spec_alias_items(t, choices, ds, 0);
    OutputView {
        items: seq![OutputItemView::Definition(spec_rewritten_template(t, choices, ns))] + rest.0,
        diagnostic: rest.1,
    }
}

/// Alias mode: rewrites the template over fresh parameter names and emits
/// one alias per derivation, in order, stopping at the first resolution
/// failure but keeping what was already emitted.
pub fn gen_types(t: &Template, choices: &Vec<Choice>, derivations: &Vec<Derivation>) -> (r: Output)
    requires
        spec_extract(t@.fields, 0) == Result::<Seq<ChoiceView>, Error>::Ok(choices.deep_view()),
        (t@.fields.len() as int) * (t@.params.len() as int + 1) < usize::MAX as int,
    ensures
        exists|idxs: Seq<nat>|
            synth_chain(param_names(t@), idxs, choices@.len() as int) && r@ == spec_gen_types(
                t@,
                choices.deep_view(),
                names_of_idxs(idxs),
                derivations.deep_view(),
            ),
{
    let ghost cdv = choices.deep_view();
    let ghost ddv = derivations.deep_view();
    proof {
        lemma_extract_props(t@.fields, 0, cdv);
        assert((choices@.len() as int) * (t@.params.len() as int + 1) <= (t@.fields.len() as int) * (
        t@.params.len() as int + 1)) by (nonlinear_arith)
            requires
                choices@.len() as int <= t@.fields.len() as int,
                t@.params.len() as int + 1 >= 0,
        ;
    }
    assert forall|j: int| 0 <= j < choices@.len() implies #[trigger] choices@[j].candidates@.len()
        >= 1 by {
        assert(cdv[j] == choices@[j]@);
        assert(cdv[j].candidates.len() == choices@[j].candidates@.len());
    }
    let pnames = collect_param_names(t);
    assert(pnames.deep_view().len() == pnames@.len());
    assert(param_names(t@).len() == t@.params.len());
    let ns = synth_names(&pnames, choices.len());
    assert(ns@.len() == choices@.len());
    let ghost nsdv = ns.deep_view();
    let ghost idxs = choose|idxs: Seq<nat>|
        synth_chain(pnames.deep_view(), idxs, choices@.len() as int) && ns.deep_view()
            == names_of_idxs(idxs);
    let rewr = build_rewritten_template(t, choices, &ns);
    let mut items: Vec<OutputItem> = Vec::new();
    let ghost rv = rewr@;
    items.push(OutputItem::Definition(rewr));
    assert(items.deep_view() =~~= seq![OutputItemView::Definition(rv)]);
    let mut i: usize = 0;
    while i < derivations.len()
        invariant
            i <= derivations@.len(),
            items@.len() == 1 + i,
            cdv == choices.deep_view(),
            ddv == derivations.deep_view(),
            nsdv == ns.deep_view(),
            items.deep_view()[0] == OutputItemView::Definition(
                spec_rewritten_template(t@, cdv, nsdv),
            ),
            spec_alias_items(t@, cdv, ddv, 0).0 =~= items.deep_view().skip(1) + spec_alias_items(
                t@,
                cdv,
                ddv,
                i as int,
            ).0,
            spec_alias_items(t@, cdv, ddv, 0).1 == spec_alias_items(t@, cdv, ddv, i as int).1,
        decreases derivations@.len() - i,
    {
        assert(ddv[i as int] == derivations@[i as int]@);
        match resolve_derivation(&derivations[i], choices) {
            Err(e) => {
                assert(spec_alias_items(t@, cdv, ddv, i as int).0 =~= Seq::<
                    OutputItemView,
                >::empty());
                assert(spec_alias_items(t@, cdv, ddv, 0).0 =~= items.deep_view().skip(1));
                let ghost ev = e@;
                let out = Output { items, diagnostic: Some(e) };
                proof {
                    assert(out@.items =~= seq![
                        OutputItemView::Definition(spec_rewritten_template(t@, cdv, nsdv)),
                    ] + spec_alias_items(t@, cdv, ddv, 0).0);
                }
                return out;
            },
            Ok(tys) => {
                let alias = build_alias(t, &derivations[i], &tys);
                let ghost av = alias@;
                let ghost idv0 = items.deep_view();
                items.push(OutputItem::Alias(alias));
                assert(items.deep_view() =~~= idv0.push(OutputItemView::Alias(av)));
                proof {
                    let here = spec_alias_items(t@, cdv, ddv, i as int);
                    let next = spec_alias_items(t@, cdv, ddv, i + 1);
                    assert(here.0 == seq![OutputItemView::Alias(av)] + next.0);
                    assert(spec_alias_items(t@, cdv, ddv, 0).0 =~= items.deep_view().skip(1)
                        + next.0);
                }
            },
        }
        i = i + 1;
    }
    assert(spec_alias_items(t@, cdv, ddv, derivations@.len() as int).0 =~= Seq::<
        OutputItemView,
    >::empty());
    assert(spec_alias_items(t@, cdv, ddv, 0).0 =~= items.deep_view().skip(1));
    let out = Output { items, diagnostic: None };
    proof {
        assert(out@.items =~= seq![
            OutputItemView::Definition(spec_rewritten_template(t@, cdv, nsdv)),
        ] + spec_alias_items(t@, cdv, ddv, 0).0);
    }
    out
}

// ------------------------------------------------- struct-generation mode

/// The canonical empty product type.
pub open spec fn unit_ty() -> Seq<char> {
    seq!['(', ')']
}

/// The type field `i` carries after resolution: the resolved type of its
/// choice ordinal, or its declared type rendered as written.
pub open spec fn spec_resolved_ty(
    t: TemplateView,
    choices: Seq<ChoiceView>,
    tys: Seq<Seq<char>>,
    i: int,
) -> Seq<char> {
    match spec_choice_at(choices, i, 0) {
        Some(j) => tys[j],
        None => spec_render_field_ty(t.fields[i].ty),
    }
}

/// The fields an emitted record keeps, from field `i` on: each field with
/// its resolved type — minus, when `omit` is set, those whose type is the
/// empty product type.
pub open spec fn spec_struct_fields(
    t: TemplateView,
    choices: Seq<ChoiceView>,
    tys: Seq<Seq<char>>,
    omit: bool,
    i: int,
) -> Seq<StructFieldView>
    decreases t.fields.len() - i,
{
    if i < 0 || i >= t.fields.len() {
        Seq::empty()
    } else {
        let ty = spec_resolved_ty(t, choices, tys, i);
        let rest = spec_struct_fields(t, choices, tys, omit, i + 1);
        if omit && ty == unit_ty() {
            rest
        } else {
            seq![(StructFieldView { name: t.fields[i].name, ty })] + rest
        }
    }
}

/// The default types: each choice field's first-listed candidate.
pub open spec fn spec_defaults(choices: Seq<ChoiceView>) -> Seq<Seq<char>> {
    choices.map_values(|c: ChoiceView| c.candidates[0])
}

/// The template copy struct-generation mode emits: every choice field
/// holds its default candidate, and no field is omitted.
pub open spec fn spec_struct_template(t: TemplateView, choices: Seq<ChoiceView>) -> StructDefView {
    StructDefView {
        name: t.name,
        vis: t.vis,
        params: param_decls(t),
        kind: t.kind,
        fields: spec_struct_fields(t, choices, spec_defaults(choices), false, 0),
    }
}

/// The independent record one resolved derivation yields.
pub open spec fn spec_derived_def(
    t: TemplateView,
    choices: Seq<ChoiceView>,
    d: DerivationView,
    tys: Seq<Seq<char>>,
    omit: bool,
) -> StructDefView {
    StructDefView {
        name: d.name,
        vis: d.vis,
        params: param_decls(t),
        kind: t.kind,
        fields: spec_struct_fields(t, choices, tys, omit, 0),
    }
}

/// The derived records of the derivations from index `i` on, stopping at
/// the first resolution failure.
pub open spec fn spec_struct_items(
    t: TemplateView,
    choices: Seq<ChoiceView>,
    ds: Seq<DerivationView>,
    omit: bool,
    i: int,
) -> (Seq<OutputItemView>, Option<ErrorView>)
    decreases ds.len() - i,
{
    if i < 0 || i >= ds.len() {
        (Seq::empty(), None)
    } else {
        match spec_resolve_derivation(ds[i], choices) {
            Err(e) => (Seq::empty(), Some(e)),
            Ok(tys) => {
                let rest = spec_struct_items(t, choices, ds, omit, i + 1);
                (
                    seq![OutputItemView::Definition(spec_derived_def(t, choices, ds[i], tys, omit))]
                        + rest.0,
                    rest.1,
                )
            },
        }
    }
}

/// Struct-generation mode's whole output: the derived records up to the
/// first failure; after a clean run — and only then — the template copy,
/// unless the delete setting is on.
pub open spec fn spec_gen_structs(
    t: TemplateView,
    choices: Seq<ChoiceView>,
    ds: Seq<DerivationView>,
    st: Settings,
) -> OutputView {
    let rest = spec_struct_items(t, choices, ds, st.omit_empty_tuple_fields, 0);
    match rest.1 {
        Some(e) => OutputView { items: rest.0, diagnostic: Some(e) },
        None => OutputView {
            items: if st.delete_template {
                rest.0
            } else {
                rest.0 + seq![OutputItemView::Definition(spec_struct_template(t, choices))]
            },
            diagnostic: None,
        },
    }
}

/// Builds the kept fields of one emitted record.
fn build_struct_fields(t: &Template, choices: &Vec<Choice>, tys: &Vec<Vec<char>>, omit: bool) -> (r:
    Vec<StructField>)
    requires
        tys@.len() == choices@.len(),
    ensures
        r.deep_view() == spec_struct_fields(t@, choices.deep_view(), tys.deep_view(), omit, 0),
{
    let ghost cdv = choices.deep_view();
    let ghost tdv = tys.deep_view();
    let mut fields: Vec<StructField> = Vec::new();
    let mut i: usize = 0;
    assert(spec_struct_fields(t@, cdv, tdv, omit, 0) =~= fields.deep_view() + spec_struct_fields(
        t@,
        cdv,
        tdv,
        omit,
        0,
    ));
    while i < t.fields.len()
        invariant
            i <= t.fields@.len(),
            tys@.len() == choices@.len(),
            cdv == choices.deep_view(),
            tdv == tys.deep_view(),
            spec_struct_fields(t@, cdv, tdv, omit, 0) == fields.deep_view() + spec_struct_fields(
                t@,
                cdv,
                tdv,
                omit,
                i as int,
            ),
        decreases t.fields@.len() - i,
    {
        assert(t@.fields[i as int] == t.fields@[i as int]@);
        proof {
            lemma_choice_at_bounds(cdv, i as int, 0);
        }
        let ty: Vec<char> = match choice_at(choices, i, 0) {
            Some(j) => copy_text(&tys[j]),
            None => render_field_ty(&t.fields[i].ty),
        };
        assert(ty@ == spec_resolved_ty(t@, cdv, tdv, i as int));
        let keep: bool;
        if omit && ty.len() == 2 && ty[0] == '(' && ty[1] == ')' {
            assert(ty@ =~= unit_ty());
            keep = false;
        } else {
            assert(!(omit && ty@ == unit_ty())) by {
                if omit && ty@ == unit_ty() {
                    assert(ty@.len() == 2 && ty@[0] == '(' && ty@[1] == ')');
                }
            }
            keep = true;
        }
        if keep {
            let name: Option<Vec<char>> = match &t.fields[i].name {
                Some(n) => Some(copy_text(n)),
                None => None,
            };
            let f = StructField { name, ty };
            let ghost fv = f@;
            let ghost fdv0 = fields.deep_view();
            fields.push(f);
            assert(fields.deep_view() =~~= fdv0.push(fv));
            proof {
                let here = spec_struct_fields(t@, cdv, tdv, omit, i as int);
                let next = spec_struct_fields(t@, cdv, tdv, omit, i + 1);
                assert(here == seq![fv] + next);
                assert(fdv0.push(fv) + next =~= fdv0 + here);
            }
        }
        i = i + 1;
    }
    assert(spec_struct_fields(t@, cdv, tdv, omit, t.fields@.len() as int) =~= Seq::<
        StructFieldView,
    >::empty());
    assert(fields.deep_view() =~= spec_struct_fields(t@, cdv, tdv, omit, 0));
    fields
}

/// Builds the default types of the choice fields.
fn build_defaults(choices: &Vec<Choice>) -> (r: Vec<Vec<char>>)
    requires
        forall|j: int| 0 <= j < choices@.len() ==> #[trigger] choices@[j].candidates@.len() >= 1,
    ensures
        r.deep_view() == spec_defaults(choices.deep_view()),
{
    let ghost cdv = choices.deep_view();
    let mut r: Vec<Vec<char>> = Vec::new();
    let mut i: usize = 0;
    while i < choices.len()
        invariant
            i <= choices@.len(),
            cdv == choices.deep_view(),
            r.deep_view() =~= spec_defaults(cdv).subrange(0, i as int),
        decreases choices@.len() - i,
    {
        assert(cdv[i as int] == choices@[i as int]@);
        let ghost rdv0 = r.deep_view();
        let d = copy_text(&choices[i].candidates[0]);
        let ghost dv = d@;
        r.push(d);
        assert(r.deep_view() =~~= rdv0.push(dv));
        assert(dv == spec_defaults(cdv)[i as int]);
        assert(r.deep_view() =~= spec_defaults(cdv).subrange(0, i + 1));
        i = i + 1;
    }
    assert(r.deep_view() =~= spec_defaults(cdv));
    r
}

/// Struct-generation mode: emits one independent record per derivation in
/// order, stopping at the first resolution failure but keeping what was
/// already emitted; after a clean run, the template copy follows unless
/// the delete setting is on.
pub fn gen_structs(
    t: &Template,
    choices: &Vec<Choice>,
    derivations: &Vec<Derivation>,
    st: Settings,
) -> (r: Output)
    requires
        spec_extract(t@.fields, 0) == Result::<Seq<ChoiceView>, Error>::Ok(choices.deep_view()),
    ensures
        r@ == spec_gen_structs(t@, choices.deep_view(), derivations.deep_view(), st),
{
    let ghost cdv = choices.deep_view();
    let ghost ddv = derivations.deep_view();
    let omit = st.omit_empty_tuple_fields;
    proof {
        lemma_extract_props(t@.fields, 0, cdv);
    }
    assert forall|j: int| 0 <= j < choices@.len() implies #[trigger] choices@[j].candidates@.len()
        >= 1 by {
        assert(cdv[j] == choices@[j]@);
        assert(cdv[j].candidates.len() == choices@[j].candidates@.len());
    }
    let mut items: Vec<OutputItem> = Vec::new();
    let mut i: usize = 0;
    assert(items.deep_view() =~= Seq::<OutputItemView>::empty());
    while i < derivations.len()
        invariant
            i <= derivations@.len(),
            items@.len() == i,
            cdv == choices.deep_view(),
            ddv == derivations.deep_view(),
            forall|j: int|
                0 <= j < choices@.len() ==> #[trigger] choices@[j].candidates@.len() >= 1,
            spec_struct_items(t@, cdv, ddv, omit, 0).0 =~= items.deep_view() + spec_struct_items(
                t@,
                cdv,
                ddv,
                omit,
                i as int,
            ).0,
            spec_struct_items(t@, cdv, ddv, omit, 0).1 == spec_struct_items(
                t@,
                cdv,
                ddv,
                omit,
                i as int,
            ).1,
        decreases derivations@.len() - i,
    {
        assert(ddv[i as int] == derivations@[i as int]@);
        match resolve_derivation(&derivations[i], choices) {
            Err(e) => {
                assert(spec_struct_items(t@, cdv, ddv, omit, i as int).0 =~= Seq::<
                    OutputItemView,
                >::empty());
                assert(spec_struct_items(t@, cdv, ddv, omit, 0).0 =~= items.deep_view());
                let out = Output { items, diagnostic: Some(e) };
                return out;
            },
            Ok(tys) => {
                let fields = build_struct_fields(t, choices, &tys, omit);
                let def = StructDef {
                    name: copy_text(&derivations[i].name),
                    vis: copy_vis(&derivations[i].vis),
                    params: collect_param_decls(t),
                    kind: t.kind,
                    fields,
                };
                let ghost dv = def@;
                assert(dv == spec_derived_def(t@, cdv, ddv[i as int], tys.deep_view(), omit));
                let ghost idv0 = items.deep_view();
                items.push(OutputItem::Definition(def));
                assert(items.deep_view() =~~= idv0.push(OutputItemView::Definition(dv)));
                proof {
                    let here = spec_struct_items(t@, cdv, ddv, omit, i as int);
                    let next = spec_struct_items(t@, cdv, ddv, omit, i + 1);
                    assert(here.0 == seq![OutputItemView::Definition(dv)] + next.0);
                    assert(spec_struct_items(t@, cdv, ddv, omit, 0).0 =~= items.deep_view()
                        + next.0);
                }
            },
        }
        i = i + 1;
    }
    assert(spec_struct_items(t@, cdv, ddv, omit, derivations@.len() as int).0 =~= Seq::<
        OutputItemView,
    >::empty());
    assert(spec_struct_items(t@, cdv, ddv, omit, 0).0 =~= items.deep_view());
    if !st.delete_template {
        let defaults = build_defaults(choices);
        assert(defaults@.len() == spec_defaults(cdv).len());
        let fields = build_struct_fields(t, choices, &defaults, false);
        let def = StructDef {
            name: copy_text(&t.name),
            vis: copy_vis(&t.vis),
            params: collect_param_decls(t),
            kind: t.kind,
            fields,
        };
        let ghost dv = def@;
        assert(dv == spec_struct_template(t@, cdv));
        let ghost idv0 = items.deep_view();
        items.push(OutputItem::Definition(def));
        assert(items.deep_view() =~~= idv0.push(OutputItemView::Definition(dv)));
        assert(items.deep_view() =~= spec_struct_items(t@, cdv, ddv, omit, 0).0 + seq![
            OutputItemView::Definition(spec_struct_template(t@, cdv)),
        ]);
    }
    let out = Output { items, diagnostic: None };
    out
}

// ------------------------------------------------------------------ laws

/// With the omit setting on, no kept field's type is the empty product
/// type; with it off, every field is kept, in order, each with its
/// resolved type.
pub proof fn lemma_omit_empty_tuple(
    t: TemplateView,
    choices: Seq<ChoiceView>,
    tys: Seq<Seq<char>>,
    i: int,
)
    requires
        0 <= i <= t.fields.len(),
    ensures
        forall|q: int|
            0 <= q < spec_struct_fields(t, choices, tys, true, i).len()
                ==> #[trigger] spec_struct_fields(t, choices, tys, true, i)[q].ty != unit_ty(),
        spec_struct_fields(t, choices, tys, false, i).len() == t.fields.len() - i,
        forall|q: int|
            i <= q < t.fields.len() ==> #[trigger] spec_struct_fields(
                t,
                choices,
                tys,
                false,
                i,
            )[q - i].ty == spec_resolved_ty(t, choices, tys, q),
    decreases t.fields.len() - i,
{
    if i < t.fields.len() {
        lemma_omit_empty_tuple(t, choices, tys, i + 1);
        let ty = spec_resolved_ty(t, choices, tys, i);
        let rest_t = spec_struct_fields(t, choices, tys, true, i + 1);
        let rest_f = spec_struct_fields(t, choices, tys, false, i + 1);
        if !(ty == unit_ty()) {
            assert(spec_struct_fields(t, choices, tys, true, i) == seq![
                (StructFieldView { name: t.fields[i].name, ty }),
            ] + rest_t);
        }
        assert(spec_struct_fields(t, choices, tys, false, i) == seq![
            (StructFieldView { name: t.fields[i].name, ty }),
        ] + rest_f);
        assert forall|q: int| i <= q < t.fields.len() implies #[trigger] spec_struct_fields(
            t,
            choices,
            tys,
            false,
            i,
        )[q - i].ty == spec_resolved_ty(t, choices, tys, q) by {
            if q > i {
                assert(spec_struct_fields(t, choices, tys, false, i)[q - i] == rest_f[q - (i + 1)]);
            }
        }
    }
}

/// The types a clean derivation run resolves for one derivation.
pub open spec fn resolved_types(d: DerivationView, choices: Seq<ChoiceView>) -> Seq<Seq<char>> {
    match spec_resolve_derivation(d, choices) {
        Ok(tys) => tys,
        Err(_) => Seq::empty(),
    }
}

/// After a clean run, struct-generation mode emits exactly one derived
/// record per derivation, in order.
pub proof fn lemma_struct_items_clean(
    t: TemplateView,
    choices: Seq<ChoiceView>,
    ds: Seq<DerivationView>,
    omit: bool,
    i: int,
)
    requires
        0 <= i <= ds.len(),
        spec_struct_items(t, choices, ds, omit, i).1 is None,
    ensures
        spec_struct_items(t, choices, ds, omit, i).0.len() == ds.len() - i,
        forall|j: int|
            i <= j < ds.len() ==> #[trigger] spec_struct_items(t, choices, ds, omit, i).0[j - i]
                == OutputItemView::Definition(
                spec_derived_def(t, choices, ds[j], resolved_types(ds[j], choices), omit),
            ),
    decreases ds.len() - i,
{
    if i < ds.len() {
        match spec_resolve_derivation(ds[i], choices) {
            Err(_) => {},
            Ok(tys) => {
                lemma_struct_items_clean(t, choices, ds, omit, i + 1);
                let here = spec_struct_items(t, choices, ds, omit, i);
                let next = spec_struct_items(t, choices, ds, omit, i + 1);
                assert forall|j: int| i <= j < ds.len() implies #[trigger] here.0[j - i]
                    == OutputItemView::Definition(
                    spec_derived_def(t, choices, ds[j], resolved_types(ds[j], choices), omit),
                ) by {
                    if j > i {
                        assert(here.0[j - i] == next.0[j - (i + 1)]);
                    }
                }
            },
        }
    }
}

/// The delete-template setting's law: with it on, struct-generation
/// mode's output holds the derived records alone; with it off — and every
/// derivation resolving — the template copy stands exactly once, as the
/// last item, after all derivations.
pub proof fn lemma_template_retention(
    t: TemplateView,
    choices: Seq<ChoiceView>,
    ds: Seq<DerivationView>,
    st: Settings,
)
    requires
        spec_struct_items(t, choices, ds, st.omit_empty_tuple_fields, 0).1 is None,
    ensures
        spec_struct_items(t, choices, ds, st.omit_empty_tuple_fields, 0).0.len() == ds.len(),
        st.delete_template ==> spec_gen_structs(t, choices, ds, st).items == spec_struct_items(
            t,
            choices,
            ds,
            st.omit_empty_tuple_fields,
            0,
        ).0,
        !st.delete_template ==> spec_gen_structs(t, choices, ds, st).items == spec_struct_items(
            t,
            choices,
            ds,
            st.omit_empty_tuple_fields,
            0,
        ).0 + seq![OutputItemView::Definition(spec_struct_template(t, choices))],
{
    lemma_struct_items_clean(t, choices, ds, st.omit_empty_tuple_fields, 0);
}

} // verus!
