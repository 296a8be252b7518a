//! Rendering the engine's structured output as source text.
//!
//! One line per emitted item: a record definition with named fields as
//! `vis struct Name<params> { field: Ty, ... }`, a position-keyed one as
//! `vis struct Name<params>(Ty, ...);`, and an alias as
//! `vis type Name<params> = Target<args>;`.

use vstd::prelude::*;
use crate::ast::{StructField, StructFieldView, StructDef, StructDefView, AliasDef, AliasDefView,
    OutputItem, OutputItemView, Output, OutputView, Vis, VisView, FieldKind};
use crate::text::string_of;
use crate::token::append_text;

verus! {

broadcast use {crate::token::lemma_text_vec_deep_view, crate::text::lemma_chars_deep_view};

/// The text of a visibility, with its trailing space where one is needed.
pub open spec fn spec_vis_text(v: VisView) -> Seq<char> {
    match v {
        VisView::Inherited => Seq::empty(),
        VisView::Public => seq!['p', 'u', 'b', ' '],
        VisView::Restricted(r) => seq!['p', 'u', 'b', '('] + r + seq![')', ' '],
    }
}

/// Renders a visibility.
fn vis_text(v: &Vis) -> (r: Vec<char>)
    ensures
        r@ == spec_vis_text(v@),
{
    let mut r: Vec<char> = Vec::new();
    match v {
        Vis::Inherited => {},
        Vis::Public => {
            r.push('p');
            r.push('u');
            r.push('b');
            r.push(' ');
        },
        Vis::Restricted(t) => {
            r.push('p');
            r.push('u');
            r.push('b');
            r.push('(');
            append_text(&mut r, t);
            r.push(')');
            r.push(' ');
        },
    }
    assert(r@ =~= spec_vis_text(v@));
    r
}

/// Texts joined by a separator.
pub open spec fn spec_join_texts(xs: Seq<Seq<char>>, sep: Seq<char>) -> Seq<char>
    decreases xs.len(),
{
    if xs.len() == 0 {
        Seq::empty()
    } else if xs.len() == 1 {
        xs[0]
    } else {
        xs[0] + sep + spec_join_texts(xs.drop_first(), sep)
    }
}

/// Joins texts with a separator.
fn join_texts(xs: &Vec<Vec<char>>, sep: &Vec<char>) -> (r: Vec<char>)
    ensures
        r@ == spec_join_texts(xs.deep_view(), sep@),
{
    let ghost dv = xs.deep_view();
    let mut r: Vec<char> = Vec::new();
    let mut i: usize = 0;
    assert(dv.skip(0) =~= dv);
    assert(r@ + spec_join_texts(dv, sep@) =~= spec_join_texts(dv, sep@));
    while i < xs.len()
        invariant
            i <= xs@.len(),
            dv == xs.deep_view(),
            spec_join_texts(dv, sep@) == r@ + spec_join_texts(dv.skip(i as int), sep@),
        decreases xs@.len() - i,
    {
        assert(dv.skip(i as int)[0] == dv[i as int]);
        append_text(&mut r, &xs[i]);
        if i + 1 < xs.len() {
            assert(dv.skip(i as int).drop_first() =~= dv.skip(i + 1));
            append_text(&mut r, sep);
            assert(spec_join_texts(dv, sep@) =~= r@ + spec_join_texts(dv.skip(i + 1), sep@));
        } else {
            assert(dv.skip(i as int).len() == 1);
        }
        i = i + 1;
    }
    assert(spec_join_texts(dv.skip(xs@.len() as int), sep@) =~= Seq::<char>::empty());
    assert(r@ =~= spec_join_texts(dv, sep@));
    r
}

/// The text of one named field: `name: Ty`.
pub open spec fn spec_field_text(f: StructFieldView) -> Seq<char> {
    match f.name {
        Some(n) => n + seq![':', ' '] + f.ty,
        None => f.ty,
    }
}

/// The parameter-list text: empty, or `<p, q>`.
pub open spec fn spec_params_text(ps: Seq<Seq<char>>) -> Seq<char> {
    if ps.len() == 0 {
        Seq::empty()
    } else {
        seq!['<'] + spec_join_texts(ps, seq![',', ' ']) + seq!['>']
    }
}

/// The text of a record definition.
pub open spec fn spec_struct_text(d: StructDefView) -> Seq<char> {
    let head = spec_vis_text(d.vis) + seq!['s', 't', 'r', 'u', 'c', 't', ' '] + d.name
        + spec_params_text(d.params);
    let body = spec_join_texts(d.fields.map_values(|f: StructFieldView| spec_field_text(f)), seq![
        ',', ' ']);
    match d.kind {
        FieldKind::Named => head + seq![' ', '{', ' '] + body + seq![' ', '}'],
        FieldKind::Positional => head + seq!['('] + body + seq![')', ';'],
    }
}

/// The text of an alias definition.
pub open spec fn spec_alias_text(a: AliasDefView) -> Seq<char> {
    spec_vis_text(a.vis) + seq!['t', 'y', 'p', 'e', ' '] + a.name + spec_params_text(a.params)
        + seq![' ', '=', ' '] + a.target + seq!['<'] + spec_join_texts(a.args, seq![',', ' '])
        + seq!['>', ';']
}

/// The text of one output item.
pub open spec fn spec_item_text(item: OutputItemView) -> Seq<char> {
    match item {
        OutputItemView::Definition(d) => spec_struct_text(d),
        OutputItemView::Alias(a) => spec_alias_text(a),
    }
}

/// The text of a whole output: one line per item, each ended by a line
/// break; the diagnostic, if any, is not text and stays structured.
pub open spec fn spec_output_text(o: OutputView) -> Seq<char>
    decreases o.items.len(),
{
    if o.items.len() == 0 {
        Seq::empty()
    } else {
        spec_item_text(o.items[0]) + seq!['\n'] + spec_output_text(
            OutputView { items: o.items.drop_first(), diagnostic: o.diagnostic },
        )
    }
}

/// Renders the field list of a record definition.
fn field_texts(fields: &Vec<StructField>) -> (r: Vec<Vec<char>>)
    ensures
        r.deep_view() == fields.deep_view().map_values(|f: StructFieldView| spec_field_text(f)),
{
    let ghost goal = fields.deep_view().map_values(|f: StructFieldView| spec_field_text(f));
    let mut r: Vec<Vec<char>> = Vec::new();
    let mut i: usize = 0;
    while i < fields.len()
        invariant
            i <= fields@.len(),
            goal == fields.deep_view().map_values(|f: StructFieldView| spec_field_text(f)),
            r.deep_view() =~= goal.subrange(0, i as int),
        decreases fields@.len() - i,
    {
        assert(fields.deep_view()[i as int] == fields@[i as int]@);
        let f = &fields[i];
        let mut t: Vec<char> = Vec::new();
        match &f.name {
            Some(n) => {
                append_text(&mut t, n);
                t.push(':');
                t.push(' ');
                append_text(&mut t, &f.ty);
            },
            None => {
                append_text(&mut t, &f.ty);
            },
        }
        assert(t@ =~= spec_field_text(fields@[i as int]@));
        let ghost tv = t@;
        let ghost rdv0 = r.deep_view();
        r.push(t);
        assert(r.deep_view() =~~= rdv0.push(tv));
        assert(r.deep_view() =~= goal.subrange(0, i + 1));
        i = i + 1;
    }
    assert(r.deep_view() =~= goal);
    r
}

/// Renders a parameter list.
fn params_text(ps: &Vec<Vec<char>>) -> (r: Vec<char>)
    ensures
        r@ == spec_params_text(ps.deep_view()),
{
    let mut r: Vec<char> = Vec::new();
    if ps.len() == 0 {
        assert(r@ =~= spec_params_text(ps.deep_view()));
        return r;
    }
    let mut sep: Vec<char> = Vec::new();
    sep.push(',');
    sep.push(' ');
    assert(sep@ =~= seq![',', ' ']);
    r.push('<');
    let joined = join_texts(ps, &sep);
    append_text(&mut r, &joined);
    r.push('>');
    assert(r@ =~= spec_params_text(ps.deep_view()));
    r
}

/// Renders a record definition.
fn struct_text(d: &StructDef) -> (r: Vec<char>)
    ensures
        r@ == spec_struct_text(d@),
{
    let mut r = vis_text(&d.vis);
    r.push('s');
    r.push('t');
    r.push('r');
    r.push('u');
    r.push('c');
    r.push('t');
    r.push(' ');
    append_text(&mut r, &d.name);
    let ps = params_text(&d.params);
    append_text(&mut r, &ps);
    let fts = field_texts(&d.fields);
    let mut sep: Vec<char> = Vec::new();
    sep.push(',');
    sep.push(' ');
    assert(sep@ =~= seq![',', ' ']);
    let body = join_texts(&fts, &sep);
    match d.kind {
        FieldKind::Named => {
            r.push(' ');
            r.push('{');
            r.push(' ');
            append_text(&mut r, &body);
            r.push(' ');
            r.push('}');
        },
        FieldKind::Positional => {
            r.push('(');
            append_text(&mut r, &body);
            r.push(')');
            r.push(';');
        },
    }
    assert(r@ =~= spec_struct_text(d@));
    r
}

/// Renders an alias definition.
fn alias_text(a: &AliasDef) -> (r: Vec<char>)
    ensures
        r@ == spec_alias_text(a@),
{
    let mut r = vis_text(&a.vis);
    r.push('t');
    r.push('y');
    r.push('p');
    r.push('e');
    r.push(' ');
    append_text(&mut r, &a.name);
    let ps = params_text(&a.params);
    append_text(&mut r, &ps);
    r.push(' ');
    r.push('=');
    r.push(' ');
    append_text(&mut r, &a.target);
    r.push('<');
    let mut sep: Vec<char> = Vec::new();
    sep.push(',');
    sep.push(' ');
    assert(sep@ =~= seq![',', ' ']);
    let args = join_texts(&a.args, &sep);
    append_text(&mut r, &args);
    r.push('>');
    r.push(';');
    assert(r@ =~= spec_alias_text(a@));
    r
}

/// Renders one output item.
pub fn render_item(item: &OutputItem) -> (r: String)
    ensures
        r@ == spec_item_text(item@),
{
    let cs = match item {
        OutputItem::Definition(d) => struct_text(d),
        OutputItem::Alias(a) => alias_text(a),
    };
    string_of(&cs)
}

/// Renders a whole output, one line per item.
pub fn render_output(out: &Output) -> (r: String)
    ensures
        r@ == spec_output_text(out@),
{
    let ghost full = out@;
    let mut r: Vec<char> = Vec::new();
    let mut i: usize = 0;
    assert(full.items.skip(0) =~= full.items);
    assert((OutputView { items: full.items.skip(0), diagnostic: full.diagnostic }) == full);
    assert(r@ + spec_output_text(full) =~= spec_output_text(full));
    while i < out.items.len()
        invariant
            i <= out.items@.len(),
            full == out@,
            spec_output_text(full) == r@ + spec_output_text(
                OutputView { items: full.items.skip(i as int), diagnostic: full.diagnostic },
            ),
        decreases out.items@.len() - i,
    {
        assert(full.items.skip(i as int)[0] == full.items[i as int]);
        assert(full.items[i as int] == out.items@[i as int]@);
        let cs = match &out.items[i] {
            OutputItem::Definition(d) => struct_text(d),
            OutputItem::Alias(a) => alias_text(a),
        };
        append_text(&mut r, &cs);
        r.push('\n');
        assert(full.items.skip(i as int).drop_first() =~= full.items.skip(i + 1));
        assert(spec_output_text(full) =~= r@ + spec_output_text(
            OutputView { items: full.items.skip(i + 1), diagnostic: full.diagnostic },
        ));
        i = i + 1;
    }
    assert(full.items.skip(out.items@.len() as int) =~= Seq::<OutputItemView>::empty());
    assert(r@ =~= spec_output_text(full));
    string_of(&r)
}

} // verus!
