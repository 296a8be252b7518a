//! End-to-end runs of the template-expansion engine.

use either_field::ast::{
    AliasDef, Bind, Binding, Derivation, Error, Field, FieldKind, FieldType, Output, OutputItem,
    Param, StructDef, StructField, Template, Vis,
};
use either_field::make_template;

fn txt(s: &str) -> Vec<char> {
    s.chars().collect()
}

fn texts(xs: &[&str]) -> Vec<Vec<char>> {
    xs.iter().map(|s| txt(s)).collect()
}

fn choice_field(name: Option<&str>, body: &str) -> Field {
    Field {
        name: name.map(txt),
        ty: FieldType::Marker { path: vec![txt("either_field"), txt("either")], body: txt(body) },
    }
}

fn plain_field(name: &str, ty: &str) -> Field {
    Field { name: Some(txt(name)), ty: FieldType::Plain(txt(ty)) }
}

fn named_template(name: &str, params: Vec<Param>, fields: Vec<Field>) -> Template {
    Template { name: txt(name), vis: Vis::Inherited, params, kind: FieldKind::Named, fields }
}

fn named_struct_field(name: &str, ty: &str) -> StructField {
    StructField { name: Some(txt(name)), ty: txt(ty) }
}

fn bare_struct_field(ty: &str) -> StructField {
    StructField { name: None, ty: txt(ty) }
}

#[test]
fn successes() {
    // A named template in alias mode: the rewritten template, then one
    // alias per derivation, unspecified fields at their defaults.
    let t = named_template(
        "GenericStructWithOmittedFields",
        vec![],
        vec![
            choice_field(Some("either_type_0"), "() | i32"),
            choice_field(Some("either_type_1"), "() | i32 | u32"),
            choice_field(Some("either_type_2"), "() | i32 | String"),
        ],
    );
    let attr = "
        OmitsEverythingBut0:
        [
            either_type_0: i32
        ],
        OmitsEverythingBut1:
        [
            either_type_1: u32
        ]";
    let out = make_template(attr, &t).expect("alias mode should succeed");
    assert_eq!(out.diagnostic, None);
    assert_eq!(out.items.len(), 3);
    assert_eq!(
        out.items[0],
        OutputItem::Definition(StructDef {
            name: txt("GenericStructWithOmittedFields"),
            vis: Vis::Inherited,
            params: texts(&["A", "B", "C"]),
            kind: FieldKind::Named,
            fields: vec![
                named_struct_field("either_type_0", "A"),
                named_struct_field("either_type_1", "B"),
                named_struct_field("either_type_2", "C"),
            ],
        })
    );
    assert_eq!(
        out.items[1],
        OutputItem::Alias(AliasDef {
            name: txt("OmitsEverythingBut0"),
            vis: Vis::Inherited,
            params: vec![],
            target: txt("GenericStructWithOmittedFields"),
            args: texts(&["i32", "()", "()"]),
        })
    );
    assert_eq!(
        out.items[2],
        OutputItem::Alias(AliasDef {
            name: txt("OmitsEverythingBut1"),
            vis: Vis::Inherited,
            params: vec![],
            target: txt("GenericStructWithOmittedFields"),
            args: texts(&["()", "u32", "()"]),
        })
    );

    // A named template in struct-generation mode with empty-tuple fields
    // omitted: one independent record per derivation, then the template.
    let t2 = named_template(
        "AnotherGenericStruct",
        vec![],
        vec![
            choice_field(Some("either_type_0"), "() | i32"),
            choice_field(Some("either_type_1"), "() | i32 | u32"),
            choice_field(Some("either_type_2"), "() | i32 | String"),
        ],
    );
    let attr2 = "
        GenStructs: true,
        OmitEmptyTupleFields: true;
        AnotherOmitsEverythingBut0:
        [
            either_type_0: i32
        ],
        AnotherOmitsEverythingBut1:
        [
            either_type_1: u32
        ]";
    let out2 = make_template(attr2, &t2).expect("struct mode should succeed");
    assert_eq!(out2.diagnostic, None);
    assert_eq!(out2.items.len(), 3);
    assert_eq!(
        out2.items[0],
        OutputItem::Definition(StructDef {
            name: txt("AnotherOmitsEverythingBut0"),
            vis: Vis::Inherited,
            params: vec![],
            kind: FieldKind::Named,
            fields: vec![named_struct_field("either_type_0", "i32")],
        })
    );
    assert_eq!(
        out2.items[1],
        OutputItem::Definition(StructDef {
            name: txt("AnotherOmitsEverythingBut1"),
            vis: Vis::Inherited,
            params: vec![],
            kind: FieldKind::Named,
            fields: vec![named_struct_field("either_type_1", "u32")],
        })
    );
    // the retained template keeps every field, at its default candidate
    assert_eq!(
        out2.items[2],
        OutputItem::Definition(StructDef {
            name: txt("AnotherGenericStruct"),
            vis: Vis::Inherited,
            params: vec![],
            kind: FieldKind::Named,
            fields: vec![
                named_struct_field("either_type_0", "()"),
                named_struct_field("either_type_1", "()"),
                named_struct_field("either_type_2", "()"),
            ],
        })
    );
}

#[test]
fn errors() {
    // Binding a choice field to a type outside its candidate set fails
    // resolution, naming the derivation, the field, the offending type and
    // the exact candidate set; the rewritten template stays emitted.
    let t = named_template(
        "GenericStruct",
        vec![
            Param { name: txt("A"), decl: txt("A: IntoIterator") },
            Param { name: txt("B"), decl: txt("B: std::fmt::Debug + 'static") },
        ],
        vec![
            plain_field("generic_a", "A"),
            plain_field("generic_b", "B"),
            choice_field(Some("either_type_0"), "i32 | &'static str"),
            choice_field(Some("either_type_1"), "i32 | &'static str | u32"),
            choice_field(Some("either_type_2"), "i32 | &'static str | String"),
            choice_field(Some("either_type_3"), "i32 | A | String"),
            choice_field(Some("either_type_4"), "i32 | (A, B) | String"),
        ],
    );
    let attr = "
        NotIncluded:
        [
            either_type_4: &'static str
        ],";
    let out = make_template(attr, &t).expect("a resolution failure still yields output");
    assert_eq!(out.items.len(), 1);
    match &out.items[0] {
        OutputItem::Definition(d) => {
            assert_eq!(d.params, texts(&["A: IntoIterator", "B: std::fmt::Debug + 'static", "C", "D", "E", "F", "G"]));
            assert_eq!(
                d.fields,
                vec![
                    named_struct_field("generic_a", "A"),
                    named_struct_field("generic_b", "B"),
                    named_struct_field("either_type_0", "C"),
                    named_struct_field("either_type_1", "D"),
                    named_struct_field("either_type_2", "E"),
                    named_struct_field("either_type_3", "F"),
                    named_struct_field("either_type_4", "G"),
                ]
            );
        },
        OutputItem::Alias(_) => panic!("the first item must be the rewritten template"),
    }
    assert_eq!(
        out.diagnostic,
        Some(Error::TypeNotInCandidateSet {
            derivation: txt("NotIncluded"),
            field: txt("either_type_4"),
            offending: txt("&'static str"),
            candidates: texts(&["i32", "(A,B)", "String"]),
        })
    );
}

#[test]
fn omits_empty_tuple_fields_in_struct_mode() {
    // A position-keyed template with three choice fields, each defaulting
    // to the empty tuple; with structs generated, the template deleted and
    // empty-tuple fields omitted, each derivation keeps a single field.
    let t = Template {
        name: txt("GenericStructWithOmittedFields"),
        vis: Vis::Inherited,
        params: vec![],
        kind: FieldKind::Positional,
        fields: vec![
            choice_field(None, "() | i32"),
            choice_field(None, "() | i32 | u32"),
            choice_field(None, "() | i32 | &str"),
        ],
    };
    let attr = "
        GenStructs: true, DeleteTemplate: true, OmitEmptyTupleFields: true;
        A: [0: i32],
        B: [1: u32],
        C: [_, _, &str]";
    let out = make_template(attr, &t).expect("struct mode should succeed");
    assert_eq!(out.diagnostic, None);
    assert_eq!(out.items.len(), 3);
    assert_eq!(
        out.items[0],
        OutputItem::Definition(StructDef {
            name: txt("A"),
            vis: Vis::Inherited,
            params: vec![],
            kind: FieldKind::Positional,
            fields: vec![bare_struct_field("i32")],
        })
    );
    assert_eq!(
        out.items[1],
        OutputItem::Definition(StructDef {
            name: txt("B"),
            vis: Vis::Inherited,
            params: vec![],
            kind: FieldKind::Positional,
            fields: vec![bare_struct_field("u32")],
        })
    );
    assert_eq!(
        out.items[2],
        OutputItem::Definition(StructDef {
            name: txt("C"),
            vis: Vis::Inherited,
            params: vec![],
            kind: FieldKind::Positional,
            fields: vec![bare_struct_field("&str")],
        })
    );
}

#[test]
fn retained_fields_keep_empty_tuple_without_omit_setting() {
    // With the omit setting off, a field resolving to the empty tuple is
    // retained with that type.
    let t = Template {
        name: txt("Pair"),
        vis: Vis::Inherited,
        params: vec![],
        kind: FieldKind::Positional,
        fields: vec![choice_field(None, "() | i32"), choice_field(None, "() | u32")],
    };
    let attr = "GenStructs: true, DeleteTemplate: true; OnlyLast: [1: u32]";
    let out = make_template(attr, &t).expect("struct mode should succeed");
    assert_eq!(out.diagnostic, None);
    assert_eq!(out.items.len(), 1);
    assert_eq!(
        out.items[0],
        OutputItem::Definition(StructDef {
            name: txt("OnlyLast"),
            vis: Vis::Inherited,
            params: vec![],
            kind: FieldKind::Positional,
            fields: vec![bare_struct_field("()"), bare_struct_field("u32")],
        })
    );
}

#[test]
fn wildcard_and_omitted_fields_resolve_to_default() {
    // An omitted field and an explicit wildcard binding both resolve to
    // the first-listed candidate.
    let t = named_template(
        "Sample",
        vec![],
        vec![
            choice_field(Some("first"), "u8 | u16"),
            choice_field(Some("second"), "i8 | i16"),
        ],
    );
    let out = make_template("D: [second: _]", &t).expect("alias mode should succeed");
    assert_eq!(out.diagnostic, None);
    assert_eq!(out.items.len(), 2);
    assert_eq!(
        out.items[1],
        OutputItem::Alias(AliasDef {
            name: txt("D"),
            vis: Vis::Inherited,
            params: vec![],
            target: txt("Sample"),
            args: texts(&["u8", "i8"]),
        })
    );
}

#[test]
fn derivation_visibility_applies_to_derived_struct() {
    let t = named_template("Carrier", vec![], vec![choice_field(Some("x"), "() | i32")]);
    let attr = "GenStructs: true, DeleteTemplate: true; pub Open: [x: i32], pub(crate) Shut: [x: _]";
    let out = make_template(attr, &t).expect("struct mode should succeed");
    assert_eq!(out.diagnostic, None);
    assert_eq!(out.items.len(), 2);
    assert_eq!(
        out.items[0],
        OutputItem::Definition(StructDef {
            name: txt("Open"),
            vis: Vis::Public,
            params: vec![],
            kind: FieldKind::Named,
            fields: vec![named_struct_field("x", "i32")],
        })
    );
    assert_eq!(
        out.items[1],
        OutputItem::Definition(StructDef {
            name: txt("Shut"),
            vis: Vis::Restricted(txt("crate")),
            params: vec![],
            kind: FieldKind::Named,
            fields: vec![named_struct_field("x", "()")],
        })
    );
}

#[test]
fn failure_keeps_earlier_derivations_and_stops() {
    // Fail-fast with partial commit: the derivation before the failing one
    // stays in the output, the one after it is never emitted.
    let t = named_template("Holder", vec![], vec![choice_field(Some("v"), "() | i32")]);
    let attr = "First: [v: i32], Second: [v: u64], Third: [v: _]";
    let out = make_template(attr, &t).expect("a resolution failure still yields output");
    assert_eq!(out.items.len(), 2);
    assert!(matches!(&out.items[0], OutputItem::Definition(_)));
    match &out.items[1] {
        OutputItem::Alias(a) => assert_eq!(a.name, txt("First")),
        OutputItem::Definition(_) => panic!("the second item must be the first alias"),
    }
    assert_eq!(
        out.diagnostic,
        Some(Error::TypeNotInCandidateSet {
            derivation: txt("Second"),
            field: txt("v"),
            offending: txt("u64"),
            candidates: texts(&["()", "i32"]),
        })
    );
}

#[test]
fn unknown_binding_key_is_rejected() {
    let t = named_template("Holder2", vec![], vec![choice_field(Some("v"), "() | i32")]);
    let out = make_template("Bad: [w: i32]", &t).expect("resolution failures yield output");
    assert_eq!(out.items.len(), 1);
    assert_eq!(
        out.diagnostic,
        Some(Error::UnknownFieldKey { derivation: txt("Bad"), field: txt("w") })
    );
}

#[test]
fn fieldless_template_is_rejected() {
    // A field-less template always fails, whatever the settings say.
    let unit = Template {
        name: txt("Empty"),
        vis: Vis::Inherited,
        params: vec![],
        kind: FieldKind::Named,
        fields: vec![],
    };
    assert_eq!(make_template("D: [x: i32]", &unit), Err(Error::NoFieldsToTemplate));
    assert_eq!(
        make_template("GenStructs: true; D: [x: i32]", &unit),
        Err(Error::NoFieldsToTemplate)
    );
    assert_eq!(
        make_template("GenStructs: true, DeleteTemplate: true, OmitEmptyTupleFields: true; D: [x: i32]", &unit),
        Err(Error::NoFieldsToTemplate)
    );
    assert_eq!(
        make_template("GenStructs: false; D: [x: i32]", &unit),
        Err(Error::NoFieldsToTemplate)
    );
}

#[test]
fn positional_template_requires_struct_mode() {
    let t = Template {
        name: txt("Tup"),
        vis: Vis::Inherited,
        params: vec![],
        kind: FieldKind::Positional,
        fields: vec![choice_field(None, "() | i32")],
    };
    assert_eq!(make_template("D: [0: i32]", &t), Err(Error::PositionalRequiresStructMode));
    assert_eq!(
        make_template("GenStructs: false; D: [0: i32]", &t),
        Err(Error::PositionalRequiresStructMode)
    );
    assert!(make_template("GenStructs: true; D: [0: i32]", &t).is_ok());
}

#[test]
fn whitespace_never_matters_in_bindings() {
    // Candidate types and bound types compare by their canonical text.
    let t = named_template(
        "Spaced",
        vec![],
        vec![choice_field(Some("s"), "()|&'static   str")],
    );
    let out = make_template("D: [s: & 'static str]", &t).expect("alias mode should succeed");
    assert_eq!(out.diagnostic, None);
    match &out.items[1] {
        OutputItem::Alias(a) => assert_eq!(a.args, texts(&["&'static str"])),
        OutputItem::Definition(_) => panic!("the second item must be an alias"),
    }
}

#[test]
fn nested_commas_stay_inside_their_type() {
    // A comma inside angle brackets or brackets does not split bindings.
    let t = named_template(
        "Nest",
        vec![],
        vec![choice_field(Some("m"), "() | Vec<(u8, u16)> | [u8; 4]")],
    );
    let out = make_template("D: [m: Vec<(u8, u16)>], E: [m: [u8; 4]]", &t)
        .expect("alias mode should succeed");
    assert_eq!(out.diagnostic, None);
    assert_eq!(out.items.len(), 3);
    match &out.items[1] {
        OutputItem::Alias(a) => assert_eq!(a.args, texts(&["Vec<(u8,u16)>"])),
        OutputItem::Definition(_) => panic!("expected an alias"),
    }
    match &out.items[2] {
        OutputItem::Alias(a) => assert_eq!(a.args, texts(&["[u8;4]"])),
        OutputItem::Definition(_) => panic!("expected an alias"),
    }
}

#[test]
fn aliases_carry_preexisting_parameters() {
    // Aliases copy the template's original parameter list and instantiate
    // the rewritten template with the original parameters first.
    let t = named_template(
        "GenericStruct",
        vec![
            Param { name: txt("A"), decl: txt("A: IntoIterator") },
            Param { name: txt("B"), decl: txt("B: std::fmt::Debug + 'static") },
        ],
        vec![
            plain_field("generic_a", "A"),
            plain_field("generic_b", "B"),
            choice_field(Some("either_type_0"), "i32 | &'static str"),
            choice_field(Some("either_type_1"), "i32 | &'static str | u32"),
            choice_field(Some("either_type_2"), "i32 | &'static str | String"),
        ],
    );
    let attr = "
        DerivedStruct:
        [
            either_type_0: &'static str
        ],
        TestToo:
        [
            either_type_1: u32
        ]";
    let out = make_template(attr, &t).expect("alias mode should succeed");
    assert_eq!(out.diagnostic, None);
    assert_eq!(out.items.len(), 3);
    assert_eq!(
        out.items[1],
        OutputItem::Alias(AliasDef {
            name: txt("DerivedStruct"),
            vis: Vis::Inherited,
            params: texts(&["A: IntoIterator", "B: std::fmt::Debug + 'static"]),
            target: txt("GenericStruct"),
            args: texts(&["A", "B", "&'static str", "i32", "i32"]),
        })
    );
    assert_eq!(
        out.items[2],
        OutputItem::Alias(AliasDef {
            name: txt("TestToo"),
            vis: Vis::Inherited,
            params: texts(&["A: IntoIterator", "B: std::fmt::Debug + 'static"]),
            target: txt("GenericStruct"),
            args: texts(&["A", "B", "i32", "u32", "i32"]),
        })
    );
}

#[test]
fn duplicate_binding_keys_are_rejected() {
    let t = named_template("Dup", vec![], vec![choice_field(Some("x"), "() | i32")]);
    assert_eq!(make_template("D: [x: i32, x: ()]", &t), Err(Error::DuplicateBindingKey));
    // a numeric key names the same slot as the matching anonymous key
    let tp = Template {
        name: txt("DupTup"),
        vis: Vis::Inherited,
        params: vec![],
        kind: FieldKind::Positional,
        fields: vec![choice_field(None, "() | i32")],
    };
    assert_eq!(
        make_template("GenStructs: true; D: [_, 0: i32]", &tp),
        Err(Error::DuplicateBindingKey)
    );
}

#[test]
fn non_choice_macro_fields_pass_through() {
    // A macro-shaped field whose path never names the marker is no choice
    // field: it is rendered back as written.
    let t = named_template(
        "Mixed",
        vec![],
        vec![
            Field {
                name: Some(txt("plain_macro")),
                ty: FieldType::Marker { path: vec![txt("some"), txt("other")], body: txt("a | b") },
            },
            choice_field(Some("real"), "() | i32"),
        ],
    );
    let out = make_template("D: [real: i32]", &t).expect("alias mode should succeed");
    assert_eq!(out.diagnostic, None);
    match &out.items[0] {
        OutputItem::Definition(d) => {
            assert_eq!(d.params, texts(&["A"]));
            assert_eq!(
                d.fields,
                vec![
                    named_struct_field("plain_macro", "some::other!(a | b)"),
                    named_struct_field("real", "A"),
                ]
            );
        },
        OutputItem::Alias(_) => panic!("the first item must be the rewritten template"),
    }
}
