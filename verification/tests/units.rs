//! Grammar-level and component-level checks.

use either_field::ast::{Error, Field, FieldKind, FieldType, OutputItem, Template, Vis};
use either_field::names::{get_alpha, synth_names};
use either_field::{either, make_template, GenericStruct};

fn txt(s: &str) -> Vec<char> {
    s.chars().collect()
}

fn texts(xs: &[&str]) -> Vec<Vec<char>> {
    xs.iter().map(|s| txt(s)).collect()
}

fn one_choice_template(body: &str) -> Template {
    Template {
        name: txt("Probe"),
        vis: Vis::Inherited,
        params: vec![],
        kind: FieldKind::Named,
        fields: vec![Field {
            name: Some(txt("x")),
            ty: FieldType::Marker {
                path: vec![txt("either_field"), txt("either")],
                body: txt(body),
            },
        }],
    }
}

#[test]
fn alpha_names_enumerate_bijectively() {
    assert_eq!(get_alpha(0), "A");
    assert_eq!(get_alpha(1), "B");
    assert_eq!(get_alpha(25), "Z");
    assert_eq!(get_alpha(26), "AA");
    assert_eq!(get_alpha(27), "AB");
    assert_eq!(get_alpha(51), "AZ");
    assert_eq!(get_alpha(52), "BA");
    assert_eq!(get_alpha(701), "ZZ");
    assert_eq!(get_alpha(702), "AAA");
}

#[test]
fn synthesized_names_skip_taken_ones() {
    let taken = texts(&["A", "C"]);
    assert_eq!(synth_names(&taken, 3), texts(&["B", "D", "E"]));
    let none: Vec<Vec<char>> = vec![];
    assert_eq!(synth_names(&none, 4), texts(&["A", "B", "C", "D"]));
}

#[test]
fn either_alone_hands_its_input_back() {
    assert_eq!(either(String::from("() | i32")), "() | i32");
    assert_eq!(either(String::new()), "");
}

#[test]
fn generic_struct_accessor_returns_the_field() {
    let g = GenericStruct { either_type: 32i32 };
    assert_eq!(g.get_either_type_field(), 32i32);
    let h = GenericStruct { either_type: "this is a test" };
    assert_eq!(h.get_either_type_field(), "this is a test");
}

#[test]
fn empty_choice_set_is_rejected() {
    let t = one_choice_template("");
    assert_eq!(make_template("D: [x: i32]", &t), Err(Error::EmptyChoiceSet));
}

#[test]
fn wildcard_is_never_a_candidate() {
    let t = one_choice_template("_ | i32");
    assert_eq!(make_template("D: [x: i32]", &t), Err(Error::MalformedChoiceExpr));
    let t2 = one_choice_template("i32 |");
    assert_eq!(make_template("D: [x: i32]", &t2), Err(Error::MalformedChoiceExpr));
}

#[test]
fn malformed_settings_are_rejected() {
    let t = one_choice_template("() | i32");
    assert_eq!(make_template("GenStructs: yes; D: [x: i32]", &t), Err(Error::InvalidSetting));
    assert_eq!(make_template("GenStructs true; D: [x: i32]", &t), Err(Error::InvalidSetting));
    assert_eq!(make_template("GenStructs: true,; D: [x: i32]", &t), Err(Error::InvalidSetting));
}

#[test]
fn unrecognized_settings_are_ignored() {
    let t = one_choice_template("() | i32");
    let out = make_template("SomeFutureKnob: true; D: [x: i32]", &t)
        .expect("unknown settings must not fail the run");
    assert_eq!(out.diagnostic, None);
    assert_eq!(out.items.len(), 2);
}

#[test]
fn settings_flags_are_independent() {
    // The delete setting must not drag the mode along with it: with only
    // structs requested, the template is retained.
    let t = one_choice_template("() | i32");
    let kept = make_template("GenStructs: true; D: [x: i32]", &t).expect("struct mode");
    assert_eq!(kept.items.len(), 2);
    let dropped = make_template("GenStructs: true, DeleteTemplate: true; D: [x: i32]", &t)
        .expect("struct mode");
    assert_eq!(dropped.items.len(), 1);
    // and an attr that only sets DeleteTemplate stays in alias mode,
    // where the setting has no effect
    let alias = make_template("DeleteTemplate: true; D: [x: i32]", &t).expect("alias mode");
    assert_eq!(alias.items.len(), 2);
    assert!(matches!(alias.items[1], OutputItem::Alias(_)));
}

#[test]
fn settings_can_be_switched_back_off() {
    let t = one_choice_template("() | i32");
    // the last assignment of a name wins
    let r = make_template("GenStructs: true, GenStructs: false; D: [x: i32]", &t)
        .expect("alias mode");
    assert!(matches!(r.items[1], OutputItem::Alias(_)));
}

#[test]
fn malformed_derivations_are_rejected() {
    let t = one_choice_template("() | i32");
    assert_eq!(make_template("", &t), Err(Error::MalformedDerivation));
    assert_eq!(make_template("D [x: i32]", &t), Err(Error::MalformedDerivation));
    assert_eq!(make_template("D: []", &t), Err(Error::MalformedDerivation));
    assert_eq!(make_template("D: [x: i32,]", &t), Err(Error::MalformedDerivation));
    assert_eq!(make_template("D: [x:]", &t), Err(Error::MalformedDerivation));
    assert_eq!(make_template("D: [x: i32], ,E: [x: ()]", &t), Err(Error::MalformedDerivation));
}

#[test]
fn non_numeric_positional_key_is_rejected() {
    let t = one_choice_template("() | i32");
    assert_eq!(make_template("D: [0x1: i32]", &t), Err(Error::NonNumericKeyLiteral));
}

#[test]
fn trailing_comma_after_last_derivation_is_tolerated() {
    let t = one_choice_template("() | i32");
    let out = make_template("D: [x: i32],", &t).expect("alias mode");
    assert_eq!(out.items.len(), 2);
}

#[test]
fn grammar_errors_win_over_preconditions() {
    // The configuration input is parsed before the template is examined.
    let unit = Template {
        name: txt("Empty2"),
        vis: Vis::Inherited,
        params: vec![],
        kind: FieldKind::Named,
        fields: vec![],
    };
    assert_eq!(make_template("GenStructs: yes; D: [x: i32]", &unit), Err(Error::InvalidSetting));
}

#[test]
fn rendered_output_is_plain_source_text() {
    let t = one_choice_template("() | i32");
    let out = make_template("GenStructs: true; D: [x: i32]", &t).expect("struct mode");
    assert_eq!(
        either_field::render::render_output(&out),
        "struct D { x: i32 }\nstruct Probe { x: () }\n"
    );
    let out2 = make_template("pub D2: [x: i32]", &t).expect("alias mode");
    assert_eq!(
        either_field::render::render_output(&out2),
        "struct Probe<A> { x: A }\npub type D2 = Probe<i32>;\n"
    );
    let tp = Template {
        name: txt("Tiny"),
        vis: Vis::Public,
        params: vec![],
        kind: FieldKind::Positional,
        fields: vec![Field {
            name: None,
            ty: FieldType::Marker {
                path: vec![txt("either_field"), txt("either")],
                body: txt("() | i32"),
            },
        }],
    };
    let out3 = make_template("GenStructs: true, DeleteTemplate: true; pub(crate) P: [0: i32]", &tp)
        .expect("struct mode");
    assert_eq!(either_field::render::render_output(&out3), "pub(crate) struct P(i32);\n");
}

#[test]
fn semicolon_inside_brackets_is_no_settings_terminator() {
    let t = one_choice_template("() | [u8; 4]");
    let out = make_template("D: [x: [u8; 4]]", &t).expect("alias mode");
    assert_eq!(out.diagnostic, None);
    match &out.items[1] {
        OutputItem::Alias(a) => assert_eq!(a.args, texts(&["[u8;4]"])),
        OutputItem::Definition(_) => panic!("the second item must be an alias"),
    }
}
