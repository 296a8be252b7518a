//! A source-to-source template-expansion engine.
//!
//! A *template* is a record-type definition in which some fields are *choice
//! fields*: instead of one fixed type, such a field carries an ordered list of
//! candidate types, the first of which is its default.  A companion input
//! names *derivations*: requests that bind choice fields to candidates.  The
//! engine either rewrites the template once with fresh type parameters and
//! emits one type alias per derivation (alias mode), or emits one fully
//! concrete record definition per derivation (struct-generation mode).

#![verifier::loop_isolation(false)]

use vstd::prelude::*;

pub mod ast;
pub mod emit;
pub mod extract;
pub mod names;
pub mod parse;
pub mod render;
pub mod resolve;
pub mod text;
pub mod token;

use crate::ast::{Template, FieldKind, Output, Error};

verus! {

/// What the engine returns for one invocation, as a function of the raw
/// configuration text and the template: the first grammar error, or the
/// first precondition failure, or the selected mode's output.
pub open spec fn make_template_post(attr: Seq<char>, t: Template, r: Result<Output, Error>) -> bool {
    match crate::parse::spec_parse_attr(attr) {
        Err(e) => r matches Err(x) && x == e,
        Ok(av) => {
            if t@.fields.len() == 0 {
                r matches Err(x) && x == Error::NoFieldsToTemplate
            } else if t@.kind == FieldKind::Positional && !av.settings.generate_structs {
                r matches Err(x) && x == Error::PositionalRequiresStructMode
            } else {
                match crate::extract::spec_extract(t@.fields, 0) {
                    Err(e) => r matches Err(x) && x == e,
                    Ok(cs) => r matches Ok(out) && (if av.settings.generate_structs {
                        out@ == crate::emit::spec_gen_structs(t@, cs, av.derivations, av.settings)
                    } else {
                        exists|idxs: Seq<nat>|
                            crate::names::synth_chain(
                                crate::emit::param_names(t@),
                                idxs,
                                cs.len() as int,
                            ) && out@ == crate::emit::spec_gen_types(
                                t@,
                                cs,
                                crate::names::names_of_idxs(idxs),
                                av.derivations,
                            )
                    }),
                }
            }
        },
    }
}

/// The engine's entry point for one invocation: parses the raw
/// configuration input, checks the template's preconditions, extracts the
/// choice fields, and emits by the selected mode.
///
/// Grammar errors and precondition failures abort the invocation with no
/// output; a resolution failure is reported inside the returned output,
/// beside whatever was emitted before it.
pub fn make_template(attr: &str, template: &Template) -> (r: Result<Output, Error>)
    requires
        template.wf(),
        (template@.fields.len() as int) * (template@.params.len() as int + 1) < usize::MAX as int,
    ensures
        make_template_post(attr@, *template, r),
{
    let cs = text::chars_of(attr);
    match parse::parse_attr(&cs) {
        Err(e) => Err(e),
        Ok((settings, derivations)) => {
            if template.fields.len() == 0 {
                return Err(Error::NoFieldsToTemplate);
            }
            let positional = matches!(template.kind, FieldKind::Positional);
            if positional && !settings.generate_structs {
                return Err(Error::PositionalRequiresStructMode);
            }
            match extract::extract_choices(template, 0) {
                Err(e) => Err(e),
                Ok(choices) => {
                    if settings.generate_structs {
                        Ok(emit::gen_structs(template, &choices, &derivations, settings))
                    } else {
                        Ok(emit::gen_types(template, &choices, &derivations))
                    }
                },
            }
        },
    }
}

/// The expression-level marker in isolation: outside a template it is a
/// semantic no-op that hands its input back unchanged, so that the
/// surrounding syntax stays well-formed before the template is rewritten.
pub fn either(input: String) -> (r: String)
    ensures
        r == input,
{
    input
}

/// A hand-written record of the shape the engine derives: one choice-typed
/// field made generic, with its accessor.
pub struct GenericStruct<T> {
    pub either_type: T,
}

impl<T> GenericStruct<T> {
    /// Hands out the choice-typed field.
    pub fn get_either_type_field(self) -> (r: T)
        ensures
            r == self.either_type,
    {
        self.either_type
    }
}

} // verus!
