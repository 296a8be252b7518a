//! The engine's data model: templates, settings, derivations, choice-field
//! descriptors, output items, and the error taxonomy.
//!
//! Executable values carry their text as `Vec<char>`; each type has a view
//! over `Seq<char>` that the contracts speak of.

use vstd::prelude::*;
use crate::text::spec_dec;

verus! {

/// A visibility, carried through from the input to the output.
#[derive(PartialEq, Eq, Debug)]
pub enum Vis {
    /// No visibility keyword.
    Inherited,
    /// `pub`.
    Public,
    /// `pub ( ... )`, with the canonical text of the restriction.
    Restricted(Vec<char>),
}

/// View of [`Vis`].
pub enum VisView {
    Inherited,
    Public,
    Restricted(Seq<char>),
}

impl View for Vis {
    type V = VisView;

    open spec fn view(&self) -> VisView {
        match self {
            Vis::Inherited => VisView::Inherited,
            Vis::Public => VisView::Public,
            Vis::Restricted(t) => VisView::Restricted(t@),
        }
    }
}

/// The declared type of a template field, as handed to the engine.
#[derive(PartialEq, Eq, Debug)]
pub enum FieldType {
    /// An ordinary type, as canonical text.
    Plain(Vec<char>),
    /// A macro-shaped type: a path and the raw text between its delimiters.
    /// Whether it marks a choice field is decided by the extractor.
    Marker { path: Vec<Vec<char>>, body: Vec<char> },
}

/// View of [`FieldType`].
pub enum FieldTypeView {
    Plain(Seq<char>),
    Marker { path: Seq<Seq<char>>, body: Seq<char> },
}

impl View for FieldType {
    type V = FieldTypeView;

    open spec fn view(&self) -> FieldTypeView {
        match self {
            FieldType::Plain(t) => FieldTypeView::Plain(t@),
            FieldType::Marker { path, body } => (FieldTypeView::Marker {
                path: path.deep_view(),
                body: body@,
            }),
        }
    }
}

/// One field of a template: named in a record with named fields, anonymous
/// in a position-keyed (tuple) record.
#[derive(PartialEq, Eq, Debug)]
pub struct Field {
    pub name: Option<Vec<char>>,
    pub ty: FieldType,
}

/// View of [`Field`].
pub struct FieldView {
    pub name: Option<Seq<char>>,
    pub ty: FieldTypeView,
}

impl View for Field {
    type V = FieldView;

    open spec fn view(&self) -> FieldView {
        FieldView { name: self.name.deep_view(), ty: self.ty@ }
    }
}

/// A pre-existing type parameter of the template: its bare name, and its
/// full declaration text (name plus bounds).
#[derive(PartialEq, Eq, Debug)]
pub struct Param {
    pub name: Vec<char>,
    pub decl: Vec<char>,
}

/// View of [`Param`].
pub struct ParamView {
    pub name: Seq<char>,
    pub decl: Seq<char>,
}

impl View for Param {
    type V = ParamView;

    open spec fn view(&self) -> ParamView {
        ParamView { name: self.name@, decl: self.decl@ }
    }
}

/// Whether a record keys its fields by name or by position.
#[derive(Clone, Copy, PartialEq, Eq, Structural, Debug)]
pub enum FieldKind {
    Named,
    Positional,
}

/// The template definition handed to the engine.
#[derive(PartialEq, Eq, Debug)]
pub struct Template {
    pub name: Vec<char>,
    pub vis: Vis,
    pub params: Vec<Param>,
    pub kind: FieldKind,
    pub fields: Vec<Field>,
}

/// View of [`Template`].
pub struct TemplateView {
    pub name: Seq<char>,
    pub vis: VisView,
    pub params: Seq<ParamView>,
    pub kind: FieldKind,
    pub fields: Seq<FieldView>,
}

impl View for Template {
    type V = TemplateView;

    open spec fn view(&self) -> TemplateView {
        TemplateView {
            name: self.name@,
            vis: self.vis@,
            params: self.params.deep_view(),
            kind: self.kind,
            fields: self.fields.deep_view(),
        }
    }
}

impl Template {
    /// A well-formed template names every field exactly when its kind says
    /// fields are name-keyed.
    pub open spec fn wf(&self) -> bool {
        forall|i: int|
            0 <= i < self.fields@.len() ==> (self.fields@[i].name is Some <==> self.kind
                == FieldKind::Named)
    }
}

/// The key of the field at position `i`: its name, or `_i` for an
/// anonymous field, so that name-keyed and position-keyed fields share one
/// key space.
pub open spec fn spec_field_key(name: Option<Seq<char>>, i: int) -> Seq<char> {
    match name {
        Some(n) => n,
        None => seq!['_'] + spec_dec(i as nat),
    }
}

/// The three settings of an invocation, each defaulting to off.
#[derive(Clone, Copy, PartialEq, Eq, Structural, Debug)]
pub struct Settings {
    /// Emit one independent record definition per derivation instead of a
    /// parameterized template plus aliases.
    pub generate_structs: bool,
    /// In struct-generation mode, leave the template itself out of the
    /// output.
    pub delete_template: bool,
    /// In struct-generation mode, drop every field whose resolved type is
    /// the empty tuple.
    pub omit_empty_tuple_fields: bool,
}

impl Settings {
    /// The settings before any pair of the settings segment applies.
    pub fn initial() -> (r: Settings)
        ensures
            r == (Settings {
                generate_structs: false,
                delete_template: false,
                omit_empty_tuple_fields: false,
            }),
    {
        Settings { generate_structs: false, delete_template: false, omit_empty_tuple_fields: false }
    }
}

/// What a derivation binds one field key to.
#[derive(PartialEq, Eq, Debug)]
pub enum Bind {
    /// The explicit wildcard: use the field's default candidate.
    Wildcard,
    /// A concrete type, as canonical text.
    Chosen(Vec<char>),
}

/// View of [`Bind`].
pub enum BindView {
    Wildcard,
    Chosen(Seq<char>),
}

impl View for Bind {
    type V = BindView;

    open spec fn view(&self) -> BindView {
        match self {
            Bind::Wildcard => BindView::Wildcard,
            Bind::Chosen(t) => BindView::Chosen(t@),
        }
    }
}

/// One field binding of a derivation.
#[derive(PartialEq, Eq, Debug)]
pub struct Binding {
    pub key: Vec<char>,
    pub bind: Bind,
}

/// View of [`Binding`].
pub struct BindingView {
    pub key: Seq<char>,
    pub bind: BindView,
}

impl View for Binding {
    type V = BindingView;

    open spec fn view(&self) -> BindingView {
        BindingView { key: self.key@, bind: self.bind@ }
    }
}

/// A derivation request: a name, a visibility, and field bindings.
#[derive(PartialEq, Eq, Debug)]
pub struct Derivation {
    pub name: Vec<char>,
    pub vis: Vis,
    pub binds: Vec<Binding>,
}

/// View of [`Derivation`].
pub struct DerivationView {
    pub name: Seq<char>,
    pub vis: VisView,
    pub binds: Seq<BindingView>,
}

impl View for Derivation {
    type V = DerivationView;

    open spec fn view(&self) -> DerivationView {
        DerivationView {
            name: self.name@,
            vis: self.vis@,
            binds: self.binds.deep_view(),
        }
    }
}

/// A choice-field descriptor: the position of the field in the template,
/// its key, and its ordered candidate set.
#[derive(PartialEq, Eq, Debug)]
pub struct Choice {
    pub field_index: usize,
    pub key: Vec<char>,
    pub candidates: Vec<Vec<char>>,
}

/// View of [`Choice`].
pub struct ChoiceView {
    pub field_index: int,
    pub key: Seq<char>,
    pub candidates: Seq<Seq<char>>,
}

impl View for Choice {
    type V = ChoiceView;

    open spec fn view(&self) -> ChoiceView {
        ChoiceView {
            field_index: self.field_index as int,
            key: self.key@,
            candidates: self.candidates.deep_view(),
        }
    }
}

/// One field of an emitted record definition.
#[derive(PartialEq, Eq, Debug)]
pub struct StructField {
    pub name: Option<Vec<char>>,
    pub ty: Vec<char>,
}

/// View of [`StructField`].
pub struct StructFieldView {
    pub name: Option<Seq<char>>,
    pub ty: Seq<char>,
}

impl View for StructField {
    type V = StructFieldView;

    open spec fn view(&self) -> StructFieldView {
        StructFieldView { name: self.name.deep_view(), ty: self.ty@ }
    }
}

/// An emitted record definition.
#[derive(PartialEq, Eq, Debug)]
pub struct StructDef {
    pub name: Vec<char>,
    pub vis: Vis,
    /// Parameter declarations, in order.
    pub params: Vec<Vec<char>>,
    pub kind: FieldKind,
    pub fields: Vec<StructField>,
}

/// View of [`StructDef`].
pub struct StructDefView {
    pub name: Seq<char>,
    pub vis: VisView,
    pub params: Seq<Seq<char>>,
    pub kind: FieldKind,
    pub fields: Seq<StructFieldView>,
}

impl View for StructDef {
    type V = StructDefView;

    open spec fn view(&self) -> StructDefView {
        StructDefView {
            name: self.name@,
            vis: self.vis@,
            params: self.params.deep_view(),
            kind: self.kind,
            fields: self.fields.deep_view(),
        }
    }
}

/// An emitted type alias: `vis type name<params> = target<args>;`.
#[derive(PartialEq, Eq, Debug)]
pub struct AliasDef {
    pub name: Vec<char>,
    pub vis: Vis,
    /// Parameter declarations of the alias itself, in order.
    pub params: Vec<Vec<char>>,
    pub target: Vec<char>,
    /// Arguments instantiating the target, in order.
    pub args: Vec<Vec<char>>,
}

/// View of [`AliasDef`].
pub struct AliasDefView {
    pub name: Seq<char>,
    pub vis: VisView,
    pub params: Seq<Seq<char>>,
    pub target: Seq<char>,
    pub args: Seq<Seq<char>>,
}

impl View for AliasDef {
    type V = AliasDefView;

    open spec fn view(&self) -> AliasDefView {
        AliasDefView {
            name: self.name@,
            vis: self.vis@,
            params: self.params.deep_view(),
            target: self.target@,
            args: self.args.deep_view(),
        }
    }
}

/// One item of the engine's output.
#[derive(PartialEq, Eq, Debug)]
pub enum OutputItem {
    Definition(StructDef),
    Alias(AliasDef),
}

/// View of [`OutputItem`].
pub enum OutputItemView {
    Definition(StructDefView),
    Alias(AliasDefView),
}

impl View for OutputItem {
    type V = OutputItemView;

    open spec fn view(&self) -> OutputItemView {
        match self {
            OutputItem::Definition(d) => OutputItemView::Definition(d@),
            OutputItem::Alias(a) => OutputItemView::Alias(a@),
        }
    }
}

/// The output of one invocation: the emitted items, and the diagnostic of
/// the resolution failure that cut the run short, if one did.
#[derive(PartialEq, Eq, Debug)]
pub struct Output {
    pub items: Vec<OutputItem>,
    pub diagnostic: Option<Error>,
}

/// View of [`Output`].
pub struct OutputView {
    pub items: Seq<OutputItemView>,
    pub diagnostic: Option<ErrorView>,
}

impl View for Output {
    type V = OutputView;

    open spec fn view(&self) -> OutputView {
        OutputView {
            items: self.items.deep_view(),
            diagnostic: match &self.diagnostic {
                Some(e) => Some(e@),
                None => None,
            },
        }
    }
}

/// Everything that can go wrong in one invocation.
#[derive(PartialEq, Eq, Debug)]
pub enum Error {
    /// A choice expression with no type at all.
    EmptyChoiceSet,
    /// A choice expression with an empty or wildcard alternative.
    MalformedChoiceExpr,
    /// A malformed pair in the settings segment.
    InvalidSetting,
    /// Malformed derivation syntax.
    MalformedDerivation,
    /// A positional binding key that is not a plain number.
    NonNumericKeyLiteral,
    /// Two bindings of one derivation share a key.
    DuplicateBindingKey,
    /// The template has no field to vary.
    NoFieldsToTemplate,
    /// A position-keyed template was asked for alias mode.
    PositionalRequiresStructMode,
    /// A derivation binds a key that is no choice field of the template.
    UnknownFieldKey { derivation: Vec<char>, field: Vec<char> },
    /// A derivation binds a field to a type outside its candidate set.
    TypeNotInCandidateSet {
        derivation: Vec<char>,
        field: Vec<char>,
        offending: Vec<char>,
        candidates: Vec<Vec<char>>,
    },
}

/// View of [`Error`].
pub enum ErrorView {
    EmptyChoiceSet,
    MalformedChoiceExpr,
    InvalidSetting,
    MalformedDerivation,
    NonNumericKeyLiteral,
    DuplicateBindingKey,
    NoFieldsToTemplate,
    PositionalRequiresStructMode,
    UnknownFieldKey { derivation: Seq<char>, field: Seq<char> },
    TypeNotInCandidateSet {
        derivation: Seq<char>,
        field: Seq<char>,
        offending: Seq<char>,
        candidates: Seq<Seq<char>>,
    },
}

impl View for Error {
    type V = ErrorView;

    open spec fn view(&self) -> ErrorView {
        match self {
            Error::EmptyChoiceSet => ErrorView::EmptyChoiceSet,
            Error::MalformedChoiceExpr => ErrorView::MalformedChoiceExpr,
            Error::InvalidSetting => ErrorView::InvalidSetting,
            Error::MalformedDerivation => ErrorView::MalformedDerivation,
            Error::NonNumericKeyLiteral => ErrorView::NonNumericKeyLiteral,
            Error::DuplicateBindingKey => ErrorView::DuplicateBindingKey,
            Error::NoFieldsToTemplate => ErrorView::NoFieldsToTemplate,
            Error::PositionalRequiresStructMode => ErrorView::PositionalRequiresStructMode,
            Error::UnknownFieldKey { derivation, field } => (ErrorView::UnknownFieldKey {
                derivation: derivation@,
                field: field@,
            }),
            Error::TypeNotInCandidateSet { derivation, field, offending, candidates } => (
            ErrorView::TypeNotInCandidateSet {
                derivation: derivation@,
                field: field@,
                offending: offending@,
                candidates: candidates.deep_view(),
            }),
        }
    }
}

impl DeepView for Vis {
    type V = VisView;

    open spec fn deep_view(&self) -> VisView {
        self.view()
    }
}

impl DeepView for FieldType {
    type V = FieldTypeView;

    open spec fn deep_view(&self) -> FieldTypeView {
        self.view()
    }
}

impl DeepView for Field {
    type V = FieldView;

    open spec fn deep_view(&self) -> FieldView {
        self.view()
    }
}

impl DeepView for Param {
    type V = ParamView;

    open spec fn deep_view(&self) -> ParamView {
        self.view()
    }
}

impl DeepView for Template {
    type V = TemplateView;

    open spec fn deep_view(&self) -> TemplateView {
        self.view()
    }
}

impl DeepView for Bind {
    type V = BindView;

    open spec fn deep_view(&self) -> BindView {
        self.view()
    }
}

impl DeepView for Binding {
    type V = BindingView;

    open spec fn deep_view(&self) -> BindingView {
        self.view()
    }
}

impl DeepView for Derivation {
    type V = DerivationView;

    open spec fn deep_view(&self) -> DerivationView {
        self.view()
    }
}

impl DeepView for Choice {
    type V = ChoiceView;

    open spec fn deep_view(&self) -> ChoiceView {
        self.view()
    }
}

impl DeepView for StructField {
    type V = StructFieldView;

    open spec fn deep_view(&self) -> StructFieldView {
        self.view()
    }
}

impl DeepView for StructDef {
    type V = StructDefView;

    open spec fn deep_view(&self) -> StructDefView {
        self.view()
    }
}

impl DeepView for AliasDef {
    type V = AliasDefView;

    open spec fn deep_view(&self) -> AliasDefView {
        self.view()
    }
}

impl DeepView for OutputItem {
    type V = OutputItemView;

    open spec fn deep_view(&self) -> OutputItemView {
        self.view()
    }
}

impl DeepView for Error {
    type V = ErrorView;

    open spec fn deep_view(&self) -> ErrorView {
        self.view()
    }
}

} // verus!
