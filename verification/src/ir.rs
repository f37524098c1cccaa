//! The schema intermediate representation: a tree of type shapes that the
//! projectors read, together with its mathematical view and its
//! well-formedness predicate.

use vstd::prelude::*;

verus! {

/// Core schema representation for types (not values).
#[derive(Debug, PartialEq)]
pub struct SchemaType {
    pub kind: TypeKind,
    pub description: Option<String>,
}

#[derive(Debug, PartialEq)]
pub enum TypeKind {
    String,
    Integer(IntegerKind),
    Number(NumberKind),
    Boolean,
    Null,
    Object {
        /// Property names with their schemas; names are unique in a
        /// well-formed schema (see [`wf_schema`]).
        properties: Vec<(String, SchemaType)>,
        required: Vec<String>,
    },
    Array {
        items: Box<SchemaType>,
    },
    /// Set type with unique items.
    SetOf {
        items: Box<SchemaType>,
        ordered: bool,
    },
    /// Map/dictionary type with key-value pairs.
    MapOf {
        key: Box<SchemaType>,
        value: Box<SchemaType>,
        ordered: bool,
    },
    Enum {
        variants: Vec<String>,
    },
    /// Legacy flattened representation for backward compatibility.
    TaggedUnion {
        tag_field: String,
        tag_variants: Vec<String>,
        data_fields: Vec<(String, SchemaType)>,
    },
    /// Proper variant type that preserves per-case structure.
    Variant {
        cases: Vec<VariantCase>,
    },
    /// Result type with an ok arm and an error arm.
    Result {
        ok: Box<SchemaType>,
        err: Box<SchemaType>,
    },
    /// Tuple type of fixed arity; the empty tuple is a valid case.
    Tuple {
        fields: Vec<SchemaType>,
    },
    /// A named forward reference; nothing in this crate resolves it.
    Ref {
        name: String,
    },
}

/// A single case in a variant type.
#[derive(Debug, PartialEq)]
pub struct VariantCase {
    pub name: String,
    pub data: Option<SchemaType>,
    pub description: Option<String>,
}

#[derive(Debug, Clone, Copy, PartialEq, Eq, Structural)]
pub enum IntegerKind {
    I32,
    I64,
    U8,
    U32,
    U64,
    Usize,
}

#[derive(Debug, Clone, Copy, PartialEq, Eq, Structural)]
pub enum NumberKind {
    F32,
    F64,
}

/// Mathematical view of a [`SchemaType`]: strings become sequences of
/// characters and vectors become sequences, so that contracts can speak of
/// schema trees as pure values.
pub struct SchemaTypeView {
    pub kind: TypeKindView,
    pub description: Option<Seq<char>>,
}

pub enum TypeKindView {
    String,
    Integer(IntegerKind),
    Number(NumberKind),
    Boolean,
    Null,
    Object { properties: Seq<(Seq<char>, SchemaTypeView)>, required: Seq<Seq<char>> },
    Array { items: Box<SchemaTypeView> },
    SetOf { items: Box<SchemaTypeView>, ordered: bool },
    MapOf { key: Box<SchemaTypeView>, value: Box<SchemaTypeView>, ordered: bool },
    Enum { variants: Seq<Seq<char>> },
    TaggedUnion {
        tag_field: Seq<char>,
        tag_variants: Seq<Seq<char>>,
        data_fields: Seq<(Seq<char>, SchemaTypeView)>,
    },
    Variant { cases: Seq<VariantCaseView> },
    Result { ok: Box<SchemaTypeView>, err: Box<SchemaTypeView> },
    Tuple { fields: Seq<SchemaTypeView> },
    Ref { name: Seq<char> },
}

pub struct VariantCaseView {
    pub name: Seq<char>,
    pub data: Option<SchemaTypeView>,
    pub description: Option<Seq<char>>,
}

pub open spec fn schema_view(s: SchemaType) -> SchemaTypeView
    decreases s,
{
    SchemaTypeView {
        kind: kind_view(s.kind),
        description: match s.description {
            Some(d) => Some(d@),
            None => None,
        },
    }
}

pub open spec fn kind_view(k: TypeKind) -> TypeKindView
    decreases k,
{
    match k {
        TypeKind::String => TypeKindView::String,
        TypeKind::Integer(ik) => TypeKindView::Integer(ik),
        TypeKind::Number(nk) => TypeKindView::Number(nk),
        TypeKind::Boolean => TypeKindView::Boolean,
        TypeKind::Null => TypeKindView::Null,
        TypeKind::Object { properties, required } => TypeKindView::Object {
            properties: props_view(properties@),
            required: required.deep_view(),
        },
        TypeKind::Array { items } => TypeKindView::Array {
            items: Box::new(schema_view(*items)),
        },
        TypeKind::SetOf { items, ordered } => TypeKindView::SetOf {
            items: Box::new(schema_view(*items)),
            ordered,
        },
        TypeKind::MapOf { key, value, ordered } => TypeKindView::MapOf {
            key: Box::new(schema_view(*key)),
            value: Box::new(schema_view(*value)),
            ordered,
        },
        TypeKind::Enum { variants } => TypeKindView::Enum { variants: variants.deep_view() },
        TypeKind::TaggedUnion { tag_field, tag_variants, data_fields } => TypeKindView::TaggedUnion {
            tag_field: tag_field@,
            tag_variants: tag_variants.deep_view(),
            data_fields: props_view(data_fields@),
        },
        TypeKind::Variant { cases } => TypeKindView::Variant { cases: cases_view(cases@) },
        TypeKind::Result { ok, err } => TypeKindView::Result {
            ok: Box::new(schema_view(*ok)),
            err: Box::new(schema_view(*err)),
        },
        TypeKind::Tuple { fields } => TypeKindView::Tuple { fields: fields_view(fields@) },
        TypeKind::Ref { name } => TypeKindView::Ref { name: name@ },
    }
}

pub open spec fn props_view(ps: Seq<(String, SchemaType)>) -> Seq<(Seq<char>, SchemaTypeView)>
    decreases ps,
{
    if ps.len() == 0 {
        Seq::empty()
    } else {
        props_view(ps.drop_last()).push((ps.last().0@, schema_view(ps.last().1)))
    }
}

pub open spec fn fields_view(fs: Seq<SchemaType>) -> Seq<SchemaTypeView>
    decreases fs,
{
    if fs.len() == 0 {
        Seq::empty()
    } else {
        fields_view(fs.drop_last()).push(schema_view(fs.last()))
    }
}

pub open spec fn cases_view(cs: Seq<VariantCase>) -> Seq<VariantCaseView>
    decreases cs,
{
    if cs.len() == 0 {
        Seq::empty()
    } else {
        cases_view(cs.drop_last()).push(case_view(cs.last()))
    }
}

pub open spec fn case_view(c: VariantCase) -> VariantCaseView
    decreases c,
{
    VariantCaseView {
        name: c.name@,
        data: match c.data {
            Some(d) => Some(schema_view(d)),
            None => None,
        },
        description: match c.description {
            Some(d) => Some(d@),
            None => None,
        },
    }
}

pub broadcast proof fn lemma_props_view(ps: Seq<(String, SchemaType)>)
    ensures
        #[trigger] props_view(ps).len() == ps.len(),
        forall|i: int|
            0 <= i < ps.len() ==> props_view(ps)[i] == (ps[i].0@, schema_view(ps[i].1)),
    decreases ps,
{
    if ps.len() > 0 {
        lemma_props_view(ps.drop_last());
    }
}

pub broadcast proof fn lemma_fields_view(fs: Seq<SchemaType>)
    ensures
        #[trigger] fields_view(fs).len() == fs.len(),
        forall|i: int| 0 <= i < fs.len() ==> fields_view(fs)[i] == schema_view(fs[i]),
    decreases fs,
{
    if fs.len() > 0 {
        lemma_fields_view(fs.drop_last());
    }
}

pub broadcast proof fn lemma_cases_view(cs: Seq<VariantCase>)
    ensures
        #[trigger] cases_view(cs).len() == cs.len(),
        forall|i: int| 0 <= i < cs.len() ==> cases_view(cs)[i] == case_view(cs[i]),
    decreases cs,
{
    if cs.len() > 0 {
        lemma_cases_view(cs.drop_last());
    }
}

/// The names of a property list, in order.
pub open spec fn prop_names(ps: Seq<(Seq<char>, SchemaTypeView)>) -> Seq<Seq<char>> {
    ps.map_values(|p: (Seq<char>, SchemaTypeView)| p.0)
}

/// Well-formedness of a schema tree: property names are unique within each
/// object, every required name is one of its object's property names, and
/// the same holds throughout the tree. Construction is expected to
/// establish this; the projectors are total either way.
pub open spec fn wf_schema(s: SchemaTypeView) -> bool
    decreases s, 1int,
{
    match s.kind {
        TypeKindView::Object { properties, required } => {
            &&& prop_names(properties).no_duplicates()
            &&& forall|i: int|
                0 <= i < required.len() ==> prop_names(properties).contains(#[trigger] required[i])
            &&& wf_props(properties)
        },
        TypeKindView::Array { items } => wf_schema(*items),
        TypeKindView::SetOf { items, ordered } => wf_schema(*items),
        TypeKindView::MapOf { key, value, ordered } => wf_schema(*key) && wf_schema(*value),
        TypeKindView::TaggedUnion { tag_field, tag_variants, data_fields } => {
            &&& prop_names(data_fields).no_duplicates()
            &&& wf_props(data_fields)
        },
        TypeKindView::Variant { cases } => wf_cases(cases),
        TypeKindView::Result { ok, err } => wf_schema(*ok) && wf_schema(*err),
        TypeKindView::Tuple { fields } => wf_fields(fields),
        _ => true,
    }
}

/// Well-formedness of each schema in a property list.
pub open spec fn wf_props(ps: Seq<(Seq<char>, SchemaTypeView)>) -> bool
    decreases ps, 0int,
{
    ps.len() == 0 || (wf_schema(ps.first().1) && wf_props(ps.drop_first()))
}

/// Well-formedness of each element schema.
pub open spec fn wf_fields(fs: Seq<SchemaTypeView>) -> bool
    decreases fs, 0int,
{
    fs.len() == 0 || (wf_schema(fs.first()) && wf_fields(fs.drop_first()))
}

/// Well-formedness of each case payload.
pub open spec fn wf_cases(cs: Seq<VariantCaseView>) -> bool
    decreases cs, 0int,
{
    cs.len() == 0 || ((match cs.first().data {
        Some(d) => wf_schema(d),
        None => true,
    }) && wf_cases(cs.drop_first()))
}

impl DeepView for SchemaType {
    type V = SchemaTypeView;

    open spec fn deep_view(&self) -> SchemaTypeView {
        schema_view(*self)
    }
}

impl DeepView for VariantCase {
    type V = VariantCaseView;

    open spec fn deep_view(&self) -> VariantCaseView {
        case_view(*self)
    }
}

} // verus!
