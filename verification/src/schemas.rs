//! The `Schema` trait: a capability through which a type reports its own
//! shape as a [`SchemaType`] tree, together with implementations for the
//! primitive and collection types with a fixed mapping.

use vstd::prelude::*;

use crate::ir::fields_view;
use crate::ir::lemma_fields_view;
use crate::ir::props_view;
use crate::ir::IntegerKind;
use crate::ir::NumberKind;
use crate::ir::SchemaType;
use crate::ir::SchemaTypeView;
use crate::ir::TypeKind;
use crate::ir::TypeKindView;

verus! {

/// Declares std::path::PathBuf so that it can carry a `Schema`
/// implementation; the path value itself is opaque here.
#[verifier::external_type_specification]
#[verifier::external_body]
pub struct ExPathBuf(std::path::PathBuf);

/// Declares serde_json::Value so that it can carry a `Schema`
/// implementation; the JSON value itself is opaque here.
#[verifier::external_type_specification]
#[verifier::external_body]
pub struct ExJsonValue(serde_json::Value);

/// Trait for types that can be represented as schemas.
///
/// `spec_schema` and `spec_schema_name` are the mathematical values that the
/// executable `schema` and `type_name` are bound to return, so that callers
/// generic over `Schema` can state exactly what they produce.
pub trait Schema {
    /// The view of the schema that `schema` returns; an implementation
    /// outside this crate that does not override it leaves it unspecified.
    open spec fn spec_schema() -> SchemaTypeView {
        arbitrary()
    }

    /// The view of the name that `schema_name` returns; an implementation
    /// outside this crate that does not override it leaves it unspecified.
    open spec fn spec_schema_name() -> Option<Seq<char>> {
        arbitrary()
    }

    /// Get the schema for this type.
    fn schema() -> (s: SchemaType)
        ensures
            s.deep_view() == Self::spec_schema(),
    ;

    /// Optional: get the type name for top-level declarations.
    fn schema_name() -> (n: Option<&'static str>)
        ensures
            (match n {
                Some(t) => Some(t@),
                None => None::<Seq<char>>,
            }) == Self::spec_schema_name(),
    ;
}

impl Schema for String {
    open spec fn spec_schema() -> SchemaTypeView {
        SchemaTypeView { kind: TypeKindView::String, description: None }
    }

    open spec fn spec_schema_name() -> Option<Seq<char>> {
        None
    }

    fn schema() -> (s: SchemaType) {
        SchemaType { kind: TypeKind::String, description: None }
    }

    fn schema_name() -> (n: Option<&'static str>) {
        None
    }
}

impl Schema for i32 {
    open spec fn spec_schema() -> SchemaTypeView {
        SchemaTypeView { kind: TypeKindView::Integer(IntegerKind::I32), description: None }
    }

    open spec fn spec_schema_name() -> Option<Seq<char>> {
        None
    }

    fn schema() -> (s: SchemaType) {
        SchemaType { kind: TypeKind::Integer(IntegerKind::I32), description: None }
    }

    fn schema_name() -> (n: Option<&'static str>) {
        None
    }
}

impl Schema for bool {
    open spec fn spec_schema() -> SchemaTypeView {
        SchemaTypeView { kind: TypeKindView::Boolean, description: None }
    }

    open spec fn spec_schema_name() -> Option<Seq<char>> {
        None
    }

    fn schema() -> (s: SchemaType) {
        SchemaType { kind: TypeKind::Boolean, description: None }
    }

    fn schema_name() -> (n: Option<&'static str>) {
        None
    }
}

impl Schema for i64 {
    open spec fn spec_schema() -> SchemaTypeView {
        SchemaTypeView { kind: TypeKindView::Integer(IntegerKind::I64), description: None }
    }

    open spec fn spec_schema_name() -> Option<Seq<char>> {
        None
    }

    fn schema() -> (s: SchemaType) {
        SchemaType { kind: TypeKind::Integer(IntegerKind::I64), description: None }
    }

    fn schema_name() -> (n: Option<&'static str>) {
        None
    }
}

impl Schema for u8 {
    open spec fn spec_schema() -> SchemaTypeView {
        SchemaTypeView { kind: TypeKindView::Integer(IntegerKind::U8), description: None }
    }

    open spec fn spec_schema_name() -> Option<Seq<char>> {
        None
    }

    fn schema() -> (s: SchemaType) {
        SchemaType { kind: TypeKind::Integer(IntegerKind::U8), description: None }
    }

    fn schema_name() -> (n: Option<&'static str>) {
        None
    }
}

impl Schema for u32 {
    open spec fn spec_schema() -> SchemaTypeView {
        SchemaTypeView { kind: TypeKindView::Integer(IntegerKind::U32), description: None }
    }

    open spec fn spec_schema_name() -> Option<Seq<char>> {
        None
    }

    fn schema() -> (s: SchemaType) {
        SchemaType { kind: TypeKind::Integer(IntegerKind::U32), description: None }
    }

    fn schema_name() -> (n: Option<&'static str>) {
        None
    }
}

impl Schema for u64 {
    open spec fn spec_schema() -> SchemaTypeView {
        SchemaTypeView { kind: TypeKindView::Integer(IntegerKind::U64), description: None }
    }

    open spec fn spec_schema_name() -> Option<Seq<char>> {
        None
    }

    fn schema() -> (s: SchemaType) {
        SchemaType { kind: TypeKind::Integer(IntegerKind::U64), description: None }
    }

    fn schema_name() -> (n: Option<&'static str>) {
        None
    }
}

impl Schema for usize {
    open spec fn spec_schema() -> SchemaTypeView {
        SchemaTypeView { kind: TypeKindView::Integer(IntegerKind::Usize), description: None }
    }

    open spec fn spec_schema_name() -> Option<Seq<char>> {
        None
    }

    fn schema() -> (s: SchemaType) {
        SchemaType { kind: TypeKind::Integer(IntegerKind::Usize), description: None }
    }

    fn schema_name() -> (n: Option<&'static str>) {
        None
    }
}

impl Schema for () {
    open spec fn spec_schema() -> SchemaTypeView {
        SchemaTypeView {
            kind: TypeKindView::Object { properties: Seq::empty(), required: Seq::empty() },
            description: None,
        }
    }

    open spec fn spec_schema_name() -> Option<Seq<char>> {
        None
    }

    fn schema() -> (s: SchemaType) {
        let properties: Vec<(String, SchemaType)> = Vec::new();
        let required: Vec<String> = Vec::new();
        proof {
            assert(props_view(properties@) == Seq::<(Seq<char>, SchemaTypeView)>::empty());
            assert(required.deep_view() =~= Seq::<Seq<char>>::empty());
        }
        SchemaType {
            kind: TypeKind::Object { properties, required },
            description: None,
        }
    }

    fn schema_name() -> (n: Option<&'static str>) {
        None
    }
}

impl Schema for std::path::PathBuf {
    open spec fn spec_schema() -> SchemaTypeView {
        SchemaTypeView { kind: TypeKindView::String, description: Some("File system path"@) }
    }

    open spec fn spec_schema_name() -> Option<Seq<char>> {
        None
    }

    fn schema() -> (s: SchemaType) {
        SchemaType { kind: TypeKind::String, description: Some("File system path".to_owned()) }
    }

    fn schema_name() -> (n: Option<&'static str>) {
        None
    }
}

impl Schema for serde_json::Value {
    open spec fn spec_schema() -> SchemaTypeView {
        SchemaTypeView {
            kind: TypeKindView::Object { properties: Seq::empty(), required: Seq::empty() },
            description: Some("Dynamic JSON value"@),
        }
    }

    open spec fn spec_schema_name() -> Option<Seq<char>> {
        None
    }

    fn schema() -> (s: SchemaType) {
        let properties: Vec<(String, SchemaType)> = Vec::new();
        let required: Vec<String> = Vec::new();
        proof {
            assert(props_view(properties@) == Seq::<(Seq<char>, SchemaTypeView)>::empty());
            assert(required.deep_view() =~= Seq::<Seq<char>>::empty());
        }
        SchemaType {
            kind: TypeKind::Object { properties, required },
            description: Some("Dynamic JSON value".to_owned()),
        }
    }

    fn schema_name() -> (n: Option<&'static str>) {
        None
    }
}

impl<T: Schema> Schema for Option<T> {
    open spec fn spec_schema() -> SchemaTypeView {
        T::spec_schema()
    }

    open spec fn spec_schema_name() -> Option<Seq<char>> {
        None
    }

    fn schema() -> (s: SchemaType) {
        T::schema()
    }

    fn schema_name() -> (n: Option<&'static str>) {
        None
    }
}

impl<T: Schema> Schema for Vec<T> {
    open spec fn spec_schema() -> SchemaTypeView {
        SchemaTypeView {
            kind: TypeKindView::Array { items: Box::new(T::spec_schema()) },
            description: None,
        }
    }

    open spec fn spec_schema_name() -> Option<Seq<char>> {
        None
    }

    fn schema() -> (s: SchemaType) {
        SchemaType {
            kind: TypeKind::Array { items: Box::new(T::schema()) },
            description: None,
        }
    }

    fn schema_name() -> (n: Option<&'static str>) {
        None
    }
}

impl<K: Schema, V: Schema> Schema for std::collections::HashMap<K, V> {
    open spec fn spec_schema() -> SchemaTypeView {
        SchemaTypeView {
            kind: TypeKindView::MapOf {
                key: Box::new(K::spec_schema()),
                value: Box::new(V::spec_schema()),
                ordered: false,
            },
            description: Some("Unordered map/dictionary of key-value pairs"@),
        }
    }

    open spec fn spec_schema_name() -> Option<Seq<char>> {
        None
    }

    fn schema() -> (s: SchemaType) {
        SchemaType {
            kind: TypeKind::MapOf {
                key: Box::new(K::schema()),
                value: Box::new(V::schema()),
                ordered: false,
            },
            description: Some("Unordered map/dictionary of key-value pairs".to_owned()),
        }
    }

    fn schema_name() -> (n: Option<&'static str>) {
        None
    }
}

impl<T: Schema> Schema for std::collections::HashSet<T> {
    open spec fn spec_schema() -> SchemaTypeView {
        SchemaTypeView {
            kind: TypeKindView::SetOf { items: Box::new(T::spec_schema()), ordered: false },
            description: Some("Unordered set of unique values"@),
        }
    }

    open spec fn spec_schema_name() -> Option<Seq<char>> {
        None
    }

    fn schema() -> (s: SchemaType) {
        SchemaType {
            kind: TypeKind::SetOf { items: Box::new(T::schema()), ordered: false },
            description: Some("Unordered set of unique values".to_owned()),
        }
    }

    fn schema_name() -> (n: Option<&'static str>) {
        None
    }
}

impl<K: Schema, V: Schema> Schema for std::collections::BTreeMap<K, V> {
    open spec fn spec_schema() -> SchemaTypeView {
        SchemaTypeView {
            kind: TypeKindView::MapOf {
                key: Box::new(K::spec_schema()),
                value: Box::new(V::spec_schema()),
                ordered: true,
            },
            description: Some("Ordered map/dictionary of key-value pairs"@),
        }
    }

    open spec fn spec_schema_name() -> Option<Seq<char>> {
        None
    }

    fn schema() -> (s: SchemaType) {
        SchemaType {
            kind: TypeKind::MapOf {
                key: Box::new(K::schema()),
                value: Box::new(V::schema()),
                ordered: true,
            },
            description: Some("Ordered map/dictionary of key-value pairs".to_owned()),
        }
    }

    fn schema_name() -> (n: Option<&'static str>) {
        None
    }
}

impl<T: Schema> Schema for std::collections::BTreeSet<T> {
    open spec fn spec_schema() -> SchemaTypeView {
        SchemaTypeView {
            kind: TypeKindView::SetOf { items: Box::new(T::spec_schema()), ordered: true },
            description: Some("Ordered set of unique values"@),
        }
    }

    open spec fn spec_schema_name() -> Option<Seq<char>> {
        None
    }

    fn schema() -> (s: SchemaType) {
        SchemaType {
            kind: TypeKind::SetOf { items: Box::new(T::schema()), ordered: true },
            description: Some("Ordered set of unique values".to_owned()),
        }
    }

    fn schema_name() -> (n: Option<&'static str>) {
        None
    }
}

impl<T: Schema, E: Schema> Schema for Result<T, E> {
    open spec fn spec_schema() -> SchemaTypeView {
        SchemaTypeView {
            kind: TypeKindView::Result {
                ok: Box::new(T::spec_schema()),
                err: Box::new(E::spec_schema()),
            },
            description: None,
        }
    }

    open spec fn spec_schema_name() -> Option<Seq<char>> {
        None
    }

    fn schema() -> (s: SchemaType) {
        SchemaType {
            kind: TypeKind::Result { ok: Box::new(T::schema()), err: Box::new(E::schema()) },
            description: None,
        }
    }

    fn schema_name() -> (n: Option<&'static str>) {
        None
    }
}

impl<T1: Schema> Schema for (T1,) {
    open spec fn spec_schema() -> SchemaTypeView {
        SchemaTypeView {
            kind: TypeKindView::Tuple { fields: seq![T1::spec_schema()] },
            description: None,
        }
    }

    open spec fn spec_schema_name() -> Option<Seq<char>> {
        None
    }

    fn schema() -> (s: SchemaType) {
        let mut fields: Vec<SchemaType> = Vec::new();
        fields.push(T1::schema());
        proof {
            lemma_fields_view(fields@);
            assert(fields_view(fields@) =~= seq![T1::spec_schema()]);
        }
        SchemaType {
            kind: TypeKind::Tuple { fields },
            description: None,
        }
    }

    fn schema_name() -> (n: Option<&'static str>) {
        None
    }
}

impl<T1: Schema, T2: Schema> Schema for (T1, T2) {
    open spec fn spec_schema() -> SchemaTypeView {
        SchemaTypeView {
            kind: TypeKindView::Tuple { fields: seq![T1::spec_schema(), T2::spec_schema()] },
            description: None,
        }
    }

    open spec fn spec_schema_name() -> Option<Seq<char>> {
        None
    }

    fn schema() -> (s: SchemaType) {
        let mut fields: Vec<SchemaType> = Vec::new();
        fields.push(T1::schema());
        fields.push(T2::schema());
        proof {
            lemma_fields_view(fields@);
            assert(fields_view(fields@) =~= seq![T1::spec_schema(), T2::spec_schema()]);
        }
        SchemaType {
            kind: TypeKind::Tuple { fields },
            description: None,
        }
    }

    fn schema_name() -> (n: Option<&'static str>) {
        None
    }
}

impl<T1: Schema, T2: Schema, T3: Schema> Schema for (T1, T2, T3) {
    open spec fn spec_schema() -> SchemaTypeView {
        SchemaTypeView {
            kind: TypeKindView::Tuple {
                fields: seq![T1::spec_schema(), T2::spec_schema(), T3::spec_schema()],
            },
            description: None,
        }
    }

    open spec fn spec_schema_name() -> Option<Seq<char>> {
        None
    }

    fn schema() -> (s: SchemaType) {
        let mut fields: Vec<SchemaType> = Vec::new();
        fields.push(T1::schema());
        fields.push(T2::schema());
        fields.push(T3::schema());
        proof {
            lemma_fields_view(fields@);
            assert(fields_view(fields@) =~= seq![T1::spec_schema(), T2::spec_schema(), T3::spec_schema()]);
        }
        SchemaType {
            kind: TypeKind::Tuple { fields },
            description: None,
        }
    }

    fn schema_name() -> (n: Option<&'static str>) {
        None
    }
}

impl<T1: Schema, T2: Schema, T3: Schema, T4: Schema> Schema for (T1, T2, T3, T4) {
    open spec fn spec_schema() -> SchemaTypeView {
        SchemaTypeView {
            kind: TypeKindView::Tuple {
                fields: seq![
                    T1::spec_schema(),
                    T2::spec_schema(),
                    T3::spec_schema(),
                    T4::spec_schema(),
                ],
            },
            description: None,
        }
    }

    open spec fn spec_schema_name() -> Option<Seq<char>> {
        None
    }

    fn schema() -> (s: SchemaType) {
        let mut fields: Vec<SchemaType> = Vec::new();
        fields.push(T1::schema());
        fields.push(T2::schema());
        fields.push(T3::schema());
        fields.push(T4::schema());
        proof {
            lemma_fields_view(fields@);
            assert(fields_view(fields@) =~= seq![T1::spec_schema(), T2::spec_schema(), T3::spec_schema(), T4::spec_schema()]);
        }
        SchemaType {
            kind: TypeKind::Tuple { fields },
            description: None,
        }
    }

    fn schema_name() -> (n: Option<&'static str>) {
        None
    }
}

} // verus!
