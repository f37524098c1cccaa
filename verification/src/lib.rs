pub mod ir;
pub mod json;
pub mod anthropic;
pub mod openapi;
pub mod wit;
pub mod laws;
pub mod schemas;

pub use ir::IntegerKind;
pub use ir::NumberKind;
pub use ir::SchemaType;
pub use schemas::Schema;
pub use json::JsonValue;
pub use json::JsonView;
pub use anthropic::create_tool_schema;
pub use anthropic::to_anthropic_schema;
pub use openapi::schema_type_to_openapi;
pub use openapi::to_openapi_schema;
pub use wit::enum_to_wit;
pub use wit::integer_to_wit;
pub use wit::number_to_wit;
pub use wit::record_to_wit;
pub use wit::schema_type_to_wit;
pub use wit::to_kebab_case;
pub use wit::to_wit_type;
pub use wit::tuple_to_wit;
pub use wit::variant_to_wit;
pub use ir::SchemaTypeView;
pub use ir::TypeKind;
pub use ir::TypeKindView;
pub use ir::VariantCase;
pub use ir::VariantCaseView;
