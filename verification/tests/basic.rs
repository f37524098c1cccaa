use std::collections::BTreeMap;
use std::collections::BTreeSet;
use std::collections::HashMap;
use std::collections::HashSet;

use schema::IntegerKind;
use schema::Schema;
use schema::SchemaType;
use schema::TypeKind;

fn string_schema() -> SchemaType {
    SchemaType { kind: TypeKind::String, description: None }
}

fn int_schema(kind: IntegerKind) -> SchemaType {
    SchemaType { kind: TypeKind::Integer(kind), description: None }
}

fn props_contain(properties: &[(String, SchemaType)], key: &str) -> bool {
    properties.iter().any(|p| p.0 == key)
}

fn props_get<'a>(properties: &'a [(String, SchemaType)], key: &str) -> Option<&'a SchemaType> {
    properties.iter().find(|p| p.0 == key).map(|p| &p.1)
}

#[allow(dead_code)]
struct Person {
    name: String,
    age: i32,
    email: Option<String>,
}

impl Schema for Person {
    fn schema() -> SchemaType {
        SchemaType {
            kind: TypeKind::Object {
                properties: vec![
                    ("name".to_string(), string_schema()),
                    ("age".to_string(), int_schema(IntegerKind::I32)),
                    ("email".to_string(), string_schema()),
                ],
                required: vec!["name".to_string(), "age".to_string()],
            },
            description: None,
        }
    }

    fn schema_name() -> Option<&'static str> {
        Some("Person")
    }
}

#[allow(dead_code)]
enum Status {
    Active,
    Inactive,
    Pending,
}

impl Schema for Status {
    fn schema() -> SchemaType {
        SchemaType {
            kind: TypeKind::Enum {
                variants: vec![
                    "active".to_string(),
                    "inactive".to_string(),
                    "pending".to_string(),
                ],
            },
            description: None,
        }
    }

    fn schema_name() -> Option<&'static str> {
        Some("Status")
    }
}

#[allow(dead_code)]
enum Action {
    Click,
    Fill { value: String },
    Select { option: String },
}

impl Schema for Action {
    fn schema() -> SchemaType {
        SchemaType {
            kind: TypeKind::TaggedUnion {
                tag_field: "type".to_string(),
                tag_variants: vec![
                    "click".to_string(),
                    "fill".to_string(),
                    "select".to_string(),
                ],
                data_fields: vec![
                    ("value".to_string(), string_schema()),
                    ("option".to_string(), string_schema()),
                ],
            },
            description: None,
        }
    }

    fn schema_name() -> Option<&'static str> {
        Some("Action")
    }
}

#[test]
fn test_struct_schema() {
    let schema = Person::schema();

    match schema.kind {
        TypeKind::Object { properties, required } => {
            assert_eq!(properties.len(), 3);
            assert!(props_contain(&properties, "name"));
            assert!(props_contain(&properties, "age"));
            assert!(props_contain(&properties, "email"));

            // name and age are required, email is optional
            assert_eq!(required.len(), 2);
            assert!(required.contains(&"name".to_string()));
            assert!(required.contains(&"age".to_string()));
            assert!(!required.contains(&"email".to_string()));
        }
        _ => panic!("Expected Object schema"),
    }
}

#[test]
fn test_simple_enum_schema() {
    let schema = Status::schema();

    match schema.kind {
        TypeKind::Enum { variants } => {
            assert_eq!(variants.len(), 3);
            assert!(variants.contains(&"active".to_string()));
            assert!(variants.contains(&"inactive".to_string()));
            assert!(variants.contains(&"pending".to_string()));
        }
        _ => panic!("Expected Enum schema"),
    }
}

#[test]
fn test_tagged_union_schema() {
    let schema = Action::schema();

    match schema.kind {
        TypeKind::TaggedUnion { tag_field, tag_variants, data_fields } => {
            assert_eq!(tag_field, "type");
            assert_eq!(tag_variants.len(), 3);
            assert!(tag_variants.contains(&"click".to_string()));
            assert!(tag_variants.contains(&"fill".to_string()));
            assert!(tag_variants.contains(&"select".to_string()));

            // Should have collected all unique data fields
            assert_eq!(data_fields.len(), 2);
            assert!(props_contain(&data_fields, "value"));
            assert!(props_contain(&data_fields, "option"));
        }
        _ => panic!("Expected TaggedUnion schema"),
    }
}

#[test]
fn test_hashset_schema() {
    let schema = HashSet::<String>::schema();

    match schema.kind {
        TypeKind::SetOf { items, ordered } => {
            assert_eq!(items.kind, TypeKind::String);
            assert_eq!(ordered, false);
            assert_eq!(
                schema.description,
                Some("Unordered set of unique values".to_string())
            );
        }
        _ => panic!("Expected Set schema for HashSet"),
    }
}

#[test]
fn test_btreemap_schema() {
    let schema = BTreeMap::<String, i32>::schema();

    match schema.kind {
        TypeKind::MapOf { key, value, ordered } => {
            assert_eq!(key.kind, TypeKind::String);
            assert!(matches!(value.kind, TypeKind::Integer(_)));
            assert_eq!(ordered, true);
            assert_eq!(
                schema.description,
                Some("Ordered map/dictionary of key-value pairs".to_string())
            );
        }
        _ => panic!("Expected Map schema for BTreeMap"),
    }
}

#[test]
fn test_btreeset_schema() {
    let schema = BTreeSet::<u64>::schema();

    match schema.kind {
        TypeKind::SetOf { items, ordered } => {
            assert!(matches!(items.kind, TypeKind::Integer(_)));
            assert_eq!(ordered, true);
            assert_eq!(
                schema.description,
                Some("Ordered set of unique values".to_string())
            );
        }
        _ => panic!("Expected Set schema for BTreeSet"),
    }
}

#[test]
fn test_hashmap_schema() {
    let schema = HashMap::<String, i32>::schema();

    match schema.kind {
        TypeKind::MapOf { key, value, ordered } => {
            assert_eq!(key.kind, TypeKind::String);
            assert!(matches!(value.kind, TypeKind::Integer(_)));
            assert_eq!(ordered, false);
            assert_eq!(
                schema.description,
                Some("Unordered map/dictionary of key-value pairs".to_string())
            );
        }
        _ => panic!("Expected Map schema for HashMap"),
    }
}

#[allow(dead_code)]
struct DocPerson {
    name: String,
    age: i32,
    email: Option<String>,
}

impl Schema for DocPerson {
    fn schema() -> SchemaType {
        SchemaType {
            kind: TypeKind::Object {
                properties: vec![
                    (
                        "name".to_string(),
                        SchemaType {
                            kind: TypeKind::String,
                            description: Some("Full name of the person".to_string()),
                        },
                    ),
                    (
                        "age".to_string(),
                        SchemaType {
                            kind: TypeKind::Integer(IntegerKind::I32),
                            description: Some("Age in years".to_string()),
                        },
                    ),
                    (
                        "email".to_string(),
                        SchemaType {
                            kind: TypeKind::String,
                            description: Some("Optional email address".to_string()),
                        },
                    ),
                ],
                required: vec!["name".to_string(), "age".to_string()],
            },
            description: Some("A person with contact information".to_string()),
        }
    }

    fn schema_name() -> Option<&'static str> {
        Some("DocPerson")
    }
}

#[test]
fn test_struct_with_docs() {
    let schema = DocPerson::schema();

    // Check struct description
    assert_eq!(
        schema.description,
        Some("A person with contact information".to_string())
    );

    match schema.kind {
        TypeKind::Object { properties, required } => {
            // Check field descriptions
            let name_schema = props_get(&properties, "name").unwrap();
            assert_eq!(
                name_schema.description,
                Some("Full name of the person".to_string())
            );
            assert!(matches!(name_schema.kind, TypeKind::String));

            let age_schema = props_get(&properties, "age").unwrap();
            assert_eq!(age_schema.description, Some("Age in years".to_string()));
            assert!(matches!(age_schema.kind, TypeKind::Integer(_)));

            let email_schema = props_get(&properties, "email").unwrap();
            assert_eq!(
                email_schema.description,
                Some("Optional email address".to_string())
            );
            assert!(matches!(email_schema.kind, TypeKind::String));

            // Check required fields
            assert_eq!(required.len(), 2);
            assert!(required.contains(&"name".to_string()));
            assert!(required.contains(&"age".to_string()));
        }
        _ => panic!("Expected Object schema"),
    }
}

#[allow(dead_code)]
enum DocStatus {
    Active,
    Inactive,
    Pending,
}

impl Schema for DocStatus {
    fn schema() -> SchemaType {
        SchemaType {
            kind: TypeKind::Enum {
                variants: vec![
                    "active".to_string(),
                    "inactive".to_string(),
                    "pending".to_string(),
                ],
            },
            description: Some("Current status of an entity".to_string()),
        }
    }

    fn schema_name() -> Option<&'static str> {
        Some("DocStatus")
    }
}

#[test]
fn test_simple_enum_with_docs() {
    let schema = DocStatus::schema();

    assert_eq!(
        schema.description,
        Some("Current status of an entity".to_string())
    );

    match schema.kind {
        TypeKind::Enum { variants } => {
            assert_eq!(variants.len(), 3);
        }
        _ => panic!("Expected Enum schema"),
    }
}

#[allow(dead_code)]
enum DocAction {
    Click,
    Fill { value: String },
    Select { option: String },
}

impl Schema for DocAction {
    fn schema() -> SchemaType {
        SchemaType {
            kind: TypeKind::TaggedUnion {
                tag_field: "type".to_string(),
                tag_variants: vec![
                    "click".to_string(),
                    "fill".to_string(),
                    "select".to_string(),
                ],
                data_fields: vec![
                    (
                        "value".to_string(),
                        SchemaType {
                            kind: TypeKind::String,
                            description: Some("The value to enter".to_string()),
                        },
                    ),
                    (
                        "option".to_string(),
                        SchemaType {
                            kind: TypeKind::String,
                            description: Some("The option to select".to_string()),
                        },
                    ),
                ],
            },
            description: Some("Actions that can be performed on elements".to_string()),
        }
    }

    fn schema_name() -> Option<&'static str> {
        Some("DocAction")
    }
}

#[test]
fn test_tagged_union_with_docs() {
    let schema = DocAction::schema();

    // Check enum description
    assert_eq!(
        schema.description,
        Some("Actions that can be performed on elements".to_string())
    );

    match schema.kind {
        TypeKind::TaggedUnion { tag_field, tag_variants, data_fields } => {
            assert_eq!(tag_field, "type");
            assert_eq!(tag_variants.len(), 3);

            // Check data field descriptions
            let value_schema = props_get(&data_fields, "value").unwrap();
            assert_eq!(
                value_schema.description,
                Some("The value to enter".to_string())
            );
            assert!(matches!(value_schema.kind, TypeKind::String));

            let option_schema = props_get(&data_fields, "option").unwrap();
            assert_eq!(
                option_schema.description,
                Some("The option to select".to_string())
            );
            assert!(matches!(option_schema.kind, TypeKind::String));
        }
        _ => panic!("Expected TaggedUnion schema"),
    }
}

#[test]
fn test_unit_and_tuple_schemas() {
    let unit = <() as Schema>::schema();
    match unit.kind {
        TypeKind::Object { properties, required } => {
            assert!(properties.is_empty());
            assert!(required.is_empty());
        }
        _ => panic!("Expected Object schema for unit"),
    }

    let pair = <(String, u32) as Schema>::schema();
    match pair.kind {
        TypeKind::Tuple { fields } => {
            assert_eq!(fields.len(), 2);
            assert_eq!(fields[0].kind, TypeKind::String);
            assert_eq!(fields[1].kind, TypeKind::Integer(IntegerKind::U32));
        }
        _ => panic!("Expected Tuple schema"),
    }
}

#[test]
fn test_pathbuf_and_json_value_schemas() {
    let path = std::path::PathBuf::schema();
    assert_eq!(path.kind, TypeKind::String);
    assert_eq!(path.description, Some("File system path".to_string()));

    let dynamic = serde_json::Value::schema();
    assert_eq!(
        dynamic.description,
        Some("Dynamic JSON value".to_string())
    );
    assert!(matches!(dynamic.kind, TypeKind::Object { .. }));
}
