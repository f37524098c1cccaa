use schema::schema_type_to_wit;
use schema::to_kebab_case;
use schema::to_wit_type;
use schema::IntegerKind;
use schema::NumberKind;
use schema::Schema;
use schema::SchemaType;
use schema::TypeKind;
use schema::VariantCase;

fn string_schema() -> SchemaType {
    SchemaType { kind: TypeKind::String, description: None }
}

fn int_schema(kind: IntegerKind) -> SchemaType {
    SchemaType { kind: TypeKind::Integer(kind), description: None }
}

fn num_schema(kind: NumberKind) -> SchemaType {
    SchemaType { kind: TypeKind::Number(kind), description: None }
}

#[test]
fn test_kebab_case() {
    assert_eq!(to_kebab_case("snake_case"), "snake-case");
    assert_eq!(to_kebab_case("PascalCase"), "pascal-case");
    assert_eq!(to_kebab_case("camelCase"), "camel-case");
    assert_eq!(to_kebab_case("already-kebab"), "already-kebab");
}

#[test]
fn test_primitives() {
    assert_eq!(to_wit_type::<String>(), "string");
    assert_eq!(to_wit_type::<bool>(), "bool");
    assert_eq!(to_wit_type::<i32>(), "s32");
    assert_eq!(to_wit_type::<u32>(), "u32");
    assert_eq!(
        schema_type_to_wit(&num_schema(NumberKind::F64), None),
        "f64"
    );
}

#[test]
fn test_collections() {
    assert_eq!(to_wit_type::<Vec<String>>(), "list<string>");
    assert_eq!(to_wit_type::<Vec<u32>>(), "list<u32>");
    assert_eq!(to_wit_type::<Option<String>>(), "string");
}

#[test]
fn test_result() {
    assert_eq!(to_wit_type::<Result<String, u32>>(), "result<string, u32>");
}

#[test]
fn test_tuple() {
    assert_eq!(to_wit_type::<(String, u32)>(), "tuple<string, u32>");
    let three = SchemaType {
        kind: TypeKind::Tuple {
            fields: vec![
                SchemaType { kind: TypeKind::Boolean, description: None },
                num_schema(NumberKind::F32),
                int_schema(IntegerKind::I64),
            ],
        },
        description: None,
    };
    assert_eq!(schema_type_to_wit(&three, None), "tuple<bool, f32, s64>");
}

#[allow(dead_code)]
struct Person {
    name: String,
    age: u32,
}

impl Schema for Person {
    fn schema() -> SchemaType {
        SchemaType {
            kind: TypeKind::Object {
                properties: vec![
                    ("name".to_string(), string_schema()),
                    ("age".to_string(), int_schema(IntegerKind::U32)),
                ],
                required: vec!["name".to_string(), "age".to_string()],
            },
            description: None,
        }
    }

    fn schema_name() -> Option<&'static str> {
        Some("Person")
    }
}

#[test]
fn test_record() {
    let wit = to_wit_type::<Person>();
    assert!(wit.contains("record person {"));
    assert!(wit.contains("name: string"));
    assert!(wit.contains("age: u32"));
}

#[allow(dead_code)]
struct User {
    id: String,
    email: Option<String>,
}

impl Schema for User {
    fn schema() -> SchemaType {
        SchemaType {
            kind: TypeKind::Object {
                properties: vec![
                    ("id".to_string(), string_schema()),
                    ("email".to_string(), string_schema()),
                ],
                required: vec!["id".to_string()],
            },
            description: None,
        }
    }

    fn schema_name() -> Option<&'static str> {
        Some("User")
    }
}

#[test]
fn test_record_with_optional() {
    let wit = to_wit_type::<User>();
    assert!(wit.contains("id: string"));
    assert!(wit.contains("email: option<string>"));
}

#[allow(dead_code)]
enum Status {
    Active,
    Inactive,
    Pending,
}

impl Schema for Status {
    fn schema() -> SchemaType {
        SchemaType {
            kind: TypeKind::Enum {
                variants: vec![
                    "active".to_string(),
                    "inactive".to_string(),
                    "pending".to_string(),
                ],
            },
            description: None,
        }
    }

    fn schema_name() -> Option<&'static str> {
        Some("Status")
    }
}

#[test]
fn test_simple_enum() {
    let wit = to_wit_type::<Status>();
    assert!(wit.contains("enum status {"));
    assert!(wit.contains("active"));
    assert!(wit.contains("inactive"));
    assert!(wit.contains("pending"));
}

#[allow(dead_code)]
enum Message {
    Text { content: String },
    Image { url: String, width: u32 },
}

impl Schema for Message {
    fn schema() -> SchemaType {
        SchemaType {
            kind: TypeKind::Variant {
                cases: vec![
                    VariantCase {
                        name: "text".to_string(),
                        data: Some(SchemaType {
                            kind: TypeKind::Object {
                                properties: vec![("content".to_string(), string_schema())],
                                required: vec!["content".to_string()],
                            },
                            description: None,
                        }),
                        description: None,
                    },
                    VariantCase {
                        name: "image".to_string(),
                        data: Some(SchemaType {
                            kind: TypeKind::Object {
                                properties: vec![
                                    ("url".to_string(), string_schema()),
                                    ("width".to_string(), int_schema(IntegerKind::U32)),
                                ],
                                required: vec!["url".to_string(), "width".to_string()],
                            },
                            description: None,
                        }),
                        description: None,
                    },
                ],
            },
            description: None,
        }
    }

    fn schema_name() -> Option<&'static str> {
        Some("Message")
    }
}

#[test]
fn test_variant() {
    let wit = to_wit_type::<Message>();
    assert!(wit.contains("variant message {"));
    assert!(wit.contains("text(record"));
    assert!(wit.contains("image(record"));
}

#[allow(dead_code)]
enum Event {
    Start,
    Stop,
    Pause { duration: u32 },
}

impl Schema for Event {
    fn schema() -> SchemaType {
        SchemaType {
            kind: TypeKind::Variant {
                cases: vec![
                    VariantCase {
                        name: "start".to_string(),
                        data: None,
                        description: None,
                    },
                    VariantCase {
                        name: "stop".to_string(),
                        data: None,
                        description: None,
                    },
                    VariantCase {
                        name: "pause".to_string(),
                        data: Some(SchemaType {
                            kind: TypeKind::Object {
                                properties: vec![
                                    ("duration".to_string(), int_schema(IntegerKind::U32)),
                                ],
                                required: vec!["duration".to_string()],
                            },
                            description: None,
                        }),
                        description: None,
                    },
                ],
            },
            description: None,
        }
    }

    fn schema_name() -> Option<&'static str> {
        Some("Event")
    }
}

#[test]
fn test_variant_unit() {
    let wit = to_wit_type::<Event>();
    println!("{}", wit);
    assert!(wit.contains("variant event {"));
    assert!(wit.contains("start,"));
    assert!(wit.contains("stop,"));
    assert!(wit.contains("pause("));
}

#[allow(dead_code)]
struct PersonWithAddress {
    name: String,
    address: Address,
}

#[allow(dead_code)]
struct Address {
    street: String,
    city: String,
}

impl Schema for PersonWithAddress {
    fn schema() -> SchemaType {
        SchemaType {
            kind: TypeKind::Object {
                properties: vec![
                    ("name".to_string(), string_schema()),
                    (
                        "address".to_string(),
                        SchemaType {
                            kind: TypeKind::Object {
                                properties: vec![
                                    ("street".to_string(), string_schema()),
                                    ("city".to_string(), string_schema()),
                                ],
                                required: vec!["street".to_string(), "city".to_string()],
                            },
                            description: None,
                        },
                    ),
                ],
                required: vec!["name".to_string(), "address".to_string()],
            },
            description: None,
        }
    }

    fn schema_name() -> Option<&'static str> {
        Some("PersonWithAddress")
    }
}

#[test]
fn test_nested() {
    let wit = to_wit_type::<PersonWithAddress>();
    println!("Generated WIT:\n{}", wit);
    // Nested types inline as complete record definitions under the
    // anonymous-record name, since no name is passed for nested objects.
    assert!(wit.contains("address: record"));
    assert!(wit.contains("street: string"));
    assert!(wit.contains("city: string"));
}

#[test]
fn test_person_record_exact() {
    // A record named Person with name: String and age: U32 renders with its
    // fields in name-sorted order.
    let wit = to_wit_type::<Person>();
    assert_eq!(wit, "record person {\n    age: u32,\n    name: string,\n}");
}

#[test]
fn test_record_field_order_is_sorted() {
    // Two property lists with the same fields in different insertion orders
    // render byte-identical text.
    let a = SchemaType {
        kind: TypeKind::Object {
            properties: vec![
                ("selector".to_string(), string_schema()),
                ("index".to_string(), int_schema(IntegerKind::U64)),
                ("label".to_string(), string_schema()),
            ],
            required: vec!["selector".to_string()],
        },
        description: None,
    };
    let b = SchemaType {
        kind: TypeKind::Object {
            properties: vec![
                ("label".to_string(), string_schema()),
                ("selector".to_string(), string_schema()),
                ("index".to_string(), int_schema(IntegerKind::U64)),
            ],
            required: vec!["selector".to_string()],
        },
        description: None,
    };
    let wa = schema_type_to_wit(&a, Some("Query"));
    let wb = schema_type_to_wit(&b, Some("Query"));
    assert_eq!(wa, wb);
    assert_eq!(
        wa,
        "record query {\n    index: option<u64>,\n    label: option<string>,\n    selector: string,\n}"
    );
}

#[test]
fn test_tagged_union_placeholder() {
    let schema = SchemaType {
        kind: TypeKind::TaggedUnion {
            tag_field: "type".to_string(),
            tag_variants: vec!["a".to_string()],
            data_fields: vec![],
        },
        description: None,
    };
    assert_eq!(
        schema_type_to_wit(&schema, None),
        "/* TaggedUnion not supported - use Variant instead */"
    );
}

#[test]
fn test_empty_tuple_is_unit() {
    let schema = SchemaType { kind: TypeKind::Tuple { fields: vec![] }, description: None };
    assert_eq!(schema_type_to_wit(&schema, None), "unit");
}

#[test]
fn test_map_as_list_of_tuples() {
    let schema = SchemaType {
        kind: TypeKind::MapOf {
            key: Box::new(int_schema(IntegerKind::U32)),
            value: Box::new(string_schema()),
            ordered: true,
        },
        description: None,
    };
    assert_eq!(schema_type_to_wit(&schema, None), "list<tuple<u32, string>>");
}

#[test]
fn test_set_as_list() {
    let schema = SchemaType {
        kind: TypeKind::SetOf {
            items: Box::new(string_schema()),
            ordered: false,
        },
        description: None,
    };
    assert_eq!(schema_type_to_wit(&schema, None), "list<string>");
}

#[test]
fn test_descriptions_render_as_doc_comments() {
    let schema = SchemaType {
        kind: TypeKind::Object {
            properties: vec![(
                "name".to_string(),
                SchemaType {
                    kind: TypeKind::String,
                    description: Some("Full name".to_string()),
                },
            )],
            required: vec!["name".to_string()],
        },
        description: Some("A person record\nwith two lines".to_string()),
    };
    let wit = schema_type_to_wit(&schema, Some("Person"));
    assert_eq!(
        wit,
        "/// A person record\n/// with two lines\nrecord person {\n    /// Full name\n    name: string,\n}"
    );
}

#[test]
fn test_anonymous_record_name() {
    let schema = SchemaType {
        kind: TypeKind::Object { properties: vec![], required: vec![] },
        description: None,
    };
    assert_eq!(
        schema_type_to_wit(&schema, None),
        "record anonymous-record {\n}"
    );
}

#[test]
fn test_ref_renders_as_kebab_name() {
    let schema = SchemaType {
        kind: TypeKind::Ref { name: "TreeNode".to_string() },
        description: None,
    };
    assert_eq!(schema_type_to_wit(&schema, None), "tree-node");
}

#[test]
fn test_doc_comment_lines_are_trimmed() {
    let schema = SchemaType {
        kind: TypeKind::Object {
            properties: vec![("name".to_string(), string_schema())],
            required: vec!["name".to_string()],
        },
        description: Some("  padded line \t".to_string()),
    };
    let wit = schema_type_to_wit(&schema, Some("Padded"));
    assert_eq!(wit, "/// padded line\nrecord padded {\n    name: string,\n}");
}
