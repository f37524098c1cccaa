use schema::schema_type_to_openapi;
use schema::to_openapi_schema;
use schema::IntegerKind;
use schema::JsonValue;
use schema::NumberKind;
use schema::Schema;
use schema::SchemaType;
use schema::TypeKind;
use schema::VariantCase;

fn jstr(s: &str) -> JsonValue {
    JsonValue::Str(s.to_string())
}

fn get<'a>(v: &'a JsonValue, k: &str) -> &'a JsonValue {
    v.get(k).expect(k)
}

fn string_schema() -> SchemaType {
    SchemaType { kind: TypeKind::String, description: None }
}

fn int_schema(kind: IntegerKind) -> SchemaType {
    SchemaType { kind: TypeKind::Integer(kind), description: None }
}

#[allow(dead_code)]
struct Person {
    name: String,
    age: u32,
}

impl Schema for Person {
    fn schema() -> SchemaType {
        SchemaType {
            kind: TypeKind::Object {
                properties: vec![
                    ("name".to_string(), string_schema()),
                    ("age".to_string(), int_schema(IntegerKind::U32)),
                ],
                required: vec!["name".to_string(), "age".to_string()],
            },
            description: None,
        }
    }

    fn schema_name() -> Option<&'static str> {
        Some("Person")
    }
}

#[test]
fn test_basic_types() {
    let openapi = to_openapi_schema::<Person>();
    assert_eq!(get(&openapi, "type"), &jstr("object"));
    let properties = get(&openapi, "properties");
    assert_eq!(get(get(properties, "name"), "type"), &jstr("string"));
    assert_eq!(get(get(properties, "age"), "type"), &jstr("integer"));
    let required = get(&openapi, "required").as_array().unwrap();
    assert_eq!(&required[0], &jstr("name"));
    assert_eq!(&required[1], &jstr("age"));
}

#[allow(dead_code)]
struct User {
    id: String,
    email: Option<String>,
    bio: Option<String>,
}

impl Schema for User {
    fn schema() -> SchemaType {
        SchemaType {
            kind: TypeKind::Object {
                properties: vec![
                    ("id".to_string(), string_schema()),
                    ("email".to_string(), string_schema()),
                    ("bio".to_string(), string_schema()),
                ],
                required: vec!["id".to_string()],
            },
            description: None,
        }
    }

    fn schema_name() -> Option<&'static str> {
        Some("User")
    }
}

#[test]
fn test_optional_fields() {
    let openapi = to_openapi_schema::<User>();
    assert_eq!(get(&openapi, "type"), &jstr("object"));
    let required = get(&openapi, "required").as_array().unwrap();
    assert_eq!(required.len(), 1);
    assert_eq!(&required[0], &jstr("id"));
}

#[allow(dead_code)]
struct Address {
    street: String,
    city: String,
}

fn address_schema() -> SchemaType {
    SchemaType {
        kind: TypeKind::Object {
            properties: vec![
                ("street".to_string(), string_schema()),
                ("city".to_string(), string_schema()),
            ],
            required: vec!["street".to_string(), "city".to_string()],
        },
        description: None,
    }
}

#[allow(dead_code)]
struct PersonWithAddress {
    name: String,
    address: Address,
}

impl Schema for PersonWithAddress {
    fn schema() -> SchemaType {
        SchemaType {
            kind: TypeKind::Object {
                properties: vec![
                    ("name".to_string(), string_schema()),
                    ("address".to_string(), address_schema()),
                ],
                required: vec!["name".to_string(), "address".to_string()],
            },
            description: None,
        }
    }

    fn schema_name() -> Option<&'static str> {
        Some("PersonWithAddress")
    }
}

#[test]
fn test_nested_objects() {
    let openapi = to_openapi_schema::<PersonWithAddress>();
    assert_eq!(get(&openapi, "type"), &jstr("object"));
    let address = get(get(&openapi, "properties"), "address");
    assert_eq!(get(address, "type"), &jstr("object"));
    let address_props = get(address, "properties");
    assert_eq!(get(get(address_props, "street"), "type"), &jstr("string"));
    assert_eq!(get(get(address_props, "city"), "type"), &jstr("string"));
}

#[allow(dead_code)]
struct Team {
    name: String,
    members: Vec<String>,
}

impl Schema for Team {
    fn schema() -> SchemaType {
        SchemaType {
            kind: TypeKind::Object {
                properties: vec![
                    ("name".to_string(), string_schema()),
                    (
                        "members".to_string(),
                        SchemaType {
                            kind: TypeKind::Array { items: Box::new(string_schema()) },
                            description: None,
                        },
                    ),
                ],
                required: vec!["name".to_string(), "members".to_string()],
            },
            description: None,
        }
    }

    fn schema_name() -> Option<&'static str> {
        Some("Team")
    }
}

#[test]
fn test_arrays() {
    let openapi = to_openapi_schema::<Team>();
    assert_eq!(get(&openapi, "type"), &jstr("object"));
    let members = get(get(&openapi, "properties"), "members");
    assert_eq!(get(members, "type"), &jstr("array"));
    assert_eq!(get(get(members, "items"), "type"), &jstr("string"));
}

#[allow(dead_code)]
enum Status {
    Active,
    Inactive,
    Pending,
}

impl Schema for Status {
    fn schema() -> SchemaType {
        SchemaType {
            kind: TypeKind::Enum {
                variants: vec![
                    "active".to_string(),
                    "inactive".to_string(),
                    "pending".to_string(),
                ],
            },
            description: None,
        }
    }

    fn schema_name() -> Option<&'static str> {
        Some("Status")
    }
}

#[test]
fn lib_test_simple_enum() {
    let openapi = to_openapi_schema::<Status>();
    assert_eq!(get(&openapi, "type"), &jstr("string"));
    let variants = get(&openapi, "enum").as_array().unwrap();
    assert_eq!(variants.len(), 3);
    assert!(variants.iter().any(|v| v == &jstr("active")));
    assert!(variants.iter().any(|v| v == &jstr("inactive")));
    assert!(variants.iter().any(|v| v == &jstr("pending")));
}

#[allow(dead_code)]
enum Message {
    Text { content: String },
    Image { url: String, width: u32, height: u32 },
}

impl Schema for Message {
    fn schema() -> SchemaType {
        SchemaType {
            kind: TypeKind::Variant {
                cases: vec![
                    VariantCase {
                        name: "text".to_string(),
                        data: Some(SchemaType {
                            kind: TypeKind::Object {
                                properties: vec![("content".to_string(), string_schema())],
                                required: vec!["content".to_string()],
                            },
                            description: None,
                        }),
                        description: None,
                    },
                    VariantCase {
                        name: "image".to_string(),
                        data: Some(SchemaType {
                            kind: TypeKind::Object {
                                properties: vec![
                                    ("url".to_string(), string_schema()),
                                    ("width".to_string(), int_schema(IntegerKind::U32)),
                                    ("height".to_string(), int_schema(IntegerKind::U32)),
                                ],
                                required: vec![
                                    "url".to_string(),
                                    "width".to_string(),
                                    "height".to_string(),
                                ],
                            },
                            description: None,
                        }),
                        description: None,
                    },
                ],
            },
            description: None,
        }
    }

    fn schema_name() -> Option<&'static str> {
        Some("Message")
    }
}

#[test]
fn lib_test_variant() {
    let openapi = to_openapi_schema::<Message>();
    assert!(openapi.get("oneOf").is_some());

    // The variant type generates proper per-case structure
    let cases = get(&openapi, "oneOf").as_array().unwrap();
    assert_eq!(cases.len(), 2);

    // Each case should be an object with type and data fields
    for case in cases.iter() {
        assert_eq!(get(case, "type"), &jstr("object"));
        let props = get(case, "properties");
        assert!(props.get("type").is_some());
        assert!(props.get("data").is_some());
    }
}

#[allow(dead_code)]
struct UserAccount {
    id: String,
    email: String,
}

impl Schema for UserAccount {
    fn schema() -> SchemaType {
        SchemaType {
            kind: TypeKind::Object {
                properties: vec![
                    (
                        "id".to_string(),
                        SchemaType {
                            kind: TypeKind::String,
                            description: Some("Unique identifier".to_string()),
                        },
                    ),
                    (
                        "email".to_string(),
                        SchemaType {
                            kind: TypeKind::String,
                            description: Some("User's email address".to_string()),
                        },
                    ),
                ],
                required: vec!["id".to_string(), "email".to_string()],
            },
            description: Some("A user account".to_string()),
        }
    }

    fn schema_name() -> Option<&'static str> {
        Some("UserAccount")
    }
}

#[test]
fn test_descriptions() {
    let openapi = to_openapi_schema::<UserAccount>();
    assert_eq!(get(&openapi, "description"), &jstr("A user account"));
    let properties = get(&openapi, "properties");
    assert_eq!(
        get(get(properties, "id"), "description"),
        &jstr("Unique identifier")
    );
    assert_eq!(
        get(get(properties, "email"), "description"),
        &jstr("User's email address")
    );
}

#[test]
fn test_number_types() {
    // count: u32, ratio: f32, precise: f64
    let schema = SchemaType {
        kind: TypeKind::Object {
            properties: vec![
                ("count".to_string(), int_schema(IntegerKind::U32)),
                (
                    "ratio".to_string(),
                    SchemaType {
                        kind: TypeKind::Number(NumberKind::F32),
                        description: None,
                    },
                ),
                (
                    "precise".to_string(),
                    SchemaType {
                        kind: TypeKind::Number(NumberKind::F64),
                        description: None,
                    },
                ),
            ],
            required: vec![
                "count".to_string(),
                "ratio".to_string(),
                "precise".to_string(),
            ],
        },
        description: None,
    };
    let openapi = schema_type_to_openapi(&schema);
    let properties = get(&openapi, "properties");
    assert_eq!(get(get(properties, "count"), "type"), &jstr("integer"));
    assert_eq!(get(get(properties, "ratio"), "type"), &jstr("number"));
    assert_eq!(get(get(properties, "precise"), "type"), &jstr("number"));
}

#[allow(dead_code)]
struct Settings {
    enabled: bool,
    verified: bool,
}

impl Schema for Settings {
    fn schema() -> SchemaType {
        SchemaType {
            kind: TypeKind::Object {
                properties: vec![
                    (
                        "enabled".to_string(),
                        SchemaType { kind: TypeKind::Boolean, description: None },
                    ),
                    (
                        "verified".to_string(),
                        SchemaType { kind: TypeKind::Boolean, description: None },
                    ),
                ],
                required: vec!["enabled".to_string(), "verified".to_string()],
            },
            description: None,
        }
    }

    fn schema_name() -> Option<&'static str> {
        Some("Settings")
    }
}

#[test]
fn test_boolean() {
    let openapi = to_openapi_schema::<Settings>();
    let properties = get(&openapi, "properties");
    assert_eq!(get(get(properties, "enabled"), "type"), &jstr("boolean"));
    assert_eq!(get(get(properties, "verified"), "type"), &jstr("boolean"));
}

#[test]
fn test_click_fill_variant_branches() {
    // A variant with a unit case and a record-payload case
    let schema = SchemaType {
        kind: TypeKind::Variant {
            cases: vec![
                VariantCase {
                    name: "click".to_string(),
                    data: None,
                    description: None,
                },
                VariantCase {
                    name: "fill".to_string(),
                    data: Some(SchemaType {
                        kind: TypeKind::Object {
                            properties: vec![("value".to_string(), string_schema())],
                            required: vec!["value".to_string()],
                        },
                        description: None,
                    }),
                    description: None,
                },
            ],
        },
        description: None,
    };
    let openapi = schema_type_to_openapi(&schema);
    let branches = get(&openapi, "oneOf").as_array().unwrap();
    assert_eq!(branches.len(), 2);

    // Unit case: a string constant
    let click = &branches[0];
    assert_eq!(get(click, "type"), &jstr("string"));
    assert_eq!(get(click, "const"), &jstr("click"));

    // Payload case: an object with the pinned tag and the data, both required
    let fill = &branches[1];
    assert_eq!(get(fill, "type"), &jstr("object"));
    let props = get(fill, "properties");
    assert_eq!(get(get(props, "type"), "const"), &jstr("fill"));
    let data = get(props, "data");
    assert_eq!(get(data, "type"), &jstr("object"));
    assert_eq!(
        get(get(get(data, "properties"), "value"), "type"),
        &jstr("string")
    );
    let data_required = get(data, "required").as_array().unwrap();
    assert_eq!(data_required.len(), 1);
    assert_eq!(&data_required[0], &jstr("value"));
    let required = get(fill, "required").as_array().unwrap();
    assert_eq!(required.len(), 2);
    assert_eq!(&required[0], &jstr("type"));
    assert_eq!(&required[1], &jstr("data"));
}

#[test]
fn test_tagged_union_to_openapi() {
    let schema = SchemaType {
        kind: TypeKind::TaggedUnion {
            tag_field: "kind".to_string(),
            tag_variants: vec!["on".to_string(), "off".to_string()],
            data_fields: vec![("level".to_string(), int_schema(IntegerKind::U8))],
        },
        description: None,
    };
    let openapi = schema_type_to_openapi(&schema);
    let branches = get(&openapi, "oneOf").as_array().unwrap();
    assert_eq!(branches.len(), 2);
    for branch in branches.iter() {
        assert_eq!(get(branch, "type"), &jstr("object"));
        let required = get(branch, "required").as_array().unwrap();
        assert_eq!(required.len(), 1);
        assert_eq!(&required[0], &jstr("kind"));
        assert!(get(branch, "properties").get("level").is_some());
    }
    let first_tag = get(get(get(&branches[0], "properties"), "kind"), "enum")
        .as_array()
        .unwrap();
    assert_eq!(first_tag.len(), 1);
    assert_eq!(&first_tag[0], &jstr("on"));
    let disc = get(&openapi, "discriminator");
    assert_eq!(get(disc, "propertyName"), &jstr("kind"));
}

#[test]
fn test_result_to_openapi() {
    let schema = SchemaType {
        kind: TypeKind::Result {
            ok: Box::new(string_schema()),
            err: Box::new(int_schema(IntegerKind::U32)),
        },
        description: None,
    };
    let openapi = schema_type_to_openapi(&schema);
    let branches = get(&openapi, "oneOf").as_array().unwrap();
    assert_eq!(branches.len(), 2);
    let ok_required = get(&branches[0], "required").as_array().unwrap();
    assert_eq!(&ok_required[0], &jstr("ok"));
    let err_required = get(&branches[1], "required").as_array().unwrap();
    assert_eq!(&err_required[0], &jstr("error"));
}

#[test]
fn test_empty_tuple_to_openapi() {
    let schema = SchemaType { kind: TypeKind::Tuple { fields: vec![] }, description: None };
    let openapi = schema_type_to_openapi(&schema);
    let expected = JsonValue::Obj(vec![
        ("type".to_string(), jstr("array")),
        ("maxItems".to_string(), JsonValue::Num(0)),
    ]);
    assert_eq!(openapi, expected);
    assert!(openapi.get("prefixItems").is_none());
}

#[test]
fn test_ref_to_openapi() {
    let schema = SchemaType {
        kind: TypeKind::Ref { name: "Node".to_string() },
        description: Some("points elsewhere".to_string()),
    };
    let openapi = schema_type_to_openapi(&schema);
    assert_eq!(get(&openapi, "$ref"), &jstr("#/components/schemas/Node"));
    // The description is merged even onto a bare reference object.
    assert_eq!(get(&openapi, "description"), &jstr("points elsewhere"));
}

#[test]
fn test_empty_object_required_omitted() {
    let schema = SchemaType {
        kind: TypeKind::Object { properties: vec![], required: vec![] },
        description: None,
    };
    let openapi = schema_type_to_openapi(&schema);
    assert_eq!(get(&openapi, "type"), &jstr("object"));
    assert_eq!(get(&openapi, "properties"), &JsonValue::Obj(vec![]));
    // An empty required list is left out entirely.
    assert!(openapi.get("required").is_none());
}
