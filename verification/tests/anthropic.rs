use schema::create_tool_schema;
use schema::to_anthropic_schema;
use schema::IntegerKind;
use schema::JsonValue;
use schema::Schema;
use schema::SchemaType;
use schema::TypeKind;

fn jstr(s: &str) -> JsonValue {
    JsonValue::Str(s.to_string())
}

fn get<'a>(v: &'a JsonValue, k: &str) -> &'a JsonValue {
    v.get(k).expect(k)
}

fn string_schema() -> SchemaType {
    SchemaType { kind: TypeKind::String, description: None }
}

fn string_schema_doc(doc: &str) -> SchemaType {
    SchemaType { kind: TypeKind::String, description: Some(doc.to_string()) }
}

#[allow(dead_code)]
struct ClickElement {
    selector: String,
    index: Option<i32>,
}

impl Schema for ClickElement {
    fn schema() -> SchemaType {
        SchemaType {
            kind: TypeKind::Object {
                properties: vec![
                    ("selector".to_string(), string_schema()),
                    (
                        "index".to_string(),
                        SchemaType {
                            kind: TypeKind::Integer(IntegerKind::I32),
                            description: None,
                        },
                    ),
                ],
                required: vec!["selector".to_string()],
            },
            description: None,
        }
    }

    fn schema_name() -> Option<&'static str> {
        Some("ClickElement")
    }
}

#[allow(dead_code)]
enum ElementAction {
    Click,
    Fill { value: String },
    Select { option: String },
    Clear,
    Focus,
    Submit,
}

impl Schema for ElementAction {
    fn schema() -> SchemaType {
        SchemaType {
            kind: TypeKind::TaggedUnion {
                tag_field: "type".to_string(),
                tag_variants: vec![
                    "click".to_string(),
                    "fill".to_string(),
                    "select".to_string(),
                    "clear".to_string(),
                    "focus".to_string(),
                    "submit".to_string(),
                ],
                data_fields: vec![
                    ("value".to_string(), string_schema()),
                    ("option".to_string(), string_schema()),
                ],
            },
            description: None,
        }
    }

    fn schema_name() -> Option<&'static str> {
        Some("ElementAction")
    }
}

#[test]
fn test_struct_to_anthropic() {
    let schema = ClickElement::schema();
    let anthropic = to_anthropic_schema(&schema);

    let expected = JsonValue::Obj(vec![
        ("type".to_string(), jstr("object")),
        (
            "properties".to_string(),
            JsonValue::Obj(vec![
                (
                    "selector".to_string(),
                    JsonValue::Obj(vec![("type".to_string(), jstr("string"))]),
                ),
                (
                    "index".to_string(),
                    JsonValue::Obj(vec![("type".to_string(), jstr("integer"))]),
                ),
            ]),
        ),
        ("required".to_string(), JsonValue::Arr(vec![jstr("selector")])),
    ]);

    assert_eq!(anthropic, expected);
}

#[test]
fn test_tagged_union_to_anthropic() {
    let schema = ElementAction::schema();
    let anthropic = to_anthropic_schema(&schema);

    // Should be a flat object with discriminator + data fields
    assert_eq!(get(&anthropic, "type"), &jstr("object"));

    let properties = get(&anthropic, "properties");

    // Should have "type" discriminator field
    let type_field = get(properties, "type");
    let variants = get(type_field, "enum").as_array().unwrap();
    assert_eq!(variants.len(), 6);

    // Should have all data fields as optional properties
    assert!(properties.get("value").is_some());
    assert!(properties.get("option").is_some());

    // Only "type" should be required
    let required = get(&anthropic, "required").as_array().unwrap();
    assert_eq!(required.len(), 1);
    assert_eq!(&required[0], &jstr("type"));
}

#[test]
fn test_create_tool_schema() {
    let schema = ClickElement::schema();
    let tool = create_tool_schema(
        "click_element",
        "Click on an element matching the selector",
        &schema,
    );

    assert_eq!(get(&tool, "name"), &jstr("click_element"));
    assert!(tool.get("description").is_some());
    assert!(tool.get("input_schema").is_some());
}

#[test]
fn test_no_oneof_in_output() {
    let schema = ElementAction::schema();
    let anthropic = to_anthropic_schema(&schema);
    let rendered = format!("{:?}", anthropic);

    // Should NOT contain "oneOf" anywhere
    assert!(!rendered.contains("oneOf"));
    assert!(!rendered.contains("one_of"));
}

#[allow(dead_code)]
struct DocClickElement {
    selector: String,
    index: Option<i32>,
}

impl Schema for DocClickElement {
    fn schema() -> SchemaType {
        SchemaType {
            kind: TypeKind::Object {
                properties: vec![
                    (
                        "selector".to_string(),
                        string_schema_doc("CSS selector to find the element"),
                    ),
                    (
                        "index".to_string(),
                        SchemaType {
                            kind: TypeKind::Integer(IntegerKind::I32),
                            description: Some(
                                "Zero-based index if multiple matches".to_string(),
                            ),
                        },
                    ),
                ],
                required: vec!["selector".to_string()],
            },
            description: Some("Click on an element".to_string()),
        }
    }

    fn schema_name() -> Option<&'static str> {
        Some("DocClickElement")
    }
}

#[allow(dead_code)]
enum DocElementAction {
    Click,
    Fill { value: String },
    Select { option: String },
}

impl Schema for DocElementAction {
    fn schema() -> SchemaType {
        SchemaType {
            kind: TypeKind::TaggedUnion {
                tag_field: "type".to_string(),
                tag_variants: vec![
                    "click".to_string(),
                    "fill".to_string(),
                    "select".to_string(),
                ],
                data_fields: vec![
                    ("value".to_string(), string_schema_doc("The text to enter")),
                    ("option".to_string(), string_schema_doc("The option label")),
                ],
            },
            description: Some("Actions that can be performed".to_string()),
        }
    }

    fn schema_name() -> Option<&'static str> {
        Some("DocElementAction")
    }
}

#[test]
fn test_struct_descriptions_in_anthropic() {
    let schema = DocClickElement::schema();
    let anthropic = to_anthropic_schema(&schema);

    // Check struct description
    assert_eq!(get(&anthropic, "description"), &jstr("Click on an element"));

    // Check field descriptions
    let properties = get(&anthropic, "properties");

    let selector = get(properties, "selector");
    assert_eq!(
        get(selector, "description"),
        &jstr("CSS selector to find the element")
    );

    let index = get(properties, "index");
    assert_eq!(
        get(index, "description"),
        &jstr("Zero-based index if multiple matches")
    );
}

#[test]
fn test_tagged_union_descriptions_in_anthropic() {
    let schema = DocElementAction::schema();
    let anthropic = to_anthropic_schema(&schema);

    // Check union description
    assert_eq!(
        get(&anthropic, "description"),
        &jstr("Actions that can be performed")
    );

    // Check data field descriptions
    let properties = get(&anthropic, "properties");

    let value = get(properties, "value");
    assert_eq!(get(value, "description"), &jstr("The text to enter"));

    let option = get(properties, "option");
    assert_eq!(get(option, "description"), &jstr("The option label"));
}

#[test]
fn test_descriptions_format_for_anthropic() {
    let schema = DocClickElement::schema();
    let anthropic = to_anthropic_schema(&schema);
    let rendered = format!("{:?}", anthropic);

    // Verify it carries the expected description entries
    assert!(rendered.contains("\"description\""));
    assert!(rendered.contains("Click on an element"));

    // Verify structure
    assert!(anthropic.get("type").is_some());
    assert!(anthropic.get("description").is_some());
    assert!(anthropic.get("properties").is_some());
}

#[test]
fn test_result_schema_to_anthropic() {
    let schema = SchemaType {
        kind: TypeKind::Result {
            ok: Box::new(string_schema()),
            err: Box::new(SchemaType {
                kind: TypeKind::Integer(IntegerKind::U32),
                description: None,
            }),
        },
        description: None,
    };
    let anthropic = to_anthropic_schema(&schema);
    assert_eq!(get(&anthropic, "type"), &jstr("object"));
    let properties = get(&anthropic, "properties");
    assert!(properties.get("ok").is_some());
    assert!(properties.get("error").is_some());
    assert_eq!(
        get(&anthropic, "description"),
        &jstr("Result type - exactly one of ok or error will be present")
    );
    // Neither arm is required
    assert!(anthropic.get("required").is_none());
}

#[test]
fn test_map_with_string_keys_to_anthropic() {
    let schema = SchemaType {
        kind: TypeKind::MapOf {
            key: Box::new(string_schema()),
            value: Box::new(SchemaType {
                kind: TypeKind::Boolean,
                description: None,
            }),
            ordered: false,
        },
        description: None,
    };
    let anthropic = to_anthropic_schema(&schema);
    assert_eq!(get(&anthropic, "type"), &jstr("object"));
    assert_eq!(
        get(get(&anthropic, "additionalProperties"), "type"),
        &jstr("boolean")
    );
}

#[test]
fn test_map_with_integer_keys_to_anthropic() {
    let schema = SchemaType {
        kind: TypeKind::MapOf {
            key: Box::new(SchemaType {
                kind: TypeKind::Integer(IntegerKind::U64),
                description: None,
            }),
            value: Box::new(string_schema()),
            ordered: true,
        },
        description: None,
    };
    let anthropic = to_anthropic_schema(&schema);
    assert_eq!(get(&anthropic, "type"), &jstr("array"));
    let items = get(&anthropic, "items");
    assert_eq!(get(items, "type"), &jstr("array"));
    assert_eq!(get(items, "minItems"), &JsonValue::Num(2));
    assert_eq!(get(items, "maxItems"), &JsonValue::Num(2));
    let pre = get(items, "prefixItems").as_array().unwrap();
    assert_eq!(pre.len(), 2);
    assert_eq!(get(&pre[0], "type"), &jstr("integer"));
    assert_eq!(get(&pre[1], "type"), &jstr("string"));
}

#[test]
fn test_empty_tuple_to_anthropic() {
    let schema = SchemaType { kind: TypeKind::Tuple { fields: vec![] }, description: None };
    let anthropic = to_anthropic_schema(&schema);
    let expected = JsonValue::Obj(vec![
        ("type".to_string(), jstr("array")),
        ("maxItems".to_string(), JsonValue::Num(0)),
    ]);
    assert_eq!(anthropic, expected);
    assert!(anthropic.get("prefixItems").is_none());
}

#[test]
fn test_ref_to_anthropic() {
    let schema = SchemaType {
        kind: TypeKind::Ref { name: "Node".to_string() },
        description: Some("A pointer-like placeholder".to_string()),
    };
    let anthropic = to_anthropic_schema(&schema);
    // The reference short-circuits the enclosing object: no description key.
    assert_eq!(
        anthropic,
        JsonValue::Obj(vec![("$ref".to_string(), jstr("#/definitions/Node"))])
    );
}

#[test]
fn test_empty_object_required_kept() {
    let schema = SchemaType {
        kind: TypeKind::Object { properties: vec![], required: vec![] },
        description: None,
    };
    let anthropic = to_anthropic_schema(&schema);
    assert_eq!(get(&anthropic, "type"), &jstr("object"));
    assert_eq!(get(&anthropic, "properties"), &JsonValue::Obj(vec![]));
    // This projection always lists the required names, even when empty.
    assert_eq!(get(&anthropic, "required"), &JsonValue::Arr(vec![]));
}

#[test]
fn test_variant_flatten_first_case_wins() {
    // Two cases both carry a field named `amount`, with different schemas;
    // the flattened object keeps the first case's schema for it.
    let schema = SchemaType {
        kind: TypeKind::Variant {
            cases: vec![
                schema::VariantCase {
                    name: "deposit".to_string(),
                    data: Some(SchemaType {
                        kind: TypeKind::Object {
                            properties: vec![(
                                "amount".to_string(),
                                SchemaType {
                                    kind: TypeKind::Integer(IntegerKind::U64),
                                    description: None,
                                },
                            )],
                            required: vec!["amount".to_string()],
                        },
                        description: None,
                    }),
                    description: None,
                },
                schema::VariantCase {
                    name: "note".to_string(),
                    data: Some(SchemaType {
                        kind: TypeKind::Object {
                            properties: vec![("amount".to_string(), string_schema())],
                            required: vec![],
                        },
                        description: None,
                    }),
                    description: None,
                },
            ],
        },
        description: None,
    };
    let anthropic = to_anthropic_schema(&schema);
    let properties = get(&anthropic, "properties");
    // The first case's integer schema wins over the later string schema.
    assert_eq!(get(get(properties, "amount"), "type"), &jstr("integer"));
}

#[test]
fn test_tagged_union_data_field_replaces_tag() {
    // A data field that shares the tag field's name replaces the
    // discriminator schema, as a map insert would.
    let schema = SchemaType {
        kind: TypeKind::TaggedUnion {
            tag_field: "kind".to_string(),
            tag_variants: vec!["a".to_string(), "b".to_string()],
            data_fields: vec![(
                "kind".to_string(),
                SchemaType { kind: TypeKind::Boolean, description: None },
            )],
        },
        description: None,
    };
    let anthropic = to_anthropic_schema(&schema);
    let properties = get(&anthropic, "properties");
    assert_eq!(get(get(properties, "kind"), "type"), &jstr("boolean"));
}
