//! The union projector: represents sum types faithfully with `oneOf` plus a
//! discriminator property, for targets whose validators support it.

use vstd::prelude::*;

use crate::ir::case_view;
use crate::ir::cases_view;
use crate::ir::fields_view;
use crate::ir::lemma_cases_view;
use crate::ir::lemma_fields_view;
use crate::ir::lemma_props_view;
use crate::ir::props_view;
use crate::ir::schema_view;
use crate::ir::SchemaType;
use crate::ir::SchemaTypeView;
use crate::ir::TypeKind;
use crate::ir::TypeKindView;
use crate::ir::VariantCase;
use crate::ir::VariantCaseView;
use crate::json::arr_push;
use crate::json::desc_entries;
use crate::json::jarr_view;
use crate::json::jobj_view;
use crate::json::json_view;
use crate::json::obj_push;
use crate::json::obj_set;
use crate::json::obj_upsert;
use crate::json::str_arr;
use crate::json::str_array;
use crate::json::JsonValue;
use crate::json::JsonView;

verus! {

/// A discriminator property pinned to one literal variant value.
pub open spec fn pinned_tag_json(variant: Seq<char>) -> JsonView {
    JsonView::Obj(
        seq![
            ("type"@, JsonView::Str("string"@)),
            ("enum"@, JsonView::Arr(seq![JsonView::Str(variant)])),
        ],
    )
}

/// One `oneOf` branch of a projected tagged union: every (cross-case merged)
/// data field, the discriminator pinned to this variant, and only the
/// discriminator required.
pub open spec fn union_tu_branch(
    variant: Seq<char>,
    tag: Seq<char>,
    projected: Seq<(Seq<char>, JsonView)>,
) -> JsonView {
    JsonView::Obj(
        seq![
            ("type"@, JsonView::Str("object"@)),
            (
                "properties"@,
                JsonView::Obj(obj_upsert(projected, tag, pinned_tag_json(variant))),
            ),
            ("required"@, JsonView::Arr(seq![JsonView::Str(tag)])),
        ],
    )
}

/// The `oneOf` branches of a projected tagged union, one per variant, in
/// variant order.
pub open spec fn union_tu_branches(
    variants: Seq<Seq<char>>,
    tag: Seq<char>,
    projected: Seq<(Seq<char>, JsonView)>,
) -> Seq<JsonView>
    decreases variants,
{
    if variants.len() == 0 {
        Seq::empty()
    } else {
        union_tu_branches(variants.drop_last(), tag, projected).push(
            union_tu_branch(variants.last(), tag, projected),
        )
    }
}

/// The union projection of a schema: the same rules as the discriminator
/// projection for product and scalar kinds, and `oneOf` for sum types; a
/// description on the node is merged into the built object last.
pub open spec fn union_of(s: SchemaTypeView) -> JsonView
    decreases s, 1int,
{
    let entries = union_kind_entries(s);
    match s.description {
        Some(d) => JsonView::Obj(obj_upsert(entries, "description"@, JsonView::Str(d))),
        None => JsonView::Obj(entries),
    }
}

/// The entries of the object built for a schema's kind, before the node's
/// description is merged in.
pub open spec fn union_kind_entries(s: SchemaTypeView) -> Seq<(Seq<char>, JsonView)>
    decreases s, 0int,
{
    match s.kind {
        TypeKindView::String => seq![("type"@, JsonView::Str("string"@))],
        TypeKindView::Integer(_) => seq![("type"@, JsonView::Str("integer"@))],
        TypeKindView::Number(_) => seq![("type"@, JsonView::Str("number"@))],
        TypeKindView::Boolean => seq![("type"@, JsonView::Str("boolean"@))],
        TypeKindView::Null => seq![("type"@, JsonView::Str("null"@))],
        TypeKindView::Object { properties, required } => {
            let base = seq![
                ("type"@, JsonView::Str("object"@)),
                ("properties"@, JsonView::Obj(union_entries(properties))),
            ];
            if required.len() == 0 {
                base
            } else {
                base.push(("required"@, JsonView::Arr(str_arr(required))))
            }
        },
        TypeKindView::Array { items } => seq![
            ("type"@, JsonView::Str("array"@)),
            ("items"@, union_of(*items)),
        ],
        TypeKindView::SetOf { items, ordered } => seq![
            ("type"@, JsonView::Str("array"@)),
            ("items"@, union_of(*items)),
            ("uniqueItems"@, JsonView::Bool(true)),
        ],
        TypeKindView::MapOf { key, value, ordered } => {
            if key.kind is String {
                seq![
                    ("type"@, JsonView::Str("object"@)),
                    ("additionalProperties"@, union_of(*value)),
                ]
            } else {
                seq![
                    ("type"@, JsonView::Str("array"@)),
                    (
                        "items"@,
                        JsonView::Obj(
                            seq![
                                ("type"@, JsonView::Str("array"@)),
                                (
                                    "prefixItems"@,
                                    JsonView::Arr(seq![union_of(*key), union_of(*value)]),
                                ),
                                ("minItems"@, JsonView::Num(2)),
                                ("maxItems"@, JsonView::Num(2)),
                            ],
                        ),
                    ),
                ]
            }
        },
        TypeKindView::Enum { variants } => seq![
            ("type"@, JsonView::Str("string"@)),
            ("enum"@, JsonView::Arr(str_arr(variants))),
        ],
        TypeKindView::TaggedUnion { tag_field, tag_variants, data_fields } => seq![
            (
                "oneOf"@,
                JsonView::Arr(
                    union_tu_branches(tag_variants, tag_field, union_entries(data_fields)),
                ),
            ),
            (
                "discriminator"@,
                JsonView::Obj(seq![("propertyName"@, JsonView::Str(tag_field))]),
            ),
        ],
        TypeKindView::Variant { cases } => seq![
            ("oneOf"@, JsonView::Arr(union_case_branches(cases))),
        ],
        TypeKindView::Result { ok, err } => seq![
            (
                "oneOf"@,
                JsonView::Arr(
                    seq![
                        JsonView::Obj(
                            seq![
                                ("type"@, JsonView::Str("object"@)),
                                ("properties"@, JsonView::Obj(seq![("ok"@, union_of(*ok))])),
                                ("required"@, JsonView::Arr(seq![JsonView::Str("ok"@)])),
                            ],
                        ),
                        JsonView::Obj(
                            seq![
                                ("type"@, JsonView::Str("object"@)),
                                (
                                    "properties"@,
                                    JsonView::Obj(seq![("error"@, union_of(*err))]),
                                ),
                                ("required"@, JsonView::Arr(seq![JsonView::Str("error"@)])),
                            ],
                        ),
                    ],
                ),
            ),
        ],
        TypeKindView::Tuple { fields } => {
            if fields.len() == 0 {
                seq![("type"@, JsonView::Str("array"@)), ("maxItems"@, JsonView::Num(0))]
            } else {
                seq![
                    ("type"@, JsonView::Str("array"@)),
                    ("prefixItems"@, JsonView::Arr(union_arr(fields))),
                    ("minItems"@, JsonView::Num(fields.len())),
                    ("maxItems"@, JsonView::Num(fields.len())),
                ]
            }
        },
        TypeKindView::Ref { name } => seq![
            ("$ref"@, JsonView::Str("#/components/schemas/"@ + name)),
        ],
    }
}

/// Each named property projected by the union rule, in order.
pub open spec fn union_entries(ps: Seq<(Seq<char>, SchemaTypeView)>) -> Seq<(Seq<char>, JsonView)>
    decreases ps, 0int,
{
    if ps.len() == 0 {
        Seq::empty()
    } else {
        union_entries(ps.drop_last()).push((ps.last().0, union_of(ps.last().1)))
    }
}

/// Each element projected by the union rule, in order.
pub open spec fn union_arr(fs: Seq<SchemaTypeView>) -> Seq<JsonView>
    decreases fs, 0int,
{
    if fs.len() == 0 {
        Seq::empty()
    } else {
        union_arr(fs.drop_last()).push(union_of(fs.last()))
    }
}

/// The `oneOf` branch of one variant case: a unit case is a string constant;
/// a case with a payload is an object with the pinned discriminator and the
/// payload under `data`, both required, with the case's description attached
/// to the branch.
pub open spec fn union_case_branch(c: VariantCaseView) -> JsonView
    decreases c, 1int,
{
    match c.data {
        None => JsonView::Obj(
            seq![
                ("type"@, JsonView::Str("string"@)),
                ("const"@, JsonView::Str(c.name)),
            ],
        ),
        Some(d) => {
            let entries = seq![
                ("type"@, JsonView::Str("object"@)),
                (
                    "properties"@,
                    JsonView::Obj(
                        seq![
                            (
                                "type"@,
                                JsonView::Obj(
                                    seq![
                                        ("type"@, JsonView::Str("string"@)),
                                        ("const"@, JsonView::Str(c.name)),
                                    ],
                                ),
                            ),
                            ("data"@, union_of(d)),
                        ],
                    ),
                ),
                (
                    "required"@,
                    JsonView::Arr(seq![JsonView::Str("type"@), JsonView::Str("data"@)]),
                ),
            ];
            match c.description {
                Some(t) => JsonView::Obj(obj_upsert(entries, "description"@, JsonView::Str(t))),
                None => JsonView::Obj(entries),
            }
        },
    }
}

/// The `oneOf` branches of a projected variant, one per case, in case order.
pub open spec fn union_case_branches(cases: Seq<VariantCaseView>) -> Seq<JsonView>
    decreases cases, 0int,
{
    if cases.len() == 0 {
        Seq::empty()
    } else {
        union_case_branches(cases.drop_last()).push(union_case_branch(cases.last()))
    }
}

/// The discriminator property pinned to one literal variant value.
fn pinned_tag_schema(variant: &String) -> (r: JsonValue)
    ensures
        r.deep_view() == pinned_tag_json(variant@),
{
    let mut obj: Vec<(String, JsonValue)> = Vec::new();
    proof {
        assert(jobj_view(obj@) =~= Seq::empty());
    }
    obj_push(&mut obj, "type", JsonValue::Str("string".to_owned()));
    let mut one: Vec<JsonValue> = Vec::new();
    proof {
        assert(jarr_view(one@) =~= Seq::empty());
    }
    arr_push(&mut one, JsonValue::Str(variant.clone()));
    proof {
        assert(jarr_view(one@) =~= seq![JsonView::Str(variant@)]);
    }
    obj_push(&mut obj, "enum", JsonValue::Arr(one));
    proof {
        assert(jobj_view(obj@) =~= seq![
            ("type"@, JsonView::Str("string"@)),
            ("enum"@, JsonView::Arr(seq![JsonView::Str(variant@)])),
        ]);
    }
    JsonValue::Obj(obj)
}

/// Project each named property by the union rule, in order.
#[verifier::loop_isolation(false)]
fn union_props(ps: &Vec<(String, SchemaType)>) -> (r: Vec<(String, JsonValue)>)
    ensures
        jobj_view(r@) == union_entries(props_view(ps@)),
    decreases ps@, 0int,
{
    proof {
        lemma_props_view(ps@);
    }
    let mut out: Vec<(String, JsonValue)> = Vec::new();
    let n = ps.len();
    let mut i: usize = 0;
    proof {
        assert(jobj_view(out@) =~= Seq::empty());
        assert(props_view(ps@).take(0) =~= Seq::empty());
    }
    while i < n
        invariant
            i <= n,
            jobj_view(out@) == union_entries(props_view(ps@).take(i as int)),
        decreases n - i,
    {
        let entry = &ps[i];
        let v = schema_type_to_openapi(&entry.1);
        obj_push(&mut out, entry.0.as_str(), v);
        proof {
            let pv = props_view(ps@);
            assert(pv.take(i as int + 1).drop_last() =~= pv.take(i as int));
            assert(pv.take(i as int + 1).last() == pv[i as int]);
            assert(pv[i as int] == (ps@[i as int].0@, schema_view(ps@[i as int].1)));
            assert(jobj_view(out@) == union_entries(pv.take(i as int + 1)));
        }
        i = i + 1;
    }
    proof {
        assert(props_view(ps@).take(n as int) =~= props_view(ps@));
    }
    out
}

/// Project each element by the union rule, in order.
#[verifier::loop_isolation(false)]
fn union_items(fs: &Vec<SchemaType>) -> (r: Vec<JsonValue>)
    ensures
        jarr_view(r@) == union_arr(fields_view(fs@)),
    decreases fs@, 0int,
{
    proof {
        lemma_fields_view(fs@);
    }
    let mut out: Vec<JsonValue> = Vec::new();
    let n = fs.len();
    let mut i: usize = 0;
    proof {
        assert(jarr_view(out@) =~= Seq::empty());
        assert(fields_view(fs@).take(0) =~= Seq::empty());
    }
    while i < n
        invariant
            i <= n,
            jarr_view(out@) == union_arr(fields_view(fs@).take(i as int)),
        decreases n - i,
    {
        let v = schema_type_to_openapi(&fs[i]);
        arr_push(&mut out, v);
        proof {
            let fv = fields_view(fs@);
            assert(fv.take(i as int + 1).drop_last() =~= fv.take(i as int));
            assert(fv.take(i as int + 1).last() == fv[i as int]);
            assert(jarr_view(out@) == union_arr(fv.take(i as int + 1)));
        }
        i = i + 1;
    }
    proof {
        assert(fields_view(fs@).take(n as int) =~= fields_view(fs@));
    }
    out
}

/// One `oneOf` branch of a projected tagged union.
fn tu_branch(tag_field: &String, variant: &String, projected: Vec<(String, JsonValue)>) -> (r:
    JsonValue)
    ensures
        r.deep_view() == union_tu_branch(variant@, tag_field@, jobj_view(projected@)),
{
    let mut props = projected;
    obj_set(&mut props, tag_field.as_str(), pinned_tag_schema(variant));
    let mut obj: Vec<(String, JsonValue)> = Vec::new();
    proof {
        assert(jobj_view(obj@) =~= Seq::empty());
    }
    obj_push(&mut obj, "type", JsonValue::Str("object".to_owned()));
    obj_push(&mut obj, "properties", JsonValue::Obj(props));
    let mut req: Vec<JsonValue> = Vec::new();
    proof {
        assert(jarr_view(req@) =~= Seq::empty());
    }
    arr_push(&mut req, JsonValue::Str(tag_field.clone()));
    proof {
        assert(jarr_view(req@) =~= seq![JsonView::Str(tag_field@)]);
    }
    obj_push(&mut obj, "required", JsonValue::Arr(req));
    proof {
        assert(jobj_view(obj@) =~= seq![
            ("type"@, JsonView::Str("object"@)),
            (
                "properties"@,
                JsonView::Obj(
                    obj_upsert(jobj_view(projected@), tag_field@, pinned_tag_json(variant@)),
                ),
            ),
            ("required"@, JsonView::Arr(seq![JsonView::Str(tag_field@)])),
        ]);
    }
    JsonValue::Obj(obj)
}

/// One `oneOf` branch of a projected result type.
fn result_branch(key: &str, inner: JsonValue) -> (r: JsonValue)
    ensures
        r.deep_view() == JsonView::Obj(
            seq![
                ("type"@, JsonView::Str("object"@)),
                ("properties"@, JsonView::Obj(seq![(key@, inner.deep_view())])),
                ("required"@, JsonView::Arr(seq![JsonView::Str(key@)])),
            ],
        ),
{
    let mut props: Vec<(String, JsonValue)> = Vec::new();
    proof {
        assert(jobj_view(props@) =~= Seq::empty());
    }
    obj_push(&mut props, key, inner);
    proof {
        assert(jobj_view(props@) =~= seq![(key@, json_view(inner))]);
    }
    let mut obj: Vec<(String, JsonValue)> = Vec::new();
    proof {
        assert(jobj_view(obj@) =~= Seq::empty());
    }
    obj_push(&mut obj, "type", JsonValue::Str("object".to_owned()));
    obj_push(&mut obj, "properties", JsonValue::Obj(props));
    let mut req: Vec<JsonValue> = Vec::new();
    proof {
        assert(jarr_view(req@) =~= Seq::empty());
    }
    arr_push(&mut req, JsonValue::Str(key.to_owned()));
    proof {
        assert(jarr_view(req@) =~= seq![JsonView::Str(key@)]);
    }
    obj_push(&mut obj, "required", JsonValue::Arr(req));
    proof {
        assert(jobj_view(obj@) =~= seq![
            ("type"@, JsonView::Str("object"@)),
            ("properties"@, JsonView::Obj(seq![(key@, json_view(inner))])),
            ("required"@, JsonView::Arr(seq![JsonView::Str(key@)])),
        ]);
    }
    JsonValue::Obj(obj)
}

/// The `oneOf` branch of one variant case.
#[verifier::rlimit(50)]
fn case_branch(c: &VariantCase) -> (r: JsonValue)
    ensures
        r.deep_view() == union_case_branch(case_view(*c)),
    decreases *c, 1int,
{
    match &c.data {
        None => {
            let mut obj: Vec<(String, JsonValue)> = Vec::new();
            proof {
                assert(jobj_view(obj@) =~= Seq::empty());
            }
            obj_push(&mut obj, "type", JsonValue::Str("string".to_owned()));
            obj_push(&mut obj, "const", JsonValue::Str(c.name.clone()));
            proof {
                assert(jobj_view(obj@) =~= seq![
                    ("type"@, JsonView::Str("string"@)),
                    ("const"@, JsonView::Str(c.name@)),
                ]);
            }
            JsonValue::Obj(obj)
        },
        Some(d) => {
            let inner = schema_type_to_openapi(d);
            let mut pinned: Vec<(String, JsonValue)> = Vec::new();
            proof {
                assert(jobj_view(pinned@) =~= Seq::empty());
            }
            obj_push(&mut pinned, "type", JsonValue::Str("string".to_owned()));
            obj_push(&mut pinned, "const", JsonValue::Str(c.name.clone()));
            proof {
                assert(jobj_view(pinned@) =~= seq![
                    ("type"@, JsonView::Str("string"@)),
                    ("const"@, JsonView::Str(c.name@)),
                ]);
            }
            let mut props: Vec<(String, JsonValue)> = Vec::new();
            proof {
                assert(jobj_view(props@) =~= Seq::empty());
            }
            obj_push(&mut props, "type", JsonValue::Obj(pinned));
            obj_push(&mut props, "data", inner);
            proof {
                assert(jobj_view(props@) =~= seq![
                    (
                        "type"@,
                        JsonView::Obj(
                            seq![
                                ("type"@, JsonView::Str("string"@)),
                                ("const"@, JsonView::Str(c.name@)),
                            ],
                        ),
                    ),
                    ("data"@, union_of(schema_view(*d))),
                ]);
            }
            let mut req: Vec<JsonValue> = Vec::new();
            proof {
                assert(jarr_view(req@) =~= Seq::empty());
            }
            arr_push(&mut req, JsonValue::Str("type".to_owned()));
            arr_push(&mut req, JsonValue::Str("data".to_owned()));
            proof {
                assert(jarr_view(req@) =~= seq![JsonView::Str("type"@), JsonView::Str("data"@)]);
            }
            let mut obj: Vec<(String, JsonValue)> = Vec::new();
            proof {
                assert(jobj_view(obj@) =~= Seq::empty());
            }
            obj_push(&mut obj, "type", JsonValue::Str("object".to_owned()));
            obj_push(&mut obj, "properties", JsonValue::Obj(props));
            obj_push(&mut obj, "required", JsonValue::Arr(req));
            proof {
                assert(case_view(*c).data == Some(schema_view(*d)));
                assert(jobj_view(obj@) =~= seq![
                    ("type"@, JsonView::Str("object"@)),
                    (
                        "properties"@,
                        JsonView::Obj(
                            seq![
                                (
                                    "type"@,
                                    JsonView::Obj(
                                        seq![
                                            ("type"@, JsonView::Str("string"@)),
                                            ("const"@, JsonView::Str(c.name@)),
                                        ],
                                    ),
                                ),
                                ("data"@, union_of(schema_view(*d))),
                            ],
                        ),
                    ),
                    (
                        "required"@,
                        JsonView::Arr(seq![JsonView::Str("type"@), JsonView::Str("data"@)]),
                    ),
                ]);
            }
            match &c.description {
                Some(t) => {
                    obj_set(&mut obj, "description", JsonValue::Str(t.clone()));
                },
                None => {
                },
            }
            JsonValue::Obj(obj)
        },
    }
}

/// The object entries built for a schema's kind, before the description is
/// merged in.
#[verifier::loop_isolation(false)]
#[verifier::rlimit(50)]
fn union_body(schema: &SchemaType) -> (r: Vec<(String, JsonValue)>)
    ensures
        jobj_view(r@) == union_kind_entries(schema.deep_view()),
    decreases *schema, 0int,
{
    let mut obj: Vec<(String, JsonValue)> = Vec::new();
    proof {
        assert(jobj_view(obj@) =~= Seq::empty());
    }
    match &schema.kind {
        TypeKind::String => {
            obj_push(&mut obj, "type", JsonValue::Str("string".to_owned()));
        },
        TypeKind::Integer(_) => {
            obj_push(&mut obj, "type", JsonValue::Str("integer".to_owned()));
        },
        TypeKind::Number(_) => {
            obj_push(&mut obj, "type", JsonValue::Str("number".to_owned()));
        },
        TypeKind::Boolean => {
            obj_push(&mut obj, "type", JsonValue::Str("boolean".to_owned()));
        },
        TypeKind::Null => {
            obj_push(&mut obj, "type", JsonValue::Str("null".to_owned()));
        },
        TypeKind::Object { properties, required } => {
            obj_push(&mut obj, "type", JsonValue::Str("object".to_owned()));
            let props = union_props(properties);
            obj_push(&mut obj, "properties", JsonValue::Obj(props));
            if !required.is_empty() {
                obj_push(&mut obj, "required", str_array(required));
            }
        },
        TypeKind::Array { items } => {
            obj_push(&mut obj, "type", JsonValue::Str("array".to_owned()));
            obj_push(&mut obj, "items", schema_type_to_openapi(items));
        },
        TypeKind::SetOf { items, ordered } => {
            obj_push(&mut obj, "type", JsonValue::Str("array".to_owned()));
            obj_push(&mut obj, "items", schema_type_to_openapi(items));
            obj_push(&mut obj, "uniqueItems", JsonValue::Bool(true));
        },
        TypeKind::MapOf { key, value, ordered } => {
            if matches!(&key.kind, TypeKind::String) {
                obj_push(&mut obj, "type", JsonValue::Str("object".to_owned()));
                obj_push(&mut obj, "additionalProperties", schema_type_to_openapi(value));
            } else {
                obj_push(&mut obj, "type", JsonValue::Str("array".to_owned()));
                let key_json = schema_type_to_openapi(key);
                let value_json = schema_type_to_openapi(value);
                let mut tup: Vec<(String, JsonValue)> = Vec::new();
                proof {
                    assert(jobj_view(tup@) =~= Seq::empty());
                }
                obj_push(&mut tup, "type", JsonValue::Str("array".to_owned()));
                let mut pre: Vec<JsonValue> = Vec::new();
                proof {
                    assert(jarr_view(pre@) =~= Seq::empty());
                }
                arr_push(&mut pre, key_json);
                arr_push(&mut pre, value_json);
                proof {
                    assert(jarr_view(pre@) =~= seq![json_view(key_json), json_view(value_json)]);
                }
                obj_push(&mut tup, "prefixItems", JsonValue::Arr(pre));
                obj_push(&mut tup, "minItems", JsonValue::Num(2));
                obj_push(&mut tup, "maxItems", JsonValue::Num(2));
                proof {
                    assert(jobj_view(tup@) =~= seq![
                        ("type"@, JsonView::Str("array"@)),
                        (
                            "prefixItems"@,
                            JsonView::Arr(seq![json_view(key_json), json_view(value_json)]),
                        ),
                        ("minItems"@, JsonView::Num(2)),
                        ("maxItems"@, JsonView::Num(2)),
                    ]);
                }
                obj_push(&mut obj, "items", JsonValue::Obj(tup));
                proof {
                    assert(!(schema.deep_view().kind->MapOf_key.kind is String));
                }
            }
        },
        TypeKind::Enum { variants } => {
            obj_push(&mut obj, "type", JsonValue::Str("string".to_owned()));
            obj_push(&mut obj, "enum", str_array(variants));
        },
        TypeKind::TaggedUnion { tag_field, tag_variants, data_fields } => {
            let mut branches: Vec<JsonValue> = Vec::new();
            let n = tag_variants.len();
            let mut i: usize = 0;
            let ghost projected = union_entries(props_view(data_fields@));
            proof {
                assert(jarr_view(branches@) =~= Seq::empty());
                assert(tag_variants.deep_view().take(0) =~= Seq::empty());
            }
            while i < n
                invariant
                    i <= n,
                    jarr_view(branches@) == union_tu_branches(
                        tag_variants.deep_view().take(i as int),
                        tag_field@,
                        projected,
                    ),
                decreases n - i,
            {
                let fields_json = union_props(data_fields);
                let b = tu_branch(tag_field, &tag_variants[i], fields_json);
                arr_push(&mut branches, b);
                proof {
                    let vdv = tag_variants.deep_view();
                    assert(vdv.take(i as int + 1).drop_last() =~= vdv.take(i as int));
                    assert(vdv.take(i as int + 1).last() == vdv[i as int]);
                    assert(vdv[i as int] == tag_variants@[i as int]@);
                    assert(jarr_view(branches@) == union_tu_branches(
                        vdv.take(i as int + 1),
                        tag_field@,
                        projected,
                    ));
                }
                i = i + 1;
            }
            proof {
                assert(tag_variants.deep_view().take(n as int) =~= tag_variants.deep_view());
            }
            obj_push(&mut obj, "oneOf", JsonValue::Arr(branches));
            let mut disc: Vec<(String, JsonValue)> = Vec::new();
            proof {
                assert(jobj_view(disc@) =~= Seq::empty());
            }
            obj_push(&mut disc, "propertyName", JsonValue::Str(tag_field.clone()));
            proof {
                assert(jobj_view(disc@) =~= seq![("propertyName"@, JsonView::Str(tag_field@))]);
            }
            obj_push(&mut obj, "discriminator", JsonValue::Obj(disc));
        },
        TypeKind::Variant { cases } => {
            proof {
                lemma_cases_view(cases@);
            }
            let mut branches: Vec<JsonValue> = Vec::new();
            let n = cases.len();
            let mut i: usize = 0;
            proof {
                assert(jarr_view(branches@) =~= Seq::empty());
                assert(cases_view(cases@).take(0) =~= Seq::empty());
            }
            while i < n
                invariant
                    i <= n,
                    jarr_view(branches@) == union_case_branches(
                        cases_view(cases@).take(i as int),
                    ),
                decreases n - i,
            {
                let b = case_branch(&cases[i]);
                arr_push(&mut branches, b);
                proof {
                    let cv = cases_view(cases@);
                    assert(cv.take(i as int + 1).drop_last() =~= cv.take(i as int));
                    assert(cv.take(i as int + 1).last() == cv[i as int]);
                    assert(jarr_view(branches@) == union_case_branches(cv.take(i as int + 1)));
                }
                i = i + 1;
            }
            proof {
                assert(cases_view(cases@).take(n as int) =~= cases_view(cases@));
            }
            obj_push(&mut obj, "oneOf", JsonValue::Arr(branches));
        },
        TypeKind::Result { ok, err } => {
            let ok_branch = result_branch("ok", schema_type_to_openapi(ok));
            let err_branch = result_branch("error", schema_type_to_openapi(err));
            let mut branches: Vec<JsonValue> = Vec::new();
            proof {
                assert(jarr_view(branches@) =~= Seq::empty());
            }
            arr_push(&mut branches, ok_branch);
            arr_push(&mut branches, err_branch);
            proof {
                assert(jarr_view(branches@) =~= seq![
                    json_view(ok_branch),
                    json_view(err_branch),
                ]);
            }
            obj_push(&mut obj, "oneOf", JsonValue::Arr(branches));
        },
        TypeKind::Tuple { fields } => {
            obj_push(&mut obj, "type", JsonValue::Str("array".to_owned()));
            if fields.is_empty() {
                obj_push(&mut obj, "maxItems", JsonValue::Num(0));
                proof {
                    assert(fields_view(fields@).len() == 0) by {
                        lemma_fields_view(fields@);
                    }
                }
            } else {
                obj_push(&mut obj, "prefixItems", JsonValue::Arr(union_items(fields)));
                let len = fields.len() as u64;
                obj_push(&mut obj, "minItems", JsonValue::Num(len));
                obj_push(&mut obj, "maxItems", JsonValue::Num(len));
                proof {
                    lemma_fields_view(fields@);
                }
            }
        },
        TypeKind::Ref { name } => {
            let mut target = "#/components/schemas/".to_owned();
            target.append(name.as_str());
            obj_push(&mut obj, "$ref", JsonValue::Str(target));
        },
    }
    obj
}

/// Convert a schema to an OpenAPI-style component schema.
pub fn schema_type_to_openapi(schema: &SchemaType) -> (r: JsonValue)
    ensures
        r.deep_view() == union_of(schema.deep_view()),
    decreases *schema, 1int,
{
    let mut obj = union_body(schema);
    match &schema.description {
        Some(d) => {
            obj_set(&mut obj, "description", JsonValue::Str(d.clone()));
        },
        None => {
        },
    }
    JsonValue::Obj(obj)
}

/// Convert a type's schema to an OpenAPI-style component schema.
pub fn to_openapi_schema<T: crate::schemas::Schema>() -> (r: JsonValue)
    ensures
        r.deep_view() == union_of(T::spec_schema()),
{
    let s = T::schema();
    schema_type_to_openapi(&s)
}

} // verus!
