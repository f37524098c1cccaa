//! The discriminator projector: flattens every sum type into a single object
//! with a string discriminator field, because the target format forbids
//! `oneOf`.

use vstd::prelude::*;

use crate::ir::case_view;
use crate::ir::cases_view;
use crate::ir::fields_view;
use crate::ir::lemma_cases_view;
use crate::ir::lemma_fields_view;
use crate::ir::lemma_props_view;
use crate::ir::props_view;
use crate::ir::schema_view;
use crate::ir::SchemaType;
use crate::ir::SchemaTypeView;
use crate::ir::TypeKind;
use crate::ir::TypeKindView;
use crate::ir::VariantCase;
use crate::ir::VariantCaseView;
use crate::json::arr_push;
use crate::json::desc_entries;
use crate::json::jarr_view;
use crate::json::jobj_view;
use crate::json::json_view;
use crate::json::lemma_jobj_view_concat;
use crate::json::merge_first;
use crate::json::obj_merge_all;
use crate::json::obj_push;
use crate::json::obj_set;
use crate::json::obj_set_all;
use crate::json::obj_upsert;
use crate::json::str_arr;
use crate::json::str_array;
use crate::json::upsert_entries;
use crate::json::JsonValue;
use crate::json::JsonView;

verus! {

/// The schema of a string discriminator property: a string restricted to the
/// given variant names.
pub open spec fn tag_enum_json(variants: Seq<Seq<char>>) -> JsonView {
    JsonView::Obj(
        seq![
            ("type"@, JsonView::Str("string"@)),
            ("enum"@, JsonView::Arr(str_arr(variants))),
        ],
    )
}

/// The names of a variant's cases, in order.
pub open spec fn case_names(cases: Seq<VariantCaseView>) -> Seq<Seq<char>> {
    cases.map_values(|c: VariantCaseView| c.name)
}

/// The fixed explanatory text placed on a projected result type.
pub open spec fn result_note() -> Seq<char> {
    "Result type - exactly one of ok or error will be present"@
}

/// The discriminator projection of a schema: one rule per kind, with sum
/// types flattened into a discriminator property plus optional data fields,
/// and never a `oneOf`.
pub open spec fn disc_of(s: SchemaTypeView) -> JsonView
    decreases s,
{
    let base = desc_entries(s.description);
    match s.kind {
        TypeKindView::String => JsonView::Obj(
            base.push(("type"@, JsonView::Str("string"@))),
        ),
        TypeKindView::Integer(_) => JsonView::Obj(
            base.push(("type"@, JsonView::Str("integer"@))),
        ),
        TypeKindView::Number(_) => JsonView::Obj(
            base.push(("type"@, JsonView::Str("number"@))),
        ),
        TypeKindView::Boolean => JsonView::Obj(
            base.push(("type"@, JsonView::Str("boolean"@))),
        ),
        TypeKindView::Null => JsonView::Obj(
            base.push(("type"@, JsonView::Str("null"@))),
        ),
        TypeKindView::Object { properties, required } => JsonView::Obj(
            base.push(("type"@, JsonView::Str("object"@))).push(
                ("properties"@, JsonView::Obj(disc_entries(properties))),
            ).push(("required"@, JsonView::Arr(str_arr(required)))),
        ),
        TypeKindView::Array { items } => JsonView::Obj(
            base.push(("type"@, JsonView::Str("array"@))).push(("items"@, disc_of(*items))),
        ),
        TypeKindView::SetOf { items, ordered } => JsonView::Obj(
            base.push(("type"@, JsonView::Str("array"@))).push(
                ("items"@, disc_of(*items)),
            ).push(("uniqueItems"@, JsonView::Bool(true))),
        ),
        TypeKindView::MapOf { key, value, ordered } => {
            if key.kind is String {
                JsonView::Obj(
                    base.push(("type"@, JsonView::Str("object"@))).push(
                        ("additionalProperties"@, disc_of(*value)),
                    ),
                )
            } else {
                // A map with non-string keys is projected as an array of
                // two-element tuples, by the tuple rule.
                JsonView::Obj(
                    base.push(("type"@, JsonView::Str("array"@))).push(
                        (
                            "items"@,
                            JsonView::Obj(
                                seq![
                                    ("type"@, JsonView::Str("array"@)),
                                    (
                                        "prefixItems"@,
                                        JsonView::Arr(seq![disc_of(*key), disc_of(*value)]),
                                    ),
                                    ("minItems"@, JsonView::Num(2)),
                                    ("maxItems"@, JsonView::Num(2)),
                                ],
                            ),
                        ),
                    ),
                )
            }
        },
        TypeKindView::Enum { variants } => JsonView::Obj(
            base.push(("type"@, JsonView::Str("string"@))).push(
                ("enum"@, JsonView::Arr(str_arr(variants))),
            ),
        ),
        TypeKindView::TaggedUnion { tag_field, tag_variants, data_fields } => JsonView::Obj(
            base.push(("type"@, JsonView::Str("object"@))).push(
                (
                    "properties"@,
                    JsonView::Obj(
                        upsert_entries(
                            seq![(tag_field, tag_enum_json(tag_variants))],
                            disc_entries(data_fields),
                        ),
                    ),
                ),
            ).push(("required"@, JsonView::Arr(seq![JsonView::Str(tag_field)]))),
        ),
        TypeKindView::Variant { cases } => JsonView::Obj(
            base.push(("type"@, JsonView::Str("object"@))).push(
                (
                    "properties"@,
                    JsonView::Obj(
                        upsert_entries(
                            seq![("type"@, tag_enum_json(case_names(cases)))],
                            merge_first(Seq::empty(), disc_case_entries(cases)),
                        ),
                    ),
                ),
            ).push(("required"@, JsonView::Arr(seq![JsonView::Str("type"@)]))),
        ),
        TypeKindView::Result { ok, err } => JsonView::Obj(
            obj_upsert(
                base.push(("type"@, JsonView::Str("object"@))).push(
                    (
                        "properties"@,
                        JsonView::Obj(seq![("ok"@, disc_of(*ok)), ("error"@, disc_of(*err))]),
                    ),
                ),
                "description"@,
                JsonView::Str(result_note()),
            ),
        ),
        TypeKindView::Tuple { fields } => JsonView::Obj(
            if fields.len() == 0 {
                base.push(("type"@, JsonView::Str("array"@))).push(
                    ("maxItems"@, JsonView::Num(0)),
                )
            } else {
                base.push(("type"@, JsonView::Str("array"@))).push(
                    ("prefixItems"@, JsonView::Arr(disc_arr(fields))),
                ).push(("minItems"@, JsonView::Num(fields.len()))).push(
                    ("maxItems"@, JsonView::Num(fields.len())),
                )
            },
        ),
        TypeKindView::Ref { name } => JsonView::Obj(
            seq![("$ref"@, JsonView::Str("#/definitions/"@ + name))],
        ),
    }
}

/// Each property projected by the discriminator rule, in order.
pub open spec fn disc_entries(ps: Seq<(Seq<char>, SchemaTypeView)>) -> Seq<(Seq<char>, JsonView)>
    decreases ps,
{
    if ps.len() == 0 {
        Seq::empty()
    } else {
        disc_entries(ps.drop_last()).push((ps.last().0, disc_of(ps.last().1)))
    }
}

/// Each element projected by the discriminator rule, in order.
pub open spec fn disc_arr(fs: Seq<SchemaTypeView>) -> Seq<JsonView>
    decreases fs,
{
    if fs.len() == 0 {
        Seq::empty()
    } else {
        disc_arr(fs.drop_last()).push(disc_of(fs.last()))
    }
}

/// The projected data fields one variant case contributes when flattened:
/// only a case whose payload is itself an object contributes its properties;
/// any other payload contributes nothing.
pub open spec fn disc_case_fields(c: VariantCaseView) -> Seq<(Seq<char>, JsonView)>
    decreases c,
{
    match c.data {
        Some(d) => match d.kind {
            TypeKindView::Object { properties, required } => disc_entries(properties),
            _ => Seq::empty(),
        },
        None => Seq::empty(),
    }
}

/// The projected data fields of all variant cases, concatenated in case
/// order; duplicate names are kept here and resolved first-wins by
/// [`merge_first`].
pub open spec fn disc_case_entries(cs: Seq<VariantCaseView>) -> Seq<(Seq<char>, JsonView)>
    decreases cs,
{
    if cs.len() == 0 {
        Seq::empty()
    } else {
        disc_case_entries(cs.drop_last()) + disc_case_fields(cs.last())
    }
}

/// The tool definition envelope around a projected input schema.
pub open spec fn tool_schema_of(
    name: Seq<char>,
    description: Seq<char>,
    input: SchemaTypeView,
) -> JsonView {
    JsonView::Obj(
        seq![
            ("name"@, JsonView::Str(name)),
            ("description"@, JsonView::Str(description)),
            ("input_schema"@, disc_of(input)),
        ],
    )
}

/// The entries a description contributes, as a JSON object under
/// construction.
fn desc_base(description: &Option<String>) -> (r: Vec<(String, JsonValue)>)
    ensures
        jobj_view(r@) == desc_entries(description.deep_view()),
{
    let mut obj: Vec<(String, JsonValue)> = Vec::new();
    proof {
        assert(jobj_view(obj@) =~= Seq::empty());
    }
    match description {
        Some(d) => {
            obj_push(&mut obj, "description", JsonValue::Str(d.clone()));
            proof {
                assert(jobj_view(obj@) =~= desc_entries(description.deep_view()));
            }
        },
        None => {
        },
    }
    obj
}

/// A primitive projection: the description entries plus a single `type`
/// entry naming the primitive.
fn prim_schema(description: &Option<String>, name: &str) -> (r: JsonValue)
    ensures
        r.deep_view() == JsonView::Obj(
            desc_entries(description.deep_view()).push(("type"@, JsonView::Str(name@))),
        ),
{
    let mut obj = desc_base(description);
    obj_push(&mut obj, "type", JsonValue::Str(name.to_owned()));
    JsonValue::Obj(obj)
}

/// The discriminator property for a list of variant names.
fn tag_enum_schema(variants: &Vec<String>) -> (r: JsonValue)
    ensures
        r.deep_view() == tag_enum_json(variants.deep_view()),
{
    let mut obj: Vec<(String, JsonValue)> = Vec::new();
    proof {
        assert(jobj_view(obj@) =~= Seq::empty());
    }
    obj_push(&mut obj, "type", JsonValue::Str("string".to_owned()));
    obj_push(&mut obj, "enum", str_array(variants));
    proof {
        assert(jobj_view(obj@) =~= seq![
            ("type"@, JsonView::Str("string"@)),
            ("enum"@, JsonView::Arr(str_arr(variants.deep_view()))),
        ]);
    }
    JsonValue::Obj(obj)
}

/// The case names of a variant, as owned strings in case order.
fn case_name_list(cases: &Vec<VariantCase>) -> (r: Vec<String>)
    ensures
        r.deep_view() == case_names(cases_view(cases@)),
{
    proof {
        lemma_cases_view(cases@);
    }
    let mut names: Vec<String> = Vec::new();
    let n = cases.len();
    let mut i: usize = 0;
    while i < n
        invariant
            i <= n,
            n == cases@.len(),
            cases_view(cases@).len() == cases@.len(),
            forall|k: int| 0 <= k < cases@.len() ==> cases_view(cases@)[k] == case_view(cases@[k]),
            names@.len() == i,
            forall|k: int| 0 <= k < i ==> names@[k]@ == cases_view(cases@)[k].name,
        decreases n - i,
    {
        names.push(cases[i].name.clone());
        i = i + 1;
    }
    proof {
        assert(names.deep_view() =~= case_names(cases_view(cases@)));
    }
    names
}

/// Project each named property by the discriminator rule, in order.
#[verifier::loop_isolation(false)]
fn disc_props(ps: &Vec<(String, SchemaType)>) -> (r: Vec<(String, JsonValue)>)
    ensures
        jobj_view(r@) == disc_entries(props_view(ps@)),
    decreases ps@,
{
    proof {
        lemma_props_view(ps@);
    }
    let mut out: Vec<(String, JsonValue)> = Vec::new();
    let n = ps.len();
    let mut i: usize = 0;
    proof {
        assert(jobj_view(out@) =~= Seq::empty());
        assert(props_view(ps@).take(0) =~= Seq::empty());
    }
    while i < n
        invariant
            i <= n,
            jobj_view(out@) == disc_entries(props_view(ps@).take(i as int)),
        decreases n - i,
    {
        let entry = &ps[i];
        let v = to_anthropic_schema(&entry.1);
        obj_push(&mut out, entry.0.as_str(), v);
        proof {
            let pv = props_view(ps@);
            assert(pv.take(i as int + 1).drop_last() =~= pv.take(i as int));
            assert(pv.take(i as int + 1).last() == pv[i as int]);
            assert(pv[i as int] == (ps@[i as int].0@, schema_view(ps@[i as int].1)));
            assert(jobj_view(out@) == disc_entries(pv.take(i as int + 1)));
        }
        i = i + 1;
    }
    proof {
        assert(props_view(ps@).take(n as int) =~= props_view(ps@));
    }
    out
}

/// Project each element by the discriminator rule, in order.
#[verifier::loop_isolation(false)]
fn disc_items(fs: &Vec<SchemaType>) -> (r: Vec<JsonValue>)
    ensures
        jarr_view(r@) == disc_arr(fields_view(fs@)),
    decreases fs@,
{
    proof {
        lemma_fields_view(fs@);
    }
    let mut out: Vec<JsonValue> = Vec::new();
    let n = fs.len();
    let mut i: usize = 0;
    proof {
        assert(jarr_view(out@) =~= Seq::empty());
        assert(fields_view(fs@).take(0) =~= Seq::empty());
    }
    while i < n
        invariant
            i <= n,
            jarr_view(out@) == disc_arr(fields_view(fs@).take(i as int)),
        decreases n - i,
    {
        let v = to_anthropic_schema(&fs[i]);
        arr_push(&mut out, v);
        proof {
            let fv = fields_view(fs@);
            assert(fv.take(i as int + 1).drop_last() =~= fv.take(i as int));
            assert(fv.take(i as int + 1).last() == fv[i as int]);
            assert(jarr_view(out@) == disc_arr(fv.take(i as int + 1)));
        }
        i = i + 1;
    }
    proof {
        assert(fields_view(fs@).take(n as int) =~= fields_view(fs@));
    }
    out
}

/// Collect the projected data fields of every case, concatenated in case
/// order, duplicates included.
#[verifier::loop_isolation(false)]
#[verifier::rlimit(50)]
fn disc_flatten_cases(cs: &Vec<VariantCase>) -> (r: Vec<(String, JsonValue)>)
    ensures
        jobj_view(r@) == disc_case_entries(cases_view(cs@)),
    decreases cs@,
{
    proof {
        lemma_cases_view(cs@);
    }
    let mut out: Vec<(String, JsonValue)> = Vec::new();
    let n = cs.len();
    let mut i: usize = 0;
    proof {
        assert(jobj_view(out@) =~= Seq::empty());
        assert(cases_view(cs@).take(0) =~= Seq::empty());
    }
    while i < n
        invariant
            i <= n,
            jobj_view(out@) == disc_case_entries(cases_view(cs@).take(i as int)),
        decreases n - i,
    {
        let ghost cv = cases_view(cs@);
        let ghost before = jobj_view(out@);
        let c = &cs[i];
        match &c.data {
            Some(data) => {
                match &data.kind {
                    TypeKind::Object { properties, required } => {
                        let mut entries = disc_props(properties);
                        let ghost evs = entries@;
                        let ghost outp = out@;
                        out.append(&mut entries);
                        proof {
                            assert(out@ == outp + evs);
                            lemma_jobj_view_concat(outp, evs);
                            assert(disc_case_fields(cv[i as int]) == disc_entries(
                                props_view(properties@),
                            ));
                        }
                    },
                    _ => {
                        proof {
                            assert(disc_case_fields(cv[i as int]) =~= Seq::empty());
                        }
                    },
                }
            },
            None => {
                proof {
                    assert(disc_case_fields(cv[i as int]) =~= Seq::empty());
                }
            },
        }
        proof {
            assert(cv.take(i as int + 1).drop_last() =~= cv.take(i as int));
            assert(cv.take(i as int + 1).last() == cv[i as int]);
            assert(jobj_view(out@) =~= disc_case_entries(cv.take(i as int + 1)));
        }
        i = i + 1;
    }
    proof {
        assert(cases_view(cs@).take(n as int) =~= cases_view(cs@));
    }
    out
}

/// Assemble the object-rule output from its projected parts.
fn assemble_object(
    description: &Option<String>,
    props: Vec<(String, JsonValue)>,
    required: &Vec<String>,
) -> (r: JsonValue)
    ensures
        r.deep_view() == JsonView::Obj(
            desc_entries(description.deep_view()).push(("type"@, JsonView::Str("object"@))).push(
                ("properties"@, JsonView::Obj(jobj_view(props@))),
            ).push(("required"@, JsonView::Arr(str_arr(required.deep_view())))),
        ),
{
    let mut obj = desc_base(description);
    obj_push(&mut obj, "type", JsonValue::Str("object".to_owned()));
    obj_push(&mut obj, "properties", JsonValue::Obj(props));
    obj_push(&mut obj, "required", str_array(required));
    JsonValue::Obj(obj)
}

/// Assemble the flattened tagged-union output from its projected parts.
fn assemble_tagged_union(
    description: &Option<String>,
    tag_field: &String,
    tag_variants: &Vec<String>,
    entries: Vec<(String, JsonValue)>,
) -> (r: JsonValue)
    ensures
        r.deep_view() == JsonView::Obj(
            desc_entries(description.deep_view()).push(("type"@, JsonView::Str("object"@))).push(
                (
                    "properties"@,
                    JsonView::Obj(
                        upsert_entries(
                            seq![(tag_field@, tag_enum_json(tag_variants.deep_view()))],
                            jobj_view(entries@),
                        ),
                    ),
                ),
            ).push(("required"@, JsonView::Arr(seq![JsonView::Str(tag_field@)]))),
        ),
{
    let mut obj = desc_base(description);
    obj_push(&mut obj, "type", JsonValue::Str("object".to_owned()));
    let mut props: Vec<(String, JsonValue)> = Vec::new();
    proof {
        assert(jobj_view(props@) =~= Seq::empty());
    }
    obj_push(&mut props, tag_field.as_str(), tag_enum_schema(tag_variants));
    proof {
        assert(jobj_view(props@) =~= seq![(tag_field@, tag_enum_json(tag_variants.deep_view()))]);
    }
    obj_set_all(&mut props, entries);
    obj_push(&mut obj, "properties", JsonValue::Obj(props));
    let mut req: Vec<JsonValue> = Vec::new();
    proof {
        assert(jarr_view(req@) =~= Seq::empty());
    }
    arr_push(&mut req, JsonValue::Str(tag_field.clone()));
    proof {
        assert(jarr_view(req@) =~= seq![JsonView::Str(tag_field@)]);
    }
    obj_push(&mut obj, "required", JsonValue::Arr(req));
    JsonValue::Obj(obj)
}

/// Assemble the flattened variant output from its projected parts.
fn assemble_variant(
    description: &Option<String>,
    names: &Vec<String>,
    all_entries: Vec<(String, JsonValue)>,
) -> (r: JsonValue)
    ensures
        r.deep_view() == JsonView::Obj(
            desc_entries(description.deep_view()).push(("type"@, JsonView::Str("object"@))).push(
                (
                    "properties"@,
                    JsonView::Obj(
                        upsert_entries(
                            seq![("type"@, tag_enum_json(names.deep_view()))],
                            merge_first(Seq::empty(), jobj_view(all_entries@)),
                        ),
                    ),
                ),
            ).push(("required"@, JsonView::Arr(seq![JsonView::Str("type"@)]))),
        ),
{
    let mut obj = desc_base(description);
    obj_push(&mut obj, "type", JsonValue::Str("object".to_owned()));
    let mut props: Vec<(String, JsonValue)> = Vec::new();
    proof {
        assert(jobj_view(props@) =~= Seq::empty());
    }
    obj_push(&mut props, "type", tag_enum_schema(names));
    proof {
        assert(jobj_view(props@) =~= seq![("type"@, tag_enum_json(names.deep_view()))]);
    }
    let mut merged: Vec<(String, JsonValue)> = Vec::new();
    proof {
        assert(jobj_view(merged@) =~= Seq::empty());
    }
    obj_merge_all(&mut merged, all_entries);
    obj_set_all(&mut props, merged);
    obj_push(&mut obj, "properties", JsonValue::Obj(props));
    let mut req: Vec<JsonValue> = Vec::new();
    proof {
        assert(jarr_view(req@) =~= Seq::empty());
    }
    arr_push(&mut req, JsonValue::Str("type".to_owned()));
    proof {
        assert(jarr_view(req@) =~= seq![JsonView::Str("type"@)]);
    }
    obj_push(&mut obj, "required", JsonValue::Arr(req));
    JsonValue::Obj(obj)
}

/// Assemble the result-rule output: both arms optional, with the fixed
/// explanatory description replacing any description of the node.
fn assemble_result(description: &Option<String>, ok_json: JsonValue, err_json: JsonValue) -> (r:
    JsonValue)
    ensures
        r.deep_view() == JsonView::Obj(
            obj_upsert(
                desc_entries(description.deep_view()).push(
                    ("type"@, JsonView::Str("object"@)),
                ).push(
                    (
                        "properties"@,
                        JsonView::Obj(
                            seq![("ok"@, ok_json.deep_view()), ("error"@, err_json.deep_view())],
                        ),
                    ),
                ),
                "description"@,
                JsonView::Str(result_note()),
            ),
        ),
{
    let mut obj = desc_base(description);
    obj_push(&mut obj, "type", JsonValue::Str("object".to_owned()));
    let mut props: Vec<(String, JsonValue)> = Vec::new();
    proof {
        assert(jobj_view(props@) =~= Seq::empty());
    }
    obj_push(&mut props, "ok", ok_json);
    obj_push(&mut props, "error", err_json);
    proof {
        assert(jobj_view(props@) =~= seq![
            ("ok"@, json_view(ok_json)),
            ("error"@, json_view(err_json)),
        ]);
    }
    obj_push(&mut obj, "properties", JsonValue::Obj(props));
    obj_set(
        &mut obj,
        "description",
        JsonValue::Str("Result type - exactly one of ok or error will be present".to_owned()),
    );
    JsonValue::Obj(obj)
}

/// Assemble a non-empty tuple-rule output from its projected parts.
fn assemble_tuple(description: &Option<String>, items: Vec<JsonValue>, len: u64) -> (r: JsonValue)
    ensures
        r.deep_view() == JsonView::Obj(
            desc_entries(description.deep_view()).push(("type"@, JsonView::Str("array"@))).push(
                ("prefixItems"@, JsonView::Arr(jarr_view(items@))),
            ).push(("minItems"@, JsonView::Num(len as nat))).push(
                ("maxItems"@, JsonView::Num(len as nat)),
            ),
        ),
{
    let mut obj = desc_base(description);
    obj_push(&mut obj, "type", JsonValue::Str("array".to_owned()));
    obj_push(&mut obj, "prefixItems", JsonValue::Arr(items));
    obj_push(&mut obj, "minItems", JsonValue::Num(len));
    obj_push(&mut obj, "maxItems", JsonValue::Num(len));
    JsonValue::Obj(obj)
}

/// Assemble the array-of-pairs output for a map with non-string keys.
fn assemble_pair_array(description: &Option<String>, key_json: JsonValue, value_json: JsonValue)
    -> (r: JsonValue)
    ensures
        r.deep_view() == JsonView::Obj(
            desc_entries(description.deep_view()).push(("type"@, JsonView::Str("array"@))).push(
                (
                    "items"@,
                    JsonView::Obj(
                        seq![
                            ("type"@, JsonView::Str("array"@)),
                            (
                                "prefixItems"@,
                                JsonView::Arr(
                                    seq![key_json.deep_view(), value_json.deep_view()],
                                ),
                            ),
                            ("minItems"@, JsonView::Num(2)),
                            ("maxItems"@, JsonView::Num(2)),
                        ],
                    ),
                ),
            ),
        ),
{
    let mut obj = desc_base(description);
    obj_push(&mut obj, "type", JsonValue::Str("array".to_owned()));
    let mut tup: Vec<(String, JsonValue)> = Vec::new();
    proof {
        assert(jobj_view(tup@) =~= Seq::empty());
    }
    obj_push(&mut tup, "type", JsonValue::Str("array".to_owned()));
    let mut pre: Vec<JsonValue> = Vec::new();
    proof {
        assert(jarr_view(pre@) =~= Seq::empty());
    }
    arr_push(&mut pre, key_json);
    arr_push(&mut pre, value_json);
    proof {
        assert(jarr_view(pre@) =~= seq![json_view(key_json), json_view(value_json)]);
    }
    obj_push(&mut tup, "prefixItems", JsonValue::Arr(pre));
    obj_push(&mut tup, "minItems", JsonValue::Num(2));
    obj_push(&mut tup, "maxItems", JsonValue::Num(2));
    proof {
        assert(jobj_view(tup@) =~= seq![
            ("type"@, JsonView::Str("array"@)),
            ("prefixItems"@, JsonView::Arr(seq![json_view(key_json), json_view(value_json)])),
            ("minItems"@, JsonView::Num(2)),
            ("maxItems"@, JsonView::Num(2)),
        ]);
    }
    obj_push(&mut obj, "items", JsonValue::Obj(tup));
    JsonValue::Obj(obj)
}

/// Convert a schema to a JSON schema for LLM tool input.
///
/// Key differences from a standard JSON schema: no `oneOf` for sum types,
/// a discriminator pattern instead, and a simple enum representation.
#[verifier::rlimit(50)]
pub fn to_anthropic_schema(schema: &SchemaType) -> (r: JsonValue)
    ensures
        r.deep_view() == disc_of(schema.deep_view()),
    decreases *schema,
{
    match &schema.kind {
        TypeKind::String => prim_schema(&schema.description, "string"),
        TypeKind::Integer(_) => prim_schema(&schema.description, "integer"),
        TypeKind::Number(_) => prim_schema(&schema.description, "number"),
        TypeKind::Boolean => prim_schema(&schema.description, "boolean"),
        TypeKind::Null => prim_schema(&schema.description, "null"),
        TypeKind::Object { properties, required } => {
            let props = disc_props(properties);
            assemble_object(&schema.description, props, required)
        },
        TypeKind::Array { items } => {
            let mut obj = desc_base(&schema.description);
            obj_push(&mut obj, "type", JsonValue::Str("array".to_owned()));
            obj_push(&mut obj, "items", to_anthropic_schema(items));
            JsonValue::Obj(obj)
        },
        TypeKind::SetOf { items, ordered } => {
            let mut obj = desc_base(&schema.description);
            obj_push(&mut obj, "type", JsonValue::Str("array".to_owned()));
            obj_push(&mut obj, "items", to_anthropic_schema(items));
            obj_push(&mut obj, "uniqueItems", JsonValue::Bool(true));
            JsonValue::Obj(obj)
        },
        TypeKind::MapOf { key, value, ordered } => {
            if matches!(&key.kind, TypeKind::String) {
                let mut obj = desc_base(&schema.description);
                obj_push(&mut obj, "type", JsonValue::Str("object".to_owned()));
                obj_push(&mut obj, "additionalProperties", to_anthropic_schema(value));
                JsonValue::Obj(obj)
            } else {
                let key_json = to_anthropic_schema(key);
                let value_json = to_anthropic_schema(value);
                let r = assemble_pair_array(&schema.description, key_json, value_json);
                proof {
                    assert(!(schema.deep_view().kind->MapOf_key.kind is String));
                }
                r
            }
        },
        TypeKind::Enum { variants } => {
            let mut obj = desc_base(&schema.description);
            obj_push(&mut obj, "type", JsonValue::Str("string".to_owned()));
            obj_push(&mut obj, "enum", str_array(variants));
            JsonValue::Obj(obj)
        },
        TypeKind::TaggedUnion { tag_field, tag_variants, data_fields } => {
            let entries = disc_props(data_fields);
            assemble_tagged_union(&schema.description, tag_field, tag_variants, entries)
        },
        TypeKind::Variant { cases } => {
            let names = case_name_list(cases);
            let all = disc_flatten_cases(cases);
            assemble_variant(&schema.description, &names, all)
        },
        TypeKind::Result { ok, err } => {
            let ok_json = to_anthropic_schema(ok);
            let err_json = to_anthropic_schema(err);
            assemble_result(&schema.description, ok_json, err_json)
        },
        TypeKind::Tuple { fields } => {
            if fields.is_empty() {
                let mut obj = desc_base(&schema.description);
                obj_push(&mut obj, "type", JsonValue::Str("array".to_owned()));
                obj_push(&mut obj, "maxItems", JsonValue::Num(0));
                proof {
                    assert(fields_view(fields@).len() == 0) by {
                        lemma_fields_view(fields@);
                    }
                }
                JsonValue::Obj(obj)
            } else {
                let items = disc_items(fields);
                let len = fields.len() as u64;
                proof {
                    lemma_fields_view(fields@);
                }
                assemble_tuple(&schema.description, items, len)
            }
        },
        TypeKind::Ref { name } => {
            let mut target = "#/definitions/".to_owned();
            target.append(name.as_str());
            let mut obj: Vec<(String, JsonValue)> = Vec::new();
            proof {
                assert(jobj_view(obj@) =~= Seq::empty());
            }
            obj_push(&mut obj, "$ref", JsonValue::Str(target));
            proof {
                assert(jobj_view(obj@) =~= seq![("$ref"@, JsonView::Str("#/definitions/"@ + name@))]);
            }
            JsonValue::Obj(obj)
        },
    }
}

/// Helper to create a full tool schema: the projected input schema wrapped
/// in a `{name, description, input_schema}` envelope.
pub fn create_tool_schema(name: &str, description: &str, input_schema: &SchemaType) -> (r:
    JsonValue)
    ensures
        r.deep_view() == tool_schema_of(name@, description@, input_schema.deep_view()),
{
    let mut obj: Vec<(String, JsonValue)> = Vec::new();
    proof {
        assert(jobj_view(obj@) =~= Seq::empty());
    }
    obj_push(&mut obj, "name", JsonValue::Str(name.to_owned()));
    obj_push(&mut obj, "description", JsonValue::Str(description.to_owned()));
    obj_push(&mut obj, "input_schema", to_anthropic_schema(input_schema));
    proof {
        assert(jobj_view(obj@) =~= seq![
            ("name"@, JsonView::Str(name@)),
            ("description"@, JsonView::Str(description@)),
            ("input_schema"@, disc_of(input_schema.deep_view())),
        ]);
    }
    JsonValue::Obj(obj)
}

} // verus!
