//! Laws of the three projectors, stated and proved over the schema views:
//! what each projector lists for an object's fields, how a variant's case
//! order is kept, that the discriminator projection never introduces a
//! `oneOf` key, and that the interface text does not depend on the order in
//! which a property list was built.

use vstd::prelude::*;

use crate::ir::prop_names;
use crate::ir::SchemaTypeView;
use crate::ir::TypeKindView;
use crate::ir::VariantCaseView;
use crate::json::json_get;
use crate::json::desc_entries;
use crate::json::merge_first;
use crate::json::obj_get;
use crate::json::obj_has_key;
use crate::json::obj_upsert;
use crate::json::str_arr;
use crate::json::upsert_entries;
use crate::json::JsonView;
use crate::openapi::union_case_branch;
use crate::openapi::union_case_branches;
use crate::openapi::union_entries;
use crate::openapi::union_of;
use crate::wit::case_line;
use crate::wit::field_line;
use crate::wit::pair_leq_fn;
use crate::wit::rendered_fields;
use crate::wit::variant_lines;
use crate::wit::wit_of;
use crate::wit::wit_record_text;
use crate::anthropic::case_names;
use crate::anthropic::disc_arr;
use crate::anthropic::disc_case_entries;
use crate::anthropic::disc_case_fields;
use crate::anthropic::disc_entries;
use crate::anthropic::result_note;
use crate::anthropic::tag_enum_json;
use crate::anthropic::disc_of;

verus! {

/// The keys of a list of object entries, in order.
pub open spec fn entry_keys(es: Seq<(Seq<char>, JsonView)>) -> Seq<Seq<char>> {
    es.map_values(|e: (Seq<char>, JsonView)| e.0)
}

/// The projected properties of an object carry exactly the object's
/// property names, in order, under both JSON projectors.
///
/// Law: for an object with fields F, the discriminator and union
/// projections list exactly F as properties.
pub proof fn lemma_object_properties_exact(ps: Seq<(Seq<char>, SchemaTypeView)>)
    ensures
        entry_keys(disc_entries(ps)) =~= prop_names(ps),
        entry_keys(union_entries(ps)) =~= prop_names(ps),
{
    lemma_disc_entries_index(ps);
    lemma_union_entries_index(ps);
}

proof fn lemma_disc_entries_index(ps: Seq<(Seq<char>, SchemaTypeView)>)
    ensures
        disc_entries(ps).len() == ps.len(),
        forall|i: int|
            0 <= i < ps.len() ==> #[trigger] disc_entries(ps)[i] == (
            ps[i].0,
            disc_of(ps[i].1),
            ),
    decreases ps,
{
    if ps.len() > 0 {
        lemma_disc_entries_index(ps.drop_last());
    }
}

proof fn lemma_union_entries_index(ps: Seq<(Seq<char>, SchemaTypeView)>)
    ensures
        union_entries(ps).len() == ps.len(),
        forall|i: int|
            0 <= i < ps.len() ==> #[trigger] union_entries(ps)[i] == (
            ps[i].0,
            union_of(ps[i].1),
            ),
    decreases ps,
{
    if ps.len() > 0 {
        lemma_union_entries_index(ps.drop_last());
    }
}

proof fn lemma_rendered_fields_index(ps: Seq<(Seq<char>, SchemaTypeView)>, required: Seq<Seq<char>>)
    ensures
        rendered_fields(ps, required).len() == ps.len(),
        forall|i: int|
            0 <= i < ps.len() ==> #[trigger] rendered_fields(ps, required)[i] == (
            ps[i].0,
            field_line(ps[i].0, ps[i].1, required),
            ),
    decreases ps,
{
    if ps.len() > 0 {
        lemma_rendered_fields_index(ps.drop_last(), required);
    }
}

/// The interface-text projector renders exactly the object's fields: one
/// rendered line per property, keyed by that property's name, each marked
/// optional exactly when its name is absent from the required list.
///
/// Law: the record body lists exactly F as fields and exactly R as
/// required, in the rendered form of this target.
pub proof fn lemma_record_fields_exact(
    ps: Seq<(Seq<char>, SchemaTypeView)>,
    required: Seq<Seq<char>>,
)
    ensures
        rendered_fields(ps, required).len() == ps.len(),
        forall|i: int|
            0 <= i < ps.len() ==> (#[trigger] rendered_fields(ps, required)[i]).0 == ps[i].0,
        forall|i: int|
            0 <= i < ps.len() ==> (#[trigger] rendered_fields(ps, required)[i]).1 == field_line(
                ps[i].0,
                ps[i].1,
                required,
            ),
{
    lemma_rendered_fields_index(ps, required);
}

/// The union projection of a variant has exactly one `oneOf` branch per
/// case, in case order, each branch the projection of its case.
///
/// Law: for a variant with cases in a given order, the `oneOf` list has
/// exactly that many branches in exactly that order.
pub proof fn lemma_variant_branches_exact(cases: Seq<VariantCaseView>)
    ensures
        union_case_branches(cases).len() == cases.len(),
        forall|i: int|
            0 <= i < cases.len() ==> #[trigger] union_case_branches(cases)[i]
                == union_case_branch(cases[i]),
    decreases cases,
{
    if cases.len() > 0 {
        lemma_variant_branches_exact(cases.drop_last());
    }
}

/// The interface-text projection of a variant lists its cases in case
/// order: the rendered lines of concatenated case lists concatenate.
///
/// Law: case order is preserved by the interface-text projector.
pub proof fn lemma_variant_lines_order(c1: Seq<VariantCaseView>, c2: Seq<VariantCaseView>)
    ensures
        variant_lines(c1 + c2) == variant_lines(c1) + variant_lines(c2),
    decreases c2,
{
    if c2.len() == 0 {
        assert(c1 + c2 =~= c1);
        assert(variant_lines(c1) + variant_lines(c2) =~= variant_lines(c1));
    } else {
        lemma_variant_lines_order(c1, c2.drop_last());
        assert((c1 + c2).drop_last() =~= c1 + c2.drop_last());
        assert((c1 + c2).last() == c2.last());
        assert(variant_lines(c1 + c2) =~= variant_lines(c1) + variant_lines(c2)) by {
            assert(variant_lines(c1 + c2) == variant_lines(c1 + c2.drop_last()) + case_line(
                c2.last(),
            ));
            assert(variant_lines(c2) == variant_lines(c2.drop_last()) + case_line(c2.last()));
        }
    }
}

/// An empty tuple projects to the array form with no items under both JSON
/// projectors, and to the unit keyword in the interface text.
///
/// Law: the empty tuple is a distinct, valid case with a fixed projection.
pub proof fn lemma_empty_tuple_projections(s: SchemaTypeView, name: Option<Seq<char>>)
    requires
        s.kind == (TypeKindView::Tuple { fields: Seq::empty() }),
        s.description is None,
    ensures
        disc_of(s) == JsonView::Obj(
            seq![
                ("type"@, JsonView::Str("array"@)),
                ("maxItems"@, JsonView::Num(0)),
            ],
        ),
        union_of(s) == JsonView::Obj(
            seq![
                ("type"@, JsonView::Str("array"@)),
                ("maxItems"@, JsonView::Num(0)),
            ],
        ),
        wit_of(s, name) == "unit"@,
{
    assert(disc_of(s) =~~= JsonView::Obj(
        seq![("type"@, JsonView::Str("array"@)), ("maxItems"@, JsonView::Num(0))],
    )) by {
        assert(crate::json::desc_entries(s.description).push(("type"@, JsonView::Str("array"@)))
            .push(("maxItems"@, JsonView::Num(0))) =~= seq![
            ("type"@, JsonView::Str("array"@)),
            ("maxItems"@, JsonView::Num(0)),
        ]);
    }
    assert(union_of(s) =~~= JsonView::Obj(
        seq![("type"@, JsonView::Str("array"@)), ("maxItems"@, JsonView::Num(0))],
    ));
}

/// The rendered fields of multiset-equal property lists are multiset-equal.
proof fn lemma_rendered_fields_multiset(
    p1: Seq<(Seq<char>, SchemaTypeView)>,
    p2: Seq<(Seq<char>, SchemaTypeView)>,
    required: Seq<Seq<char>>,
)
    requires
        p1.to_multiset() == p2.to_multiset(),
    ensures
        rendered_fields(p1, required).to_multiset() == rendered_fields(p2, required).to_multiset(),
    decreases p1.len(),
{
    broadcast use vstd::seq_lib::group_to_multiset_ensures;

    lemma_rendered_fields_index(p1, required);
    lemma_rendered_fields_index(p2, required);
    if p1.len() == 0 {
        assert(p2.to_multiset().len() == 0);
        assert(p2.len() == 0);
        assert(rendered_fields(p1, required).to_multiset() =~= rendered_fields(
            p2,
            required,
        ).to_multiset());
    } else {
        let e = p1.last();
        assert(p1.to_multiset().count(e) > 0) by {
            assert(p1.contains(e));
        }
        assert(p2.contains(e)) by {
            assert(p2.to_multiset().count(e) > 0);
        }
        let j = choose|j: int| 0 <= j < p2.len() && p2[j] == e;
        assert(p1.drop_last().to_multiset() =~= p2.remove(j).to_multiset()) by {
            assert(p1 =~= p1.drop_last().push(e));
            assert(p1.drop_last().push(e).to_multiset() =~= p1.drop_last().to_multiset().insert(
                e,
            ));
            assert(p2.remove(j).to_multiset() =~= p2.to_multiset().remove(p2[j]));
        }
        lemma_rendered_fields_multiset(p1.drop_last(), p2.remove(j), required);
        lemma_rendered_fields_index(p1.drop_last(), required);
        lemma_rendered_fields_index(p2.remove(j), required);
        let r1 = rendered_fields(p1, required);
        let r2 = rendered_fields(p2, required);
        let fe = (e.0, field_line(e.0, e.1, required));
        assert(r1 =~= rendered_fields(p1.drop_last(), required).push(fe));
        assert(r1.to_multiset() =~= rendered_fields(p1.drop_last(), required).to_multiset().insert(
            fe,
        ));
        assert(r2.remove(j) =~= rendered_fields(p2.remove(j), required));
        assert(r2.remove(j).to_multiset() =~= r2.to_multiset().remove(r2[j]));
        assert(r2[j] == fe);
        assert(r2.to_multiset() =~= rendered_fields(p2.remove(j), required).to_multiset().insert(
            fe,
        ));
        assert(r1.to_multiset() =~= r2.to_multiset());
    }
}

/// The interface text of a record does not depend on the order in which
/// its property list was built: two property lists that hold the same
/// multiset of fields render byte-identically.
///
/// Law: interface-text output is identical across set-equal property-map
/// insertion orders.
pub proof fn lemma_record_text_insertion_order(
    p1: Seq<(Seq<char>, SchemaTypeView)>,
    p2: Seq<(Seq<char>, SchemaTypeView)>,
    required: Seq<Seq<char>>,
    name: Option<Seq<char>>,
    desc: Option<Seq<char>>,
)
    requires
        p1.to_multiset() == p2.to_multiset(),
    ensures
        wit_record_text(p1, required, name, desc) == wit_record_text(p2, required, name, desc),
{
    crate::wit::lemma_pair_le_total_ordering();
    lemma_rendered_fields_multiset(p1, p2, required);
    let r1 = rendered_fields(p1, required);
    let r2 = rendered_fields(p2, required);
    r1.lemma_sort_by_ensures(pair_leq_fn());
    r2.lemma_sort_by_ensures(pair_leq_fn());
    assert(r1.sort_by(pair_leq_fn()).to_multiset() =~= r2.sort_by(pair_leq_fn()).to_multiset());
    vstd::seq_lib::lemma_sorted_unique(
        r1.sort_by(pair_leq_fn()),
        r2.sort_by(pair_leq_fn()),
        pair_leq_fn(),
    );
}

/// Looking a key up after an append: the appended entry is found only when
/// no earlier entry carries the key.
proof fn lemma_obj_get_push(
    es: Seq<(Seq<char>, JsonView)>,
    key: Seq<char>,
    v: JsonView,
    k: Seq<char>,
)
    ensures
        obj_get(es.push((key, v)), k) == (match obj_get(es, k) {
            Some(x) => Some(x),
            None => if key == k {
                Some(v)
            } else {
                None
            },
        }),
    decreases es,
{
    if es.len() == 0 {
        assert(es.push((key, v)).first() == (key, v));
        assert(es.push((key, v)).drop_first() =~= Seq::<(Seq<char>, JsonView)>::empty());
    } else {
        assert(es.push((key, v)).first() == es.first()) by {
            assert(es.push((key, v))[0] == es[0]);
            assert(es.first() == es[0]);
        }
        assert(es.push((key, v)).drop_first() =~= es.drop_first().push((key, v)));
        lemma_obj_get_push(es.drop_first(), key, v, k);
    }
}

/// Looking a key up in an object skips entries with other keys.
proof fn lemma_obj_get_skip(es: Seq<(Seq<char>, JsonView)>, k: Seq<char>)
    requires
        forall|i: int| 0 <= i < es.len() ==> (#[trigger] es[i]).0 != k,
    ensures
        obj_get(es, k) is None,
    decreases es,
{
    if es.len() > 0 {
        assert(es.first() == es[0]);
        assert(forall|i: int|
            0 <= i < es.drop_first().len() ==> (#[trigger] es.drop_first()[i]) == es[i + 1]);
        lemma_obj_get_skip(es.drop_first(), k);
    }
}

/// Lookup distributes over upsert with a different key.
proof fn lemma_obj_get_upsert(
    es: Seq<(Seq<char>, JsonView)>,
    uk: Seq<char>,
    uv: JsonView,
    k: Seq<char>,
)
    requires
        uk != k,
    ensures
        obj_get(obj_upsert(es, uk, uv), k) == obj_get(es, k),
    decreases es,
{
    reveal_with_fuel(obj_get, 4);
    if es.len() == 0 {
        assert(obj_upsert(es, uk, uv) == seq![(uk, uv)]);
        assert(seq![(uk, uv)].first() == (uk, uv));
        assert(seq![(uk, uv)].drop_first() =~= Seq::<(Seq<char>, JsonView)>::empty());
        assert(obj_get(obj_upsert(es, uk, uv), k) is None);
        assert(obj_get(es, k) is None);
    } else if es.first().0 == uk {
        assert(obj_upsert(es, uk, uv) == seq![(uk, uv)] + es.drop_first());
        assert((seq![(uk, uv)] + es.drop_first()).first() == (uk, uv));
        assert((seq![(uk, uv)] + es.drop_first()).drop_first() =~= es.drop_first());
        assert(obj_get(obj_upsert(es, uk, uv), k) == obj_get(es.drop_first(), k));
        assert(obj_get(es, k) == obj_get(es.drop_first(), k));
    } else {
        lemma_obj_get_upsert(es.drop_first(), uk, uv, k);
        assert(obj_upsert(es, uk, uv) == seq![es.first()] + obj_upsert(es.drop_first(), uk, uv));
        assert((seq![es.first()] + obj_upsert(es.drop_first(), uk, uv)).first() == es.first());
        assert((seq![es.first()] + obj_upsert(es.drop_first(), uk, uv)).drop_first()
            =~= obj_upsert(es.drop_first(), uk, uv));
        if es.first().0 == k {
            assert(obj_get(obj_upsert(es, uk, uv), k) == Some(es.first().1));
            assert(obj_get(es, k) == Some(es.first().1));
        } else {
            assert(obj_get(obj_upsert(es, uk, uv), k) == obj_get(
                obj_upsert(es.drop_first(), uk, uv),
                k,
            ));
            assert(obj_get(es, k) == obj_get(es.drop_first(), k));
        }
    }
}

/// Distinctness of the fixed keyword literals involved in object lookups.
proof fn proof_strlit_facts()
    ensures
        "description"@ != "properties"@,
        "description"@ != "required"@,
        "type"@ != "properties"@,
        "type"@ != "required"@,
        "properties"@ != "required"@,
{
    reveal_strlit("description");
    reveal_strlit("properties");
    reveal_strlit("required");
    reveal_strlit("type");
    assert("description"@.len() == 11);
    assert("properties"@.len() == 10);
    assert("required"@.len() == 8);
    assert("type"@.len() == 4);
}

/// The projections of a whole object node: the discriminator projection
/// lists the object's fields under `properties` and its required list under
/// `required`; the union projection does the same, leaving `required` out
/// when it is empty.
///
/// Law: for an object with fields F and required subset R, both JSON
/// projectors list exactly F as properties and exactly R as required.
pub proof fn lemma_object_node_exact(s: SchemaTypeView)
    requires
        s.kind is Object,
    ensures
        json_get(disc_of(s), "properties"@) == Some(
            JsonView::Obj(disc_entries(s.kind->Object_properties)),
        ),
        json_get(disc_of(s), "required"@) == Some(
            JsonView::Arr(str_arr(s.kind->Object_required)),
        ),
        json_get(union_of(s), "properties"@) == Some(
            JsonView::Obj(union_entries(s.kind->Object_properties)),
        ),
        s.kind->Object_required.len() > 0 ==> json_get(union_of(s), "required"@) == Some(
            JsonView::Arr(str_arr(s.kind->Object_required)),
        ),
        s.kind->Object_required.len() == 0 ==> json_get(union_of(s), "required"@) is None,
{
    let ps = s.kind->Object_properties;
    let req = s.kind->Object_required;
    proof_strlit_facts();
    reveal_with_fuel(obj_get, 4);
    let base = crate::json::desc_entries(s.description);
    assert(forall|i: int| 0 <= i < base.len() ==> (#[trigger] base[i]).0 == "description"@);
    lemma_obj_get_skip(base, "properties"@);
    lemma_obj_get_skip(base, "required"@);
    let b1 = base.push(("type"@, JsonView::Str("object"@)));
    let b2 = b1.push(("properties"@, JsonView::Obj(disc_entries(ps))));
    let b3 = b2.push(("required"@, JsonView::Arr(str_arr(req))));
    lemma_obj_get_push(base, "type"@, JsonView::Str("object"@), "properties"@);
    lemma_obj_get_push(b1, "properties"@, JsonView::Obj(disc_entries(ps)), "properties"@);
    lemma_obj_get_push(b2, "required"@, JsonView::Arr(str_arr(req)), "properties"@);
    lemma_obj_get_push(base, "type"@, JsonView::Str("object"@), "required"@);
    lemma_obj_get_push(b1, "properties"@, JsonView::Obj(disc_entries(ps)), "required"@);
    lemma_obj_get_push(b2, "required"@, JsonView::Arr(str_arr(req)), "required"@);
    assert(disc_of(s) == JsonView::Obj(b3));
    let ubase = seq![
        ("type"@, JsonView::Str("object"@)),
        ("properties"@, JsonView::Obj(union_entries(ps))),
    ];
    let uentries = crate::openapi::union_kind_entries(s);
    assert(obj_get(ubase, "properties"@) == Some(JsonView::Obj(union_entries(ps)))) by {
        assert(ubase.first() == ("type"@, JsonView::Str("object"@)));
        assert(ubase.drop_first() =~= seq![("properties"@, JsonView::Obj(union_entries(ps)))]);
        assert(ubase.drop_first().first() == ("properties"@, JsonView::Obj(union_entries(ps))));
    }
    assert(forall|i: int| 0 <= i < ubase.len() ==> (#[trigger] ubase[i]).0 != "required"@);
    lemma_obj_get_skip(ubase, "required"@);
    if req.len() == 0 {
        assert(uentries == ubase);
    } else {
        assert(uentries == ubase.push(("required"@, JsonView::Arr(str_arr(req)))));
        lemma_obj_get_push(ubase, "required"@, JsonView::Arr(str_arr(req)), "properties"@);
        lemma_obj_get_push(ubase, "required"@, JsonView::Arr(str_arr(req)), "required"@);
    }
    match s.description {
        Some(d) => {
            lemma_obj_get_upsert(uentries, "description"@, JsonView::Str(d), "properties"@);
            lemma_obj_get_upsert(uentries, "description"@, JsonView::Str(d), "required"@);
        },
        None => {
        },
    }
}

/// The interface-text projection of an object schema does not depend on
/// the order in which its property list was built: two object schemas that
/// differ only in that order project to byte-identical text.
///
/// Law: interface-text output is identical across set-equal property-map
/// insertion orders.
pub proof fn lemma_wit_insertion_order(
    s1: SchemaTypeView,
    s2: SchemaTypeView,
    name: Option<Seq<char>>,
)
    requires
        s1.kind is Object,
        s2.kind is Object,
        s1.kind->Object_properties.to_multiset() == s2.kind->Object_properties.to_multiset(),
        s1.kind->Object_required == s2.kind->Object_required,
        s1.description == s2.description,
    ensures
        wit_of(s1, name) == wit_of(s2, name),
{
    lemma_record_text_insertion_order(
        s1.kind->Object_properties,
        s2.kind->Object_properties,
        s1.kind->Object_required,
        name,
        s1.description,
    );
}

/// No object anywhere in a JSON value carries the given key.
pub open spec fn json_key_free(j: JsonView, k: Seq<char>) -> bool
    decreases j, 1int,
{
    match j {
        JsonView::Obj(es) => entries_key_free(es, k),
        JsonView::Arr(xs) => items_key_free(xs, k),
        _ => true,
    }
}

/// No entry carries the key, and no entry's value holds it inside.
pub open spec fn entries_key_free(es: Seq<(Seq<char>, JsonView)>, k: Seq<char>) -> bool
    decreases es, 0int,
{
    es.len() == 0 || (es.first().0 != k && json_key_free(es.first().1, k) && entries_key_free(
        es.drop_first(),
        k,
    ))
}

/// No element of the array holds the key inside.
pub open spec fn items_key_free(xs: Seq<JsonView>, k: Seq<char>) -> bool
    decreases xs, 0int,
{
    xs.len() == 0 || (json_key_free(xs.first(), k) && items_key_free(xs.drop_first(), k))
}

/// No property name, data-field name or tag field anywhere in the schema is
/// the given text.
pub open spec fn schema_names_free(s: SchemaTypeView, k: Seq<char>) -> bool
    decreases s, 1int,
{
    match s.kind {
        TypeKindView::Object { properties, required } => props_names_free(properties, k),
        TypeKindView::Array { items } => schema_names_free(*items, k),
        TypeKindView::SetOf { items, ordered } => schema_names_free(*items, k),
        TypeKindView::MapOf { key, value, ordered } => schema_names_free(*key, k)
            && schema_names_free(*value, k),
        TypeKindView::TaggedUnion { tag_field, tag_variants, data_fields } => tag_field != k
            && props_names_free(data_fields, k),
        TypeKindView::Variant { cases } => cases_names_free(cases, k),
        TypeKindView::Result { ok, err } => schema_names_free(*ok, k) && schema_names_free(
            *err,
            k,
        ),
        TypeKindView::Tuple { fields } => fields_names_free(fields, k),
        _ => true,
    }
}

/// No property is named `k`, and none holds it deeper inside.
pub open spec fn props_names_free(ps: Seq<(Seq<char>, SchemaTypeView)>, k: Seq<char>) -> bool
    decreases ps, 0int,
{
    ps.len() == 0 || (ps.first().0 != k && schema_names_free(ps.first().1, k)
        && props_names_free(ps.drop_first(), k))
}

/// No element holds the name inside.
pub open spec fn fields_names_free(fs: Seq<SchemaTypeView>, k: Seq<char>) -> bool
    decreases fs, 0int,
{
    fs.len() == 0 || (schema_names_free(fs.first(), k) && fields_names_free(fs.drop_first(), k))
}

/// No case payload holds the name inside.
pub open spec fn cases_names_free(cs: Seq<VariantCaseView>, k: Seq<char>) -> bool
    decreases cs, 0int,
{
    cs.len() == 0 || ((match cs.first().data {
        Some(d) => schema_names_free(d, k),
        None => true,
    }) && cases_names_free(cs.drop_first(), k))
}

/// The key differs from every fixed keyword the discriminator projection
/// writes.
pub open spec fn not_fixed_key(k: Seq<char>) -> bool {
    &&& k != "type"@
    &&& k != "description"@
    &&& k != "properties"@
    &&& k != "required"@
    &&& k != "items"@
    &&& k != "uniqueItems"@
    &&& k != "additionalProperties"@
    &&& k != "enum"@
    &&& k != "prefixItems"@
    &&& k != "minItems"@
    &&& k != "maxItems"@
    &&& k != "ok"@
    &&& k != "error"@
    &&& k != "$ref"@
}

proof fn lemma_entries_key_free_iff(es: Seq<(Seq<char>, JsonView)>, k: Seq<char>)
    ensures
        entries_key_free(es, k) <==> (forall|i: int|
            0 <= i < es.len() ==> (#[trigger] es[i]).0 != k && json_key_free(es[i].1, k)),
    decreases es,
{
    if es.len() > 0 {
        assert(es.first() == es[0]);
        lemma_entries_key_free_iff(es.drop_first(), k);
        if entries_key_free(es, k) {
            assert forall|i: int| 0 <= i < es.len() implies (#[trigger] es[i]).0 != k
                && json_key_free(es[i].1, k) by {
                if i > 0 {
                    assert(es.drop_first()[i - 1] == es[i]);
                }
            }
        }
        if forall|i: int| 0 <= i < es.len() ==> (#[trigger] es[i]).0 != k && json_key_free(
            es[i].1,
            k,
        ) {
            assert forall|i: int| 0 <= i < es.drop_first().len() implies (#[trigger] es.drop_first()[
            i]).0 != k && json_key_free(es.drop_first()[i].1, k) by {
                assert(es.drop_first()[i] == es[i + 1]);
            }
        }
    }
}

proof fn lemma_items_key_free_iff(xs: Seq<JsonView>, k: Seq<char>)
    ensures
        items_key_free(xs, k) <==> (forall|i: int|
            0 <= i < xs.len() ==> json_key_free(#[trigger] xs[i], k)),
    decreases xs,
{
    if xs.len() > 0 {
        assert(xs.first() == xs[0]);
        lemma_items_key_free_iff(xs.drop_first(), k);
        if items_key_free(xs, k) {
            assert forall|i: int| 0 <= i < xs.len() implies json_key_free(
                #[trigger] xs[i],
                k,
            ) by {
                if i > 0 {
                    assert(xs.drop_first()[i - 1] == xs[i]);
                }
            }
        }
        if forall|i: int| 0 <= i < xs.len() ==> json_key_free(#[trigger] xs[i], k) {
            assert forall|i: int| 0 <= i < xs.drop_first().len() implies json_key_free(
                #[trigger] xs.drop_first()[i],
                k,
            ) by {
                assert(xs.drop_first()[i] == xs[i + 1]);
            }
        }
    }
}

proof fn lemma_props_names_free_iff(ps: Seq<(Seq<char>, SchemaTypeView)>, k: Seq<char>)
    ensures
        props_names_free(ps, k) <==> (forall|i: int|
            0 <= i < ps.len() ==> (#[trigger] ps[i]).0 != k && schema_names_free(ps[i].1, k)),
    decreases ps,
{
    if ps.len() > 0 {
        assert(ps.first() == ps[0]);
        lemma_props_names_free_iff(ps.drop_first(), k);
        if props_names_free(ps, k) {
            assert forall|i: int| 0 <= i < ps.len() implies (#[trigger] ps[i]).0 != k
                && schema_names_free(ps[i].1, k) by {
                if i > 0 {
                    assert(ps.drop_first()[i - 1] == ps[i]);
                }
            }
        }
        if forall|i: int| 0 <= i < ps.len() ==> (#[trigger] ps[i]).0 != k && schema_names_free(
            ps[i].1,
            k,
        ) {
            assert forall|i: int| 0 <= i < ps.drop_first().len() implies (#[trigger] ps.drop_first()[
            i]).0 != k && schema_names_free(ps.drop_first()[i].1, k) by {
                assert(ps.drop_first()[i] == ps[i + 1]);
            }
        }
    }
}

proof fn lemma_cases_names_free_iff(cs: Seq<VariantCaseView>, k: Seq<char>)
    ensures
        cases_names_free(cs, k) <==> (forall|i: int|
            0 <= i < cs.len() ==> (match (#[trigger] cs[i]).data {
                Some(d) => schema_names_free(d, k),
                None => true,
            })),
    decreases cs,
{
    if cs.len() > 0 {
        assert(cs.first() == cs[0]);
        lemma_cases_names_free_iff(cs.drop_first(), k);
        if cases_names_free(cs, k) {
            assert forall|i: int| 0 <= i < cs.len() implies (match (#[trigger] cs[i]).data {
                Some(d) => schema_names_free(d, k),
                None => true,
            }) by {
                if i > 0 {
                    assert(cs.drop_first()[i - 1] == cs[i]);
                }
            }
        }
        if forall|i: int| 0 <= i < cs.len() ==> (match (#[trigger] cs[i]).data {
            Some(d) => schema_names_free(d, k),
            None => true,
        }) {
            assert forall|i: int| 0 <= i < cs.drop_first().len() implies (match (
            #[trigger] cs.drop_first()[i]).data {
                Some(d) => schema_names_free(d, k),
                None => true,
            }) by {
                assert(cs.drop_first()[i] == cs[i + 1]);
            }
        }
    }
}

proof fn lemma_fields_names_free_iff(fs: Seq<SchemaTypeView>, k: Seq<char>)
    ensures
        fields_names_free(fs, k) <==> (forall|i: int|
            0 <= i < fs.len() ==> schema_names_free(#[trigger] fs[i], k)),
    decreases fs,
{
    if fs.len() > 0 {
        assert(fs.first() == fs[0]);
        lemma_fields_names_free_iff(fs.drop_first(), k);
        if fields_names_free(fs, k) {
            assert forall|i: int| 0 <= i < fs.len() implies schema_names_free(
                #[trigger] fs[i],
                k,
            ) by {
                if i > 0 {
                    assert(fs.drop_first()[i - 1] == fs[i]);
                }
            }
        }
        if forall|i: int| 0 <= i < fs.len() ==> schema_names_free(#[trigger] fs[i], k) {
            assert forall|i: int| 0 <= i < fs.drop_first().len() implies schema_names_free(
                #[trigger] fs.drop_first()[i],
                k,
            ) by {
                assert(fs.drop_first()[i] == fs[i + 1]);
            }
        }
    }
}

/// An upsert of a clean entry into a clean object leaves it clean.
proof fn lemma_upsert_key_free(
    es: Seq<(Seq<char>, JsonView)>,
    uk: Seq<char>,
    uv: JsonView,
    k: Seq<char>,
)
    requires
        entries_key_free(es, k),
        uk != k,
        json_key_free(uv, k),
    ensures
        entries_key_free(obj_upsert(es, uk, uv), k),
    decreases es,
{
    lemma_entries_key_free_iff(es, k);
    if es.len() == 0 {
        lemma_entries_key_free_iff(obj_upsert(es, uk, uv), k);
        assert(obj_upsert(es, uk, uv) == seq![(uk, uv)]);
    } else if es.first().0 == uk {
        lemma_entries_key_free_iff(seq![(uk, uv)] + es.drop_first(), k);
        lemma_entries_key_free_iff(es.drop_first(), k);
    } else {
        lemma_entries_key_free_iff(es.drop_first(), k);
        lemma_upsert_key_free(es.drop_first(), uk, uv, k);
        lemma_entries_key_free_iff(obj_upsert(es.drop_first(), uk, uv), k);
        lemma_entries_key_free_iff(seq![es.first()] + obj_upsert(es.drop_first(), uk, uv), k);
    }
}

/// Upserting clean entries into a clean object, in order, leaves it clean.
proof fn lemma_upsert_entries_key_free(
    base: Seq<(Seq<char>, JsonView)>,
    entries: Seq<(Seq<char>, JsonView)>,
    k: Seq<char>,
)
    requires
        entries_key_free(base, k),
        entries_key_free(entries, k),
    ensures
        entries_key_free(upsert_entries(base, entries), k),
    decreases entries,
{
    lemma_entries_key_free_iff(entries, k);
    if entries.len() > 0 {
        lemma_entries_key_free_iff(entries.drop_last(), k);
        lemma_upsert_entries_key_free(base, entries.drop_last(), k);
        lemma_upsert_key_free(
            upsert_entries(base, entries.drop_last()),
            entries.last().0,
            entries.last().1,
            k,
        );
    }
}

/// Merging clean entries first-wins into a clean object leaves it clean.
proof fn lemma_merge_first_key_free(
    acc: Seq<(Seq<char>, JsonView)>,
    entries: Seq<(Seq<char>, JsonView)>,
    k: Seq<char>,
)
    requires
        entries_key_free(acc, k),
        entries_key_free(entries, k),
    ensures
        entries_key_free(merge_first(acc, entries), k),
    decreases entries,
{
    if entries.len() > 0 {
        lemma_entries_key_free_iff(entries, k);
        lemma_entries_key_free_iff(entries.drop_first(), k);
        if obj_has_key(acc, entries.first().0) {
            lemma_merge_first_key_free(acc, entries.drop_first(), k);
        } else {
            lemma_entries_key_free_iff(acc, k);
            lemma_entries_key_free_iff(acc.push(entries.first()), k);
            lemma_merge_first_key_free(acc.push(entries.first()), entries.drop_first(), k);
        }
    }
}

/// String arrays hold no objects at all.
proof fn lemma_str_arr_key_free(names: Seq<Seq<char>>, k: Seq<char>)
    ensures
        items_key_free(str_arr(names), k),
{
    lemma_items_key_free_iff(str_arr(names), k);
    assert(forall|i: int|
        0 <= i < str_arr(names).len() ==> json_key_free(#[trigger] str_arr(names)[i], k)) by {
        assert(forall|i: int|
            0 <= i < names.len() ==> #[trigger] str_arr(names)[i] == JsonView::Str(names[i]));
    }
}

/// The discriminator projection of a schema whose names avoid `k` never
/// writes `k` as a key, when `k` is none of the fixed keywords.
#[verifier::rlimit(50)]
proof fn lemma_disc_key_free(s: SchemaTypeView, k: Seq<char>)
    requires
        not_fixed_key(k),
        schema_names_free(s, k),
    ensures
        json_key_free(disc_of(s), k),
    decreases s, 3int,
{
    let base = desc_entries(s.description);
    lemma_entries_key_free_iff(base, k);
    assert(forall|i: int| 0 <= i < base.len() ==> (#[trigger] base[i]).0 == "description"@
        && base[i].1 is Str);
    match s.kind {
        TypeKindView::String => {
            lemma_entries_key_free_iff(base.push(("type"@, JsonView::Str("string"@))), k);
        },
        TypeKindView::Integer(_) => {
            lemma_entries_key_free_iff(base.push(("type"@, JsonView::Str("integer"@))), k);
        },
        TypeKindView::Number(_) => {
            lemma_entries_key_free_iff(base.push(("type"@, JsonView::Str("number"@))), k);
        },
        TypeKindView::Boolean => {
            lemma_entries_key_free_iff(base.push(("type"@, JsonView::Str("boolean"@))), k);
        },
        TypeKindView::Null => {
            lemma_entries_key_free_iff(base.push(("type"@, JsonView::Str("null"@))), k);
        },
        TypeKindView::Object { properties, required } => {
            lemma_disc_entries_key_free(properties, k);
            lemma_str_arr_key_free(required, k);
            lemma_entries_key_free_iff(
                base.push(("type"@, JsonView::Str("object"@))).push(
                    ("properties"@, JsonView::Obj(disc_entries(properties))),
                ).push(("required"@, JsonView::Arr(str_arr(required)))),
                k,
            );
        },
        TypeKindView::Array { items } => {
            lemma_disc_key_free(*items, k);
            lemma_entries_key_free_iff(
                base.push(("type"@, JsonView::Str("array"@))).push(("items"@, disc_of(*items))),
                k,
            );
        },
        TypeKindView::SetOf { items, ordered } => {
            lemma_disc_key_free(*items, k);
            lemma_entries_key_free_iff(
                base.push(("type"@, JsonView::Str("array"@))).push(
                    ("items"@, disc_of(*items)),
                ).push(("uniqueItems"@, JsonView::Bool(true))),
                k,
            );
        },
        TypeKindView::MapOf { key, value, ordered } => {
            lemma_disc_key_free(*key, k);
            lemma_disc_key_free(*value, k);
            if key.kind is String {
                lemma_entries_key_free_iff(
                    base.push(("type"@, JsonView::Str("object"@))).push(
                        ("additionalProperties"@, disc_of(*value)),
                    ),
                    k,
                );
            } else {
                let pre = seq![disc_of(*key), disc_of(*value)];
                lemma_items_key_free_iff(pre, k);
                let tup = seq![
                    ("type"@, JsonView::Str("array"@)),
                    ("prefixItems"@, JsonView::Arr(pre)),
                    ("minItems"@, JsonView::Num(2)),
                    ("maxItems"@, JsonView::Num(2)),
                ];
                lemma_entries_key_free_iff(tup, k);
                lemma_entries_key_free_iff(
                    base.push(("type"@, JsonView::Str("array"@))).push(
                        ("items"@, JsonView::Obj(tup)),
                    ),
                    k,
                );
            }
        },
        TypeKindView::Enum { variants } => {
            lemma_str_arr_key_free(variants, k);
            lemma_entries_key_free_iff(
                base.push(("type"@, JsonView::Str("string"@))).push(
                    ("enum"@, JsonView::Arr(str_arr(variants))),
                ),
                k,
            );
        },
        TypeKindView::TaggedUnion { tag_field, tag_variants, data_fields } => {
            lemma_disc_entries_key_free(data_fields, k);
            lemma_tag_enum_key_free(tag_variants, k);
            lemma_entries_key_free_iff(seq![(tag_field, tag_enum_json(tag_variants))], k);
            lemma_upsert_entries_key_free(
                seq![(tag_field, tag_enum_json(tag_variants))],
                disc_entries(data_fields),
                k,
            );
            let props = upsert_entries(
                seq![(tag_field, tag_enum_json(tag_variants))],
                disc_entries(data_fields),
            );
            lemma_items_key_free_iff(seq![JsonView::Str(tag_field)], k);
            lemma_entries_key_free_iff(
                base.push(("type"@, JsonView::Str("object"@))).push(
                    ("properties"@, JsonView::Obj(props)),
                ).push(("required"@, JsonView::Arr(seq![JsonView::Str(tag_field)]))),
                k,
            );
        },
        TypeKindView::Variant { cases } => {
            lemma_disc_cases_key_free(cases, k);
            lemma_tag_enum_key_free(case_names(cases), k);
            lemma_entries_key_free_iff(Seq::empty(), k);
            lemma_merge_first_key_free(Seq::empty(), disc_case_entries(cases), k);
            lemma_entries_key_free_iff(seq![("type"@, tag_enum_json(case_names(cases)))], k);
            lemma_upsert_entries_key_free(
                seq![("type"@, tag_enum_json(case_names(cases)))],
                merge_first(Seq::empty(), disc_case_entries(cases)),
                k,
            );
            let props = upsert_entries(
                seq![("type"@, tag_enum_json(case_names(cases)))],
                merge_first(Seq::empty(), disc_case_entries(cases)),
            );
            lemma_items_key_free_iff(seq![JsonView::Str("type"@)], k);
            lemma_entries_key_free_iff(
                base.push(("type"@, JsonView::Str("object"@))).push(
                    ("properties"@, JsonView::Obj(props)),
                ).push(("required"@, JsonView::Arr(seq![JsonView::Str("type"@)]))),
                k,
            );
        },
        TypeKindView::Result { ok, err } => {
            lemma_disc_key_free(*ok, k);
            lemma_disc_key_free(*err, k);
            let props = seq![("ok"@, disc_of(*ok)), ("error"@, disc_of(*err))];
            lemma_entries_key_free_iff(props, k);
            let before = base.push(("type"@, JsonView::Str("object"@))).push(
                ("properties"@, JsonView::Obj(props)),
            );
            lemma_entries_key_free_iff(before, k);
            lemma_upsert_key_free(before, "description"@, JsonView::Str(result_note()), k);
        },
        TypeKindView::Tuple { fields } => {
            if fields.len() == 0 {
                lemma_entries_key_free_iff(
                    base.push(("type"@, JsonView::Str("array"@))).push(
                        ("maxItems"@, JsonView::Num(0)),
                    ),
                    k,
                );
            } else {
                lemma_disc_arr_key_free(fields, k);
                lemma_entries_key_free_iff(
                    base.push(("type"@, JsonView::Str("array"@))).push(
                        ("prefixItems"@, JsonView::Arr(disc_arr(fields))),
                    ).push(("minItems"@, JsonView::Num(fields.len()))).push(
                        ("maxItems"@, JsonView::Num(fields.len())),
                    ),
                    k,
                );
            }
        },
        TypeKindView::Ref { name } => {
            lemma_entries_key_free_iff(
                seq![("$ref"@, JsonView::Str("#/definitions/"@ + name))],
                k,
            );
        },
    }
}

/// A discriminator property's schema is clean for any non-fixed key.
proof fn lemma_tag_enum_key_free(variants: Seq<Seq<char>>, k: Seq<char>)
    requires
        not_fixed_key(k),
    ensures
        entries_key_free(
            seq![
                ("type"@, JsonView::Str("string"@)),
                ("enum"@, JsonView::Arr(str_arr(variants))),
            ],
            k,
        ),
        json_key_free(tag_enum_json(variants), k),
{
    lemma_str_arr_key_free(variants, k);
    lemma_entries_key_free_iff(
        seq![
            ("type"@, JsonView::Str("string"@)),
            ("enum"@, JsonView::Arr(str_arr(variants))),
        ],
        k,
    );
}

proof fn lemma_disc_entries_key_free(ps: Seq<(Seq<char>, SchemaTypeView)>, k: Seq<char>)
    requires
        not_fixed_key(k),
        props_names_free(ps, k),
    ensures
        entries_key_free(disc_entries(ps), k),
    decreases ps, 2int,
{
    lemma_props_names_free_iff(ps, k);
    if ps.len() > 0 {
        lemma_props_names_free_iff(ps.drop_last(), k);
        lemma_disc_entries_key_free(ps.drop_last(), k);
        lemma_disc_key_free(ps.last().1, k);
        lemma_entries_key_free_iff(disc_entries(ps.drop_last()), k);
        lemma_entries_key_free_iff(disc_entries(ps), k);
        assert(disc_entries(ps) == disc_entries(ps.drop_last()).push(
            (ps.last().0, disc_of(ps.last().1)),
        ));
    }
}

proof fn lemma_disc_arr_key_free(fs: Seq<SchemaTypeView>, k: Seq<char>)
    requires
        not_fixed_key(k),
        fields_names_free(fs, k),
    ensures
        items_key_free(disc_arr(fs), k),
    decreases fs, 2int,
{
    lemma_fields_names_free_iff(fs, k);
    if fs.len() > 0 {
        lemma_fields_names_free_iff(fs.drop_last(), k);
        lemma_disc_arr_key_free(fs.drop_last(), k);
        lemma_disc_key_free(fs.last(), k);
        lemma_items_key_free_iff(disc_arr(fs.drop_last()), k);
        lemma_items_key_free_iff(disc_arr(fs), k);
        assert(disc_arr(fs) == disc_arr(fs.drop_last()).push(disc_of(fs.last())));
    }
}

proof fn lemma_disc_cases_key_free(cs: Seq<VariantCaseView>, k: Seq<char>)
    requires
        not_fixed_key(k),
        cases_names_free(cs, k),
    ensures
        entries_key_free(disc_case_entries(cs), k),
    decreases cs, 2int,
{
    lemma_cases_names_free_iff(cs, k);
    if cs.len() > 0 {
        lemma_cases_names_free_iff(cs.drop_last(), k);
        lemma_disc_cases_key_free(cs.drop_last(), k);
        let c = cs.last();
        lemma_entries_key_free_iff(disc_case_entries(cs.drop_last()), k);
        lemma_entries_key_free_iff(disc_case_fields(c), k);
        match c.data {
            Some(d) => {
                match d.kind {
                    TypeKindView::Object { properties, required } => {
                        lemma_props_names_free_iff(properties, k);
                        lemma_disc_entries_key_free(properties, k);
                        lemma_entries_key_free_iff(disc_entries(properties), k);
                    },
                    _ => {
                    },
                }
            },
            None => {
            },
        }
        lemma_entries_key_free_iff(disc_case_entries(cs), k);
        assert(disc_case_entries(cs) == disc_case_entries(cs.drop_last()) + disc_case_fields(c));
        assert(forall|i: int|
            0 <= i < disc_case_entries(cs).len() ==> #[trigger] disc_case_entries(cs)[i] == (
            if i < disc_case_entries(cs.drop_last()).len() {
                disc_case_entries(cs.drop_last())[i]
            } else {
                disc_case_fields(c)[i - disc_case_entries(cs.drop_last()).len()]
            }));
    }
}

/// The text `oneOf` is not one of the fixed keywords.
proof fn lemma_oneof_not_fixed()
    ensures
        not_fixed_key("oneOf"@),
{
    reveal_strlit("oneOf");
    reveal_strlit("type");
    reveal_strlit("description");
    reveal_strlit("properties");
    reveal_strlit("required");
    reveal_strlit("items");
    reveal_strlit("uniqueItems");
    reveal_strlit("additionalProperties");
    reveal_strlit("enum");
    reveal_strlit("prefixItems");
    reveal_strlit("minItems");
    reveal_strlit("maxItems");
    reveal_strlit("ok");
    reveal_strlit("error");
    reveal_strlit("$ref");
    assert("oneOf"@.len() == 5);
    assert("items"@[0] == 'i' && "oneOf"@[0] == 'o');
    assert("error"@[0] == 'e');
}

/// The discriminator projection never contains a `oneOf` key, for any
/// schema, including tagged-union and variant schemas, whose own names do
/// not use that text.
///
/// Law: the discriminator target forbids `oneOf`, and the projector never
/// writes one; only a schema whose own property names or tag field spell
/// that text could put one in the output.
pub proof fn lemma_no_oneof_in_discriminator(s: SchemaTypeView)
    requires
        schema_names_free(s, "oneOf"@),
    ensures
        json_key_free(disc_of(s), "oneOf"@),
{
    lemma_oneof_not_fixed();
    lemma_disc_key_free(s, "oneOf"@);
}

} // verus!
