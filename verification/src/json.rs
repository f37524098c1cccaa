//! A small JSON value tree that the two JSON projectors build, together with
//! its mathematical view. Objects keep their entries in insertion order and
//! a JSON object never holds two entries with the same key.

use vstd::prelude::*;

verus! {

/// A JSON value as produced by the JSON projectors: no floating point and no
/// null value is ever emitted, so numbers are unsigned integers.
#[derive(Debug, PartialEq)]
pub enum JsonValue {
    Bool(bool),
    Num(u64),
    Str(String),
    Arr(Vec<JsonValue>),
    Obj(Vec<(String, JsonValue)>),
}

/// Mathematical view of a [`JsonValue`].
pub enum JsonView {
    Bool(bool),
    Num(nat),
    Str(Seq<char>),
    Arr(Seq<JsonView>),
    Obj(Seq<(Seq<char>, JsonView)>),
}

pub open spec fn json_view(j: JsonValue) -> JsonView
    decreases j,
{
    match j {
        JsonValue::Bool(b) => JsonView::Bool(b),
        JsonValue::Num(n) => JsonView::Num(n as nat),
        JsonValue::Str(s) => JsonView::Str(s@),
        JsonValue::Arr(items) => JsonView::Arr(jarr_view(items@)),
        JsonValue::Obj(entries) => JsonView::Obj(jobj_view(entries@)),
    }
}

pub open spec fn jarr_view(items: Seq<JsonValue>) -> Seq<JsonView>
    decreases items,
{
    if items.len() == 0 {
        Seq::empty()
    } else {
        jarr_view(items.drop_last()).push(json_view(items.last()))
    }
}

pub open spec fn jobj_view(entries: Seq<(String, JsonValue)>) -> Seq<(Seq<char>, JsonView)>
    decreases entries,
{
    if entries.len() == 0 {
        Seq::empty()
    } else {
        jobj_view(entries.drop_last()).push((entries.last().0@, json_view(entries.last().1)))
    }
}

impl DeepView for JsonValue {
    type V = JsonView;

    open spec fn deep_view(&self) -> JsonView {
        json_view(*self)
    }
}

pub broadcast proof fn lemma_jarr_view(items: Seq<JsonValue>)
    ensures
        #[trigger] jarr_view(items).len() == items.len(),
        forall|i: int| 0 <= i < items.len() ==> jarr_view(items)[i] == json_view(items[i]),
    decreases items,
{
    if items.len() > 0 {
        lemma_jarr_view(items.drop_last());
    }
}

pub broadcast proof fn lemma_jobj_view(entries: Seq<(String, JsonValue)>)
    ensures
        #[trigger] jobj_view(entries).len() == entries.len(),
        forall|i: int|
            0 <= i < entries.len() ==> jobj_view(entries)[i] == (
            entries[i].0@,
            json_view(entries[i].1),
            ),
    decreases entries,
{
    if entries.len() > 0 {
        lemma_jobj_view(entries.drop_last());
    }
}

/// Whether some entry of a JSON object carries the given key.
pub open spec fn obj_has_key(entries: Seq<(Seq<char>, JsonView)>, key: Seq<char>) -> bool {
    exists|i: int| 0 <= i < entries.len() && entries[i].0 == key
}

/// The value at the first entry with the given key, if any.
pub open spec fn obj_get(entries: Seq<(Seq<char>, JsonView)>, key: Seq<char>) -> Option<JsonView>
    decreases entries,
{
    if entries.len() == 0 {
        None
    } else if entries.first().0 == key {
        Some(entries.first().1)
    } else {
        obj_get(entries.drop_first(), key)
    }
}

/// Lookup on a JSON value: the value under `key` when `j` is an object that
/// carries it, `None` otherwise.
pub open spec fn json_get(j: JsonView, key: Seq<char>) -> Option<JsonView> {
    match j {
        JsonView::Obj(entries) => obj_get(entries, key),
        _ => None,
    }
}

/// Insert-or-replace on a JSON object, as a map insert: when the key is
/// already present the first entry with that key takes the new value and
/// keeps its place; otherwise the entry is appended.
pub open spec fn obj_upsert(
    entries: Seq<(Seq<char>, JsonView)>,
    key: Seq<char>,
    value: JsonView,
) -> Seq<(Seq<char>, JsonView)>
    decreases entries,
{
    if entries.len() == 0 {
        seq![(key, value)]
    } else if entries.first().0 == key {
        seq![(key, value)] + entries.drop_first()
    } else {
        seq![entries.first()] + obj_upsert(entries.drop_first(), key, value)
    }
}

/// When the key is fresh, an upsert is a plain append.
pub proof fn lemma_obj_upsert_fresh(
    entries: Seq<(Seq<char>, JsonView)>,
    key: Seq<char>,
    value: JsonView,
)
    requires
        !obj_has_key(entries, key),
    ensures
        obj_upsert(entries, key, value) == entries.push((key, value)),
    decreases entries,
{
    if entries.len() == 0 {
        assert(obj_upsert(entries, key, value) =~= entries.push((key, value)));
    } else {
        assert(entries.first() == entries[0]);
        assert(forall|i: int|
            0 <= i < entries.drop_first().len() ==> entries.drop_first()[i] == entries[i + 1]);
        lemma_obj_upsert_fresh(entries.drop_first(), key, value);
        assert(obj_upsert(entries, key, value) =~= entries.push((key, value)));
    }
}

/// A sequence of names as a sequence of JSON strings.
pub open spec fn str_arr(names: Seq<Seq<char>>) -> Seq<JsonView> {
    names.map_values(|n: Seq<char>| JsonView::Str(n))
}

/// The entries a description contributes to a JSON object: one entry when a
/// description is present, none otherwise.
pub open spec fn desc_entries(d: Option<Seq<char>>) -> Seq<(Seq<char>, JsonView)> {
    match d {
        Some(t) => seq![("description"@, JsonView::Str(t))],
        None => Seq::empty(),
    }
}

/// Insert-or-replace each entry into `base`, in order.
pub open spec fn upsert_entries(
    base: Seq<(Seq<char>, JsonView)>,
    entries: Seq<(Seq<char>, JsonView)>,
) -> Seq<(Seq<char>, JsonView)>
    decreases entries,
{
    if entries.len() == 0 {
        base
    } else {
        obj_upsert(
            upsert_entries(base, entries.drop_last()),
            entries.last().0,
            entries.last().1,
        )
    }
}

/// Merge entries into `acc` in order, keeping the first entry seen for each
/// key and dropping the rest.
pub open spec fn merge_first(
    acc: Seq<(Seq<char>, JsonView)>,
    entries: Seq<(Seq<char>, JsonView)>,
) -> Seq<(Seq<char>, JsonView)>
    decreases entries,
{
    if entries.len() == 0 {
        acc
    } else if obj_has_key(acc, entries.first().0) {
        merge_first(acc, entries.drop_first())
    } else {
        merge_first(acc.push(entries.first()), entries.drop_first())
    }
}

/// Equality of two string slices, decided character by character.
pub fn str_eq(a: &str, b: &str) -> (r: bool)
    ensures
        r == (a@ == b@),
{
    let alen = a.unicode_len();
    let blen = b.unicode_len();
    if alen != blen {
        assert(a@ != b@) by {
            assert(a@.len() != b@.len());
        }
        return false;
    }
    let mut i: usize = 0;
    while i < alen
        invariant
            i <= alen,
            alen == a@.len(),
            alen == b@.len(),
            forall|k: int| 0 <= k < i ==> a@[k] == b@[k],
        decreases alen - i,
    {
        if a.get_char(i) != b.get_char(i) {
            return false;
        }
        i = i + 1;
    }
    proof {
        assert(a@ =~= b@);
    }
    true
}

impl JsonValue {
    /// The value under `key` when this is an object that carries it.
    pub fn get<'a>(&'a self, key: &str) -> (r: Option<&'a JsonValue>)
        ensures
            (match r {
                Some(v) => Some(v.deep_view()),
                None => None::<JsonView>,
            }) == json_get(self.deep_view(), key@),
    {
        match self {
            JsonValue::Obj(entries) => {
                proof {
                    lemma_jobj_view(entries@);
                    assert(jobj_view(entries@).skip(0) =~= jobj_view(entries@));
                }
                let n = entries.len();
                let mut i: usize = 0;
                while i < n
                    invariant
                        i <= n,
                        n == entries@.len(),
                        self.deep_view() == JsonView::Obj(jobj_view(entries@)),
                        jobj_view(entries@).len() == entries@.len(),
                        forall|k: int|
                            0 <= k < entries@.len() ==> jobj_view(entries@)[k] == (
                            entries@[k].0@,
                            json_view(entries@[k].1),
                            ),
                        obj_get(jobj_view(entries@), key@) == obj_get(
                            jobj_view(entries@).skip(i as int),
                            key@,
                        ),
                        forall|k: int| 0 <= k < i ==> entries@[k].0@ != key@,
                    decreases n - i,
                {
                    proof {
                        assert(jobj_view(entries@).skip(i as int).first() == jobj_view(entries@)[
                        i as int]);
                    }
                    if str_eq(entries[i].0.as_str(), key) {
                        proof {
                            assert(jobj_view(entries@).skip(i as int).len() > 0);
                            assert(obj_get(jobj_view(entries@).skip(i as int), key@) == Some(
                                json_view(entries@[i as int].1),
                            ));
                        }
                        let v = &entries[i].1;
                        proof {
                            assert(obj_get(jobj_view(entries@), key@) == Some(json_view(
                                entries@[i as int].1,
                            )));
                            assert(v.deep_view() == json_view(entries@[i as int].1));
                            assert(self.deep_view() == JsonView::Obj(jobj_view(entries@)));
                            assert(json_get(self.deep_view(), key@) == obj_get(
                                jobj_view(entries@),
                                key@,
                            ));
                        }
                        return Some(v);
                    }
                    proof {
                        assert(jobj_view(entries@).skip(i as int).drop_first() =~= jobj_view(
                            entries@,
                        ).skip(i as int + 1));
                    }
                    i = i + 1;
                }
                proof {
                    assert(jobj_view(entries@).skip(n as int) =~= Seq::empty());
                }
                None
            },
            _ => None,
        }
    }

    /// The borrowed string when this is a string value.
    pub fn as_str<'a>(&'a self) -> (r: Option<&'a String>)
        ensures
            (match r {
                Some(s) => self.deep_view() == JsonView::Str(s@),
                None => !(self.deep_view() is Str),
            }),
    {
        match self {
            JsonValue::Str(s) => Some(s),
            _ => None,
        }
    }

    /// The borrowed items when this is an array value.
    pub fn as_array<'a>(&'a self) -> (r: Option<&'a Vec<JsonValue>>)
        ensures
            (match r {
                Some(items) => self.deep_view() == JsonView::Arr(items.deep_view()),
                None => !(self.deep_view() is Arr),
            }),
    {
        match self {
            JsonValue::Arr(items) => {
                proof {
                    lemma_jarr_view(items@);
                    assert(jarr_view(items@) =~= items.deep_view());
                }
                Some(items)
            },
            _ => None,
        }
    }
}

/// Append an entry to a JSON object under construction.
pub fn obj_push(entries: &mut Vec<(String, JsonValue)>, key: &str, value: JsonValue)
    ensures
        jobj_view(final(entries)@) == jobj_view(old(entries)@).push((key@, value.deep_view())),
{
    let owned: String = key.to_owned();
    entries.push((owned, value));
    proof {
        assert(entries@.drop_last() =~= old(entries)@);
    }
}

/// Append a value to a JSON array under construction.
pub fn arr_push(items: &mut Vec<JsonValue>, value: JsonValue)
    ensures
        jarr_view(final(items)@) == jarr_view(old(items)@).push(value.deep_view()),
{
    items.push(value);
    proof {
        assert(items@.drop_last() =~= old(items)@);
    }
}

/// Insert-or-replace an entry of a JSON object under construction, with the
/// semantics of [`obj_upsert`].
pub fn obj_set(entries: &mut Vec<(String, JsonValue)>, key: &str, value: JsonValue)
    ensures
        jobj_view(final(entries)@) == obj_upsert(jobj_view(old(entries)@), key@, value.deep_view()),
{
    proof {
        lemma_jobj_view(entries@);
    }
    let n = entries.len();
    let mut i: usize = 0;
    while i < n
        invariant
            i <= n,
            n == entries@.len(),
            entries@ == old(entries)@,
            jobj_view(entries@).len() == entries@.len(),
            forall|k: int|
                0 <= k < entries@.len() ==> jobj_view(entries@)[k] == (
                entries@[k].0@,
                json_view(entries@[k].1),
                ),
            forall|k: int| 0 <= k < i ==> entries@[k].0@ != key@,
        decreases n - i,
    {
        if str_eq(entries[i].0.as_str(), key) {
            let owned: String = key.to_owned();
            entries.set(i, (owned, value));
            proof {
                lemma_jobj_view(entries@);
                lemma_obj_upsert_prefix(jobj_view(old(entries)@), key@, i as int);
                assert(jobj_view(entries@) =~= obj_upsert(
                    jobj_view(old(entries)@),
                    key@,
                    json_view(value),
                ));
            }
            return ;
        }
        i = i + 1;
    }
    let owned: String = key.to_owned();
    entries.push((owned, value));
    proof {
        assert(entries@.drop_last() =~= old(entries)@);
        assert(forall|k: int|
            0 <= k < old(entries)@.len() ==> jobj_view(old(entries)@)[k].0 == old(entries)@[k].0@);
        lemma_obj_upsert_fresh(jobj_view(old(entries)@), key@, json_view(value));
    }
}

/// The view of a concatenation of entry lists is the concatenation of the
/// views.
pub proof fn lemma_jobj_view_concat(a: Seq<(String, JsonValue)>, b: Seq<(String, JsonValue)>)
    ensures
        jobj_view(a + b) == jobj_view(a) + jobj_view(b),
{
    lemma_jobj_view(a);
    lemma_jobj_view(b);
    lemma_jobj_view(a + b);
    assert(jobj_view(a + b) =~= jobj_view(a) + jobj_view(b));
}

/// Whether some entry of a JSON object under construction carries the key.
pub fn obj_contains_key(entries: &Vec<(String, JsonValue)>, key: &str) -> (r: bool)
    ensures
        r == obj_has_key(jobj_view(entries@), key@),
{
    proof {
        lemma_jobj_view(entries@);
    }
    let n = entries.len();
    let mut i: usize = 0;
    while i < n
        invariant
            i <= n,
            n == entries@.len(),
            jobj_view(entries@).len() == entries@.len(),
            forall|k: int|
                0 <= k < entries@.len() ==> jobj_view(entries@)[k] == (
                entries@[k].0@,
                json_view(entries@[k].1),
                ),
            forall|k: int| 0 <= k < i ==> entries@[k].0@ != key@,
        decreases n - i,
    {
        if str_eq(entries[i].0.as_str(), key) {
            proof {
                assert(jobj_view(entries@)[i as int].0 == key@);
            }
            return true;
        }
        i = i + 1;
    }
    proof {
        assert forall|k: int| 0 <= k < jobj_view(entries@).len() implies jobj_view(entries@)[k].0
            != key@ by {
            assert(jobj_view(entries@)[k] == (entries@[k].0@, json_view(entries@[k].1)));
        }
    }
    false
}

/// Build a JSON array of strings from a list of names.
pub fn str_array(names: &Vec<String>) -> (r: JsonValue)
    ensures
        r.deep_view() == JsonView::Arr(str_arr(names.deep_view())),
{
    let mut items: Vec<JsonValue> = Vec::new();
    let n = names.len();
    let mut i: usize = 0;
    while i < n
        invariant
            i <= n,
            n == names@.len(),
            jarr_view(items@) == str_arr(names.deep_view().take(i as int)),
        decreases n - i,
    {
        let ghost prev = items@;
        items.push(JsonValue::Str(names[i].clone()));
        proof {
            assert(items@.drop_last() =~= prev);
            assert(str_arr(names.deep_view().take(i as int + 1)) =~= str_arr(
                names.deep_view().take(i as int),
            ).push(JsonView::Str(names@[i as int]@)));
            assert(items@.len() > 0);
            assert(jarr_view(items@) == jarr_view(items@.drop_last()).push(json_view(
                items@.last(),
            )));
            assert(jarr_view(items@.drop_last()) == jarr_view(prev));
            assert(json_view(items@.last()) == JsonView::Str(names@[i as int]@));
            assert(jarr_view(items@) =~= str_arr(names.deep_view().take(i as int + 1)));
        }
        i = i + 1;
    }
    proof {
        assert(names.deep_view().take(n as int) =~= names.deep_view());
    }
    JsonValue::Arr(items)
}

/// Insert-or-replace each of `entries` into the object under construction,
/// in order, with the semantics of [`upsert_entries`].
pub fn obj_set_all(props: &mut Vec<(String, JsonValue)>, entries: Vec<(String, JsonValue)>)
    ensures
        jobj_view(final(props)@) == upsert_entries(jobj_view(old(props)@), jobj_view(entries@)),
{
    let ghost orig = jobj_view(entries@);
    let mut rest = entries;
    let ghost mut i: int = 0;
    proof {
        lemma_jobj_view(entries@);
        assert(orig.take(0) =~= Seq::empty());
    }
    while rest.len() > 0
        invariant
            0 <= i <= orig.len(),
            jobj_view(rest@) =~= orig.skip(i),
            rest@.len() == orig.len() - i,
            jobj_view(props@) == upsert_entries(jobj_view(old(props)@), orig.take(i)),
        decreases rest@.len(),
    {
        let ghost prev = rest@;
        proof {
            lemma_jobj_view(prev);
        }
        let e = rest.remove(0);
        proof {
            lemma_jobj_view(rest@);
            assert(rest@ =~= prev.drop_first());
            assert(jobj_view(rest@) =~= jobj_view(prev).drop_first());
        }
        let (k, v) = e;
        proof {
            assert(orig.skip(i).first() == orig[i]);
            assert((k@, json_view(v)) == orig[i]);
        }
        obj_set(props, k.as_str(), v);
        proof {
            assert(orig.take(i + 1).drop_last() =~= orig.take(i));
            assert(orig.take(i + 1).last() == orig[i]);
            i = i + 1;
            assert(jobj_view(rest@) =~= orig.skip(i));
        }
    }
    proof {
        assert(orig.take(i) =~= orig);
    }
}

/// Merge each of `entries` into the object under construction, keeping the
/// first entry seen for each key, with the semantics of [`merge_first`].
pub fn obj_merge_all(acc: &mut Vec<(String, JsonValue)>, entries: Vec<(String, JsonValue)>)
    ensures
        jobj_view(final(acc)@) == merge_first(jobj_view(old(acc)@), jobj_view(entries@)),
{
    let ghost orig = jobj_view(entries@);
    let mut rest = entries;
    let ghost mut i: int = 0;
    proof {
        lemma_jobj_view(entries@);
    }
    while rest.len() > 0
        invariant
            0 <= i <= orig.len(),
            jobj_view(rest@) =~= orig.skip(i),
            rest@.len() == orig.len() - i,
            merge_first(jobj_view(old(acc)@), orig) == merge_first(jobj_view(acc@), orig.skip(i)),
        decreases rest@.len(),
    {
        let ghost prev = rest@;
        proof {
            lemma_jobj_view(prev);
        }
        let e = rest.remove(0);
        proof {
            lemma_jobj_view(rest@);
            assert(rest@ =~= prev.drop_first());
            assert(jobj_view(rest@) =~= jobj_view(prev).drop_first());
            assert(orig.skip(i).first() == orig[i]);
            assert((e.0@, json_view(e.1)) == orig[i]);
        }
        let present = obj_contains_key(acc, e.0.as_str());
        if !present {
            let ghost acc_prev = acc@;
            let ghost before = jobj_view(acc@);
            acc.push(e);
            proof {
                assert(acc@.drop_last() =~= acc_prev);
                assert(jobj_view(acc@) =~= before.push(orig[i]));
            }
        }
        proof {
            assert(orig.skip(i).drop_first() =~= orig.skip(i + 1));
            i = i + 1;
            assert(jobj_view(rest@) =~= orig.skip(i));
        }
    }
    proof {
        assert(orig.skip(i) =~= Seq::empty());
    }
}

/// Replacing the value at the first entry carrying `key` realizes
/// [`obj_upsert`], when that entry sits at index `i` and no earlier entry
/// carries the key.
proof fn lemma_obj_upsert_prefix(entries: Seq<(Seq<char>, JsonView)>, key: Seq<char>, i: int)
    requires
        0 <= i < entries.len(),
        entries[i].0 == key,
        forall|k: int| 0 <= k < i ==> entries[k].0 != key,
    ensures
        forall|v: JsonView|
            #[trigger] obj_upsert(entries, key, v) == entries.update(i, (key, v)),
    decreases i,
{
    if i == 0 {
        assert forall|v: JsonView| #[trigger]
            obj_upsert(entries, key, v) == entries.update(i, (key, v)) by {
            assert(obj_upsert(entries, key, v) =~= entries.update(i, (key, v)));
        }
    } else {
        lemma_obj_upsert_prefix(entries.drop_first(), key, i - 1);
        assert forall|v: JsonView| #[trigger]
            obj_upsert(entries, key, v) == entries.update(i, (key, v)) by {
            assert(obj_upsert(entries.drop_first(), key, v) == entries.drop_first().update(
                i - 1,
                (key, v),
            ));
            assert(obj_upsert(entries, key, v) =~= entries.update(i, (key, v)));
        }
    }
}

} // verus!
