//! The interface-text projector: renders a schema as a component-interface
//! declaration text (records, enums, tagged variants, tuples, results), with
//! deterministic field ordering independent of how the schema's property
//! list was built.

use vstd::prelude::*;

use crate::ir::case_view;
use crate::ir::cases_view;
use crate::ir::fields_view;
use crate::ir::lemma_cases_view;
use crate::ir::lemma_fields_view;
use crate::ir::lemma_props_view;
use crate::ir::props_view;
use crate::ir::schema_view;
use crate::ir::IntegerKind;
use crate::ir::NumberKind;
use crate::ir::SchemaType;
use crate::ir::SchemaTypeView;
use crate::ir::TypeKind;
use crate::ir::TypeKindView;
use crate::ir::VariantCase;
use crate::ir::VariantCaseView;

verus! {

/// Whether a character counts as uppercase for identifier canonicalization.
pub uninterp spec fn uppercase_char(c: char) -> bool;

/// The first character of a character's lowercase mapping.
pub uninterp spec fn lowercase_first_of(c: char) -> char;

/// Relies on char::is_uppercase: whether the character has the Unicode
/// uppercase property. The result depends on the character alone.
#[verifier::external_body]
fn char_is_uppercase(c: char) -> (r: bool)
    ensures
        r == uppercase_char(c),
{
    c.is_uppercase()
}

/// Relies on char::to_lowercase: the first character of the lowercase
/// mapping, which always yields at least one character. The result depends
/// on the character alone.
#[verifier::external_body]
fn char_lowercase_first(c: char) -> (r: char)
    ensures
        r == lowercase_first_of(c),
{
    c.to_lowercase().next().unwrap()
}

/// Relies on String::push: appends the given character to the end of the
/// string.
#[verifier::external_body]
fn push_char(s: &mut String, c: char)
    ensures
        final(s)@ == old(s)@.push(c),
{
    s.push(c);
}

/// The hyphenated lowercase form of an identifier: a separator before each
/// internal uppercase letter, underscores mapped to separators, and every
/// letter lowercased.
pub open spec fn kebab_of(s: Seq<char>) -> Seq<char>
    decreases s.len(),
{
    if s.len() == 0 {
        Seq::empty()
    } else {
        let rest = kebab_of(s.drop_last());
        let c = s.last();
        if uppercase_char(c) {
            if rest.len() > 0 {
                rest.push('-').push(lowercase_first_of(c))
            } else {
                rest.push(lowercase_first_of(c))
            }
        } else if c == '_' {
            rest.push('-')
        } else {
            rest.push(c)
        }
    }
}

/// Convert snake_case or PascalCase to kebab-case.
pub fn to_kebab_case(s: &str) -> (r: String)
    ensures
        r@ == kebab_of(s@),
{
    let n = s.unicode_len();
    let mut result = String::new();
    let mut i: usize = 0;
    proof {
        assert(s@.take(0) =~= Seq::empty());
    }
    while i < n
        invariant
            i <= n,
            n == s@.len(),
            result@ == kebab_of(s@.take(i as int)),
        decreases n - i,
    {
        let c = s.get_char(i);
        proof {
            assert(s@.take(i as int + 1).drop_last() =~= s@.take(i as int));
            assert(s@.take(i as int + 1).last() == s@[i as int]);
        }
        if char_is_uppercase(c) {
            if i > 0 {
                proof {
                    assert(s@.take(i as int).len() > 0);
                    assert(kebab_of(s@.take(i as int)).len() > 0);
                }
                push_char(&mut result, '-');
            }
            push_char(&mut result, char_lowercase_first(c));
        } else if c == '_' {
            push_char(&mut result, '-');
        } else {
            push_char(&mut result, c);
        }
        i = i + 1;
    }
    proof {
        assert(s@.take(n as int) =~= s@);
    }
    result
}

/// Whether a character is dropped when a documentation line is trimmed.
pub open spec fn doc_space(c: char) -> bool {
    c == ' ' || c == '\t' || c == '\r'
}

/// A line with its trailing whitespace dropped.
pub open spec fn trim_back(t: Seq<char>) -> Seq<char>
    decreases t.len(),
{
    if t.len() == 0 {
        t
    } else if doc_space(t.last()) {
        trim_back(t.drop_last())
    } else {
        t
    }
}

/// A line with its leading whitespace dropped.
pub open spec fn trim_front(t: Seq<char>) -> Seq<char>
    decreases t.len(),
{
    if t.len() == 0 {
        t
    } else if doc_space(t.first()) {
        trim_front(t.drop_first())
    } else {
        t
    }
}

/// A line with leading and trailing whitespace dropped.
pub open spec fn trim_of(t: Seq<char>) -> Seq<char> {
    trim_front(trim_back(t))
}

/// The lines of a text from position `i` on, with `cur` the part of the
/// current line already read: split at each newline, the final line emitted
/// only when it is nonempty.
pub open spec fn split_lines_from(t: Seq<char>, i: int, cur: Seq<char>) -> Seq<Seq<char>>
    decreases t.len() - i,
{
    if i < 0 || i >= t.len() {
        if cur.len() == 0 {
            Seq::empty()
        } else {
            seq![cur]
        }
    } else if t[i] == '\n' {
        seq![cur] + split_lines_from(t, i + 1, Seq::empty())
    } else {
        split_lines_from(t, i + 1, cur.push(t[i]))
    }
}

/// The lines of a text.
pub open spec fn split_lines(t: Seq<char>) -> Seq<Seq<char>> {
    split_lines_from(t, 0, Seq::empty())
}

/// One rendered documentation-comment line.
pub open spec fn doc_line_text(line: Seq<char>, indent: Seq<char>) -> Seq<char> {
    indent + "/// "@ + trim_of(line) + "\n"@
}

/// The rendered documentation-comment lines, in order.
pub open spec fn doc_lines_text(ls: Seq<Seq<char>>, indent: Seq<char>) -> Seq<char>
    decreases ls.len(),
{
    if ls.len() == 0 {
        Seq::empty()
    } else {
        doc_lines_text(ls.drop_last(), indent) + doc_line_text(ls.last(), indent)
    }
}

/// The rendered documentation comment of an optional description: one
/// leading comment line per line of the description, each line trimmed.
pub open spec fn doc_comment(d: Option<Seq<char>>, indent: Seq<char>) -> Seq<char> {
    match d {
        None => Seq::empty(),
        Some(t) => doc_lines_text(split_lines(t), indent),
    }
}

proof fn lemma_doc_lines_text_push(ls: Seq<Seq<char>>, line: Seq<char>, indent: Seq<char>)
    ensures
        doc_lines_text(ls.push(line), indent) == doc_lines_text(ls, indent) + doc_line_text(
            line,
            indent,
        ),
{
    assert(ls.push(line).drop_last() =~= ls);
    assert(ls.push(line).last() == line);
}

/// A copy of the line with leading and trailing whitespace dropped.
fn trim_str(line: &str) -> (r: String)
    ensures
        r@ == trim_of(line@),
{
    let n = line.unicode_len();
    let mut b: usize = n;
    proof {
        assert(line@.take(n as int) =~= line@);
    }
    loop
        invariant_except_break
            b <= n,
            n == line@.len(),
            trim_back(line@) == trim_back(line@.take(b as int)),
        ensures
            b <= n,
            n == line@.len(),
            trim_back(line@) == line@.take(b as int),
        decreases b,
    {
        if b == 0 {
            proof {
                assert(line@.take(0) =~= Seq::<char>::empty());
            }
            break ;
        }
        let c = line.get_char(b - 1);
        proof {
            assert(line@.take(b as int).last() == line@[b as int - 1]);
            assert(line@.take(b as int).drop_last() =~= line@.take(b as int - 1));
        }
        if !(c == ' ' || c == '\t' || c == '\r') {
            proof {
                assert(trim_back(line@.take(b as int)) == line@.take(b as int));
            }
            break ;
        }
        b = b - 1;
    }
    let ghost kept = line@.take(b as int);
    let mut a: usize = 0;
    proof {
        assert(kept.skip(0) =~= kept);
    }
    loop
        invariant_except_break
            a <= b,
            b <= n,
            n == line@.len(),
            kept == line@.take(b as int),
            trim_back(line@) == kept,
            trim_front(kept) == trim_front(kept.skip(a as int)),
        ensures
            a <= b,
            b <= n,
            n == line@.len(),
            kept == line@.take(b as int),
            trim_back(line@) == kept,
            trim_front(kept) == kept.skip(a as int),
        decreases b - a,
    {
        if a == b {
            proof {
                assert(kept.skip(a as int) =~= Seq::<char>::empty());
            }
            break ;
        }
        let c = line.get_char(a);
        proof {
            assert(kept.skip(a as int).first() == line@[a as int]);
            assert(kept.skip(a as int).drop_first() =~= kept.skip(a as int + 1));
        }
        if !(c == ' ' || c == '\t' || c == '\r') {
            proof {
                assert(trim_front(kept.skip(a as int)) == kept.skip(a as int));
            }
            break ;
        }
        a = a + 1;
    }
    proof {
        assert(kept.skip(a as int) =~= line@.subrange(a as int, b as int));
    }
    line.substring_char(a, b).to_owned()
}

/// Append the rendered documentation comment of `text` to the output.
fn push_doc_comment(out: &mut String, text: &str, indent: &str)
    ensures
        final(out)@ == old(out)@ + doc_lines_text(split_lines(text@), indent@),
{
    let n = text.unicode_len();
    let mut cur = String::new();
    let mut i: usize = 0;
    let ghost mut flushed: Seq<Seq<char>> = Seq::empty();
    proof {
        assert(doc_lines_text(flushed, indent@) =~= Seq::empty());
        assert(out@ =~= old(out)@ + doc_lines_text(flushed, indent@));
    }
    while i < n
        invariant
            i <= n,
            n == text@.len(),
            split_lines(text@) == flushed + split_lines_from(text@, i as int, cur@),
            out@ == old(out)@ + doc_lines_text(flushed, indent@),
        decreases n - i,
    {
        let c = text.get_char(i);
        if c == '\n' {
            out.append(indent);
            out.append("/// ");
            let trimmed = trim_str(cur.as_str());
            out.append(trimmed.as_str());
            out.append("\n");
            proof {
                let ghost flushed0 = flushed;
                assert(split_lines_from(text@, i as int, cur@) == seq![cur@]
                    + split_lines_from(text@, i as int + 1, Seq::empty()));
                flushed = flushed0.push(cur@);
                lemma_doc_lines_text_push(flushed0, cur@, indent@);
                assert(split_lines(text@) =~= flushed + split_lines_from(
                    text@,
                    i as int + 1,
                    Seq::empty(),
                ));
                assert(out@ =~= old(out)@ + doc_lines_text(flushed, indent@));
            }
            cur = String::new();
        } else {
            push_char(&mut cur, c);
        }
        i = i + 1;
    }
    if !cur.as_str().is_empty() {
        out.append(indent);
        out.append("/// ");
        let trimmed = trim_str(cur.as_str());
        out.append(trimmed.as_str());
        out.append("\n");
        proof {
            assert(split_lines_from(text@, n as int, cur@) == seq![cur@]);
            lemma_doc_lines_text_push(flushed, cur@, indent@);
            assert(flushed + seq![cur@] =~= flushed.push(cur@));
            assert(out@ =~= old(out)@ + doc_lines_text(split_lines(text@), indent@));
        }
    } else {
        proof {
            assert(split_lines_from(text@, n as int, cur@) == Seq::<Seq<char>>::empty());
            assert(flushed + Seq::<Seq<char>>::empty() =~= flushed);
            assert(out@ =~= old(out)@ + doc_lines_text(split_lines(text@), indent@));
        }
    }
}

/// Lexicographic order on character sequences, by code point.
pub open spec fn seq_char_le(a: Seq<char>, b: Seq<char>) -> bool
    decreases a.len(),
{
    if a.len() == 0 {
        true
    } else if b.len() == 0 {
        false
    } else if a.first() == b.first() {
        seq_char_le(a.drop_first(), b.drop_first())
    } else {
        (a.first() as u32) < (b.first() as u32)
    }
}

/// Order on rendered record fields: by field name, ties broken by the
/// rendered line, so that the order is total.
pub open spec fn pair_le(x: (Seq<char>, Seq<char>), y: (Seq<char>, Seq<char>)) -> bool {
    if x.0 != y.0 {
        seq_char_le(x.0, y.0)
    } else {
        seq_char_le(x.1, y.1)
    }
}

/// The field order as a relation value.
pub open spec fn pair_leq_fn() -> spec_fn((Seq<char>, Seq<char>), (Seq<char>, Seq<char>)) -> bool {
    |x: (Seq<char>, Seq<char>), y: (Seq<char>, Seq<char>)| pair_le(x, y)
}

proof fn lemma_seq_char_le_connected(a: Seq<char>, b: Seq<char>)
    ensures
        seq_char_le(a, b) || seq_char_le(b, a),
        seq_char_le(a, b) && seq_char_le(b, a) ==> a == b,
    decreases a.len(),
{
    if a.len() == 0 {
        if b.len() == 0 && seq_char_le(a, b) && seq_char_le(b, a) {
            assert(a =~= b);
        }
    } else if b.len() == 0 {
    } else if a.first() == b.first() {
        lemma_seq_char_le_connected(a.drop_first(), b.drop_first());
        if seq_char_le(a, b) && seq_char_le(b, a) {
            assert(a.drop_first() == b.drop_first());
            assert(a =~= seq![a.first()] + a.drop_first());
            assert(b =~= seq![b.first()] + b.drop_first());
        }
    } else {
        assert((a.first() as u32) != (b.first() as u32)) by {
            vstd::utf8::char_u32_cast(a.first(), a.first() as u32);
            vstd::utf8::char_u32_cast(b.first(), b.first() as u32);
        }
    }
}

proof fn lemma_seq_char_le_trans(a: Seq<char>, b: Seq<char>, c: Seq<char>)
    requires
        seq_char_le(a, b),
        seq_char_le(b, c),
    ensures
        seq_char_le(a, c),
    decreases a.len(),
{
    if a.len() == 0 {
    } else if b.len() == 0 {
    } else if c.len() == 0 {
    } else {
        if a.first() == b.first() {
            if b.first() == c.first() {
                lemma_seq_char_le_trans(a.drop_first(), b.drop_first(), c.drop_first());
            }
        }
    }
}

/// The field order is a total ordering, so sorting by it has a unique
/// result.
pub proof fn lemma_pair_le_total_ordering()
    ensures
        vstd::relations::total_ordering(pair_leq_fn()),
{
    let leq = pair_leq_fn();
    assert forall|x: (Seq<char>, Seq<char>)| #[trigger] leq(x, x) by {
        lemma_seq_char_le_connected(x.0, x.0);
        lemma_seq_char_le_connected(x.1, x.1);
    }
    assert forall|x: (Seq<char>, Seq<char>), y: (Seq<char>, Seq<char>)|
        #[trigger] leq(x, y) && #[trigger] leq(y, x) implies x == y by {
        lemma_seq_char_le_connected(x.0, y.0);
        lemma_seq_char_le_connected(x.1, y.1);
    }
    assert forall|x: (Seq<char>, Seq<char>), y: (Seq<char>, Seq<char>), z: (
        Seq<char>,
        Seq<char>,
    )| #[trigger] leq(x, y) && #[trigger] leq(y, z) implies leq(x, z) by {
        if x.0 != y.0 {
            if y.0 != z.0 {
                lemma_seq_char_le_trans(x.0, y.0, z.0);
                lemma_seq_char_le_connected(x.0, z.0);
                if x.0 == z.0 {
                    lemma_seq_char_le_connected(x.0, y.0);
                }
            }
        } else {
            if y.0 == z.0 {
                lemma_seq_char_le_trans(x.1, y.1, z.1);
            }
        }
    }
    assert forall|x: (Seq<char>, Seq<char>), y: (Seq<char>, Seq<char>)|
        #[trigger] leq(x, y) || #[trigger] leq(y, x) by {
        lemma_seq_char_le_connected(x.0, y.0);
        lemma_seq_char_le_connected(x.1, y.1);
    }
}

/// Lexicographic comparison of two string slices.
fn str_le(a: &str, b: &str) -> (r: bool)
    ensures
        r == seq_char_le(a@, b@),
{
    let alen = a.unicode_len();
    let blen = b.unicode_len();
    let mut i: usize = 0;
    proof {
        assert(a@.skip(0) =~= a@);
        assert(b@.skip(0) =~= b@);
    }
    loop
        invariant_except_break
            i <= alen,
            i <= blen,
            alen == a@.len(),
            blen == b@.len(),
            seq_char_le(a@, b@) == seq_char_le(a@.skip(i as int), b@.skip(i as int)),
        ensures
            seq_char_le(a@, b@) == (alen <= blen),
        decreases alen - i,
    {
        if i >= alen {
            proof {
                assert(a@.skip(i as int).len() == 0);
            }
            break ;
        }
        if i >= blen {
            proof {
                assert(b@.skip(i as int).len() == 0);
                assert(a@.skip(i as int).len() > 0);
            }
            break ;
        }
        let ca = a.get_char(i);
        let cb = b.get_char(i);
        proof {
            assert(a@.skip(i as int).first() == a@[i as int]);
            assert(b@.skip(i as int).first() == b@[i as int]);
        }
        if ca != cb {
            return (ca as u32) < (cb as u32);
        }
        proof {
            assert(a@.skip(i as int).drop_first() =~= a@.skip(i as int + 1));
            assert(b@.skip(i as int).drop_first() =~= b@.skip(i as int + 1));
        }
        i = i + 1;
    }
    alen <= blen
}

/// Comparison of two rendered record fields by the field order.
fn pair_le_exec(x: &(String, String), y: &(String, String)) -> (r: bool)
    ensures
        r == pair_le((x.0@, x.1@), (y.0@, y.1@)),
{
    if !crate::json::str_eq(x.0.as_str(), y.0.as_str()) {
        str_le(x.0.as_str(), y.0.as_str())
    } else {
        str_le(x.1.as_str(), y.1.as_str())
    }
}

/// Sort rendered record fields by the field order, by insertion.
fn sort_pairs(v: Vec<(String, String)>) -> (r: Vec<(String, String)>)
    ensures
        r.deep_view().to_multiset() == v.deep_view().to_multiset(),
        vstd::relations::sorted_by(r.deep_view(), pair_leq_fn()),
{
    broadcast use vstd::seq_lib::group_to_multiset_ensures;

    proof {
        lemma_pair_le_total_ordering();
    }
    let ghost leq = pair_leq_fn();
    let mut out: Vec<(String, String)> = Vec::new();
    let mut rest = v;
    proof {
        assert(out.deep_view() =~= Seq::<(Seq<char>, Seq<char>)>::empty());
        assert(out.deep_view().to_multiset().add(rest.deep_view().to_multiset())
            =~= rest.deep_view().to_multiset());
    }
    while rest.len() > 0
        invariant
            vstd::relations::total_ordering(leq),
            leq == pair_leq_fn(),
            vstd::relations::sorted_by(out.deep_view(), leq),
            out.deep_view().to_multiset().add(rest.deep_view().to_multiset())
                == v.deep_view().to_multiset(),
        decreases rest@.len(),
    {
        broadcast use vstd::seq_lib::group_to_multiset_ensures;

        let ghost rest0 = rest.deep_view();
        let e = rest.remove(0);
        proof {
            assert(rest.deep_view() =~= rest0.drop_first());
            assert(rest0.remove(0) =~= rest0.drop_first());
            assert(rest0.remove(0).to_multiset() == rest0.to_multiset().remove(rest0[0]));
            assert(e.deep_view() == rest0[0]);
        }
        let n = out.len();
        let mut k: usize = 0;
        loop
            invariant_except_break
                k <= n,
                n == out@.len(),
                out.deep_view().len() == n,
                vstd::relations::total_ordering(leq),
                leq == pair_leq_fn(),
                vstd::relations::sorted_by(out.deep_view(), leq),
                forall|j: int| 0 <= j < k ==> leq(out.deep_view()[j], e.deep_view()),
            ensures
                k <= n,
                n == out@.len(),
                forall|j: int| 0 <= j < k ==> leq(out.deep_view()[j], e.deep_view()),
                forall|j: int| k <= j < n ==> leq(e.deep_view(), out.deep_view()[j]),
            decreases n - k,
        {
            if k >= n {
                break ;
            }
            if !pair_le_exec(&out[k], &e) {
                proof {
                    assert(out.deep_view()[k as int] == (out@[k as int].0@, out@[k as int].1@));
                    assert(e.deep_view() == (e.0@, e.1@));
                    assert(!leq(out.deep_view()[k as int], e.deep_view()));
                    assert(leq(out.deep_view()[k as int], e.deep_view()) || leq(
                        e.deep_view(),
                        out.deep_view()[k as int],
                    ));
                    assert(leq(e.deep_view(), out.deep_view()[k as int]));
                    assert forall|j: int| k <= j < n implies leq(
                        e.deep_view(),
                        out.deep_view()[j],
                    ) by {
                        if j > k {
                            assert(leq(out.deep_view()[k as int], out.deep_view()[j]));
                        }
                    }
                }
                break ;
            }
            proof {
                assert(out.deep_view()[k as int] == (out@[k as int].0@, out@[k as int].1@));
            }
            k = k + 1;
        }
        let ghost out0 = out.deep_view();
        out.insert(k, e);
        proof {
            assert(out.deep_view() =~= out0.insert(k as int, e.deep_view()));
            let inserted = out0.insert(k as int, e.deep_view());
            assert(inserted.remove(k as int) =~= out0);
            assert(inserted.remove(k as int).to_multiset() == inserted.to_multiset().remove(
                inserted[k as int],
            ));
            assert(inserted[k as int] == e.deep_view());
            assert(inserted.to_multiset() =~= out0.to_multiset().insert(e.deep_view()));
            assert forall|p: int, q: int| 0 <= p <= q < inserted.len() implies leq(
                inserted[p],
                inserted[q],
            ) by {
                assert(vstd::relations::total_ordering(leq));
            }
            assert(vstd::relations::sorted_by(out.deep_view(), leq));
            assert(out.deep_view().to_multiset().add(rest.deep_view().to_multiset())
                =~= v.deep_view().to_multiset());
        }
    }
    proof {
        assert(rest.deep_view() =~= Seq::<(Seq<char>, Seq<char>)>::empty());
        assert(out.deep_view().to_multiset().add(rest.deep_view().to_multiset())
            =~= out.deep_view().to_multiset());
    }
    out
}

/// The fixed-width scalar name of each integer kind; the pointer-sized kind
/// widens to the 64-bit unsigned type for portability.
pub open spec fn wit_integer(kind: IntegerKind) -> Seq<char> {
    match kind {
        IntegerKind::I32 => "s32"@,
        IntegerKind::I64 => "s64"@,
        IntegerKind::U8 => "u8"@,
        IntegerKind::U32 => "u32"@,
        IntegerKind::U64 => "u64"@,
        IntegerKind::Usize => "u64"@,
    }
}

/// The scalar name of each floating-point kind.
pub open spec fn wit_number(kind: NumberKind) -> Seq<char> {
    match kind {
        NumberKind::F32 => "f32"@,
        NumberKind::F64 => "f64"@,
    }
}

/// A declaration name, or the fallback used for an anonymous declaration.
pub open spec fn name_or(name: Option<Seq<char>>, fallback: Seq<char>) -> Seq<char> {
    match name {
        Some(n) => n,
        None => fallback,
    }
}

/// A field's type text, wrapped in the option constructor when the field is
/// not required.
pub open spec fn opt_wrap(required: bool, t: Seq<char>) -> Seq<char> {
    if required {
        t
    } else {
        "option<"@ + t + ">"@
    }
}

/// One rendered record field: its documentation comment, its canonicalized
/// name, and its type, optional when absent from the required list.
pub open spec fn field_line(
    name: Seq<char>,
    fs: SchemaTypeView,
    required: Seq<Seq<char>>,
) -> Seq<char>
    decreases fs, 1int,
{
    doc_comment(fs.description, "    "@) + "    "@ + kebab_of(name) + ": "@ + opt_wrap(
        required.contains(name),
        wit_of(fs, None),
    ) + ",\n"@
}

/// Each record field rendered, paired with its raw name, in property order.
pub open spec fn rendered_fields(
    ps: Seq<(Seq<char>, SchemaTypeView)>,
    required: Seq<Seq<char>>,
) -> Seq<(Seq<char>, Seq<char>)>
    decreases ps, 2int,
{
    if ps.len() == 0 {
        Seq::empty()
    } else {
        rendered_fields(ps.drop_last(), required).push(
            (ps.last().0, field_line(ps.last().0, ps.last().1, required)),
        )
    }
}

/// The rendered lines concatenated in the given order.
pub open spec fn concat_lines(rs: Seq<(Seq<char>, Seq<char>)>) -> Seq<char>
    decreases rs.len(),
{
    if rs.len() == 0 {
        Seq::empty()
    } else {
        concat_lines(rs.drop_last()) + rs.last().1
    }
}

/// The body of a record declaration: every field rendered, then emitted
/// sorted by field name, so that the text does not depend on the order in
/// which the property list was built.
pub open spec fn record_body(
    ps: Seq<(Seq<char>, SchemaTypeView)>,
    required: Seq<Seq<char>>,
) -> Seq<char>
    decreases ps, 3int,
{
    concat_lines(rendered_fields(ps, required).sort_by(pair_leq_fn()))
}

/// A record declaration.
pub open spec fn wit_record_text(
    ps: Seq<(Seq<char>, SchemaTypeView)>,
    required: Seq<Seq<char>>,
    name: Option<Seq<char>>,
    desc: Option<Seq<char>>,
) -> Seq<char>
    decreases ps, 4int,
{
    doc_comment(desc, Seq::empty()) + "record "@ + kebab_of(name_or(name, "anonymous-record"@))
        + " {\n"@ + record_body(ps, required) + "}"@
}

/// The lines of an enum declaration, in declaration order.
pub open spec fn enum_lines(variants: Seq<Seq<char>>) -> Seq<char>
    decreases variants.len(),
{
    if variants.len() == 0 {
        Seq::empty()
    } else {
        enum_lines(variants.drop_last()) + "    "@ + kebab_of(variants.last()) + ",\n"@
    }
}

/// An enum declaration; variant order is preserved from the schema.
pub open spec fn wit_enum_text(
    variants: Seq<Seq<char>>,
    name: Option<Seq<char>>,
    desc: Option<Seq<char>>,
) -> Seq<char> {
    doc_comment(desc, Seq::empty()) + "enum "@ + kebab_of(name_or(name, "anonymous-enum"@))
        + " {\n"@ + enum_lines(variants) + "}"@
}

/// The payload part of one variant case: empty for a unit case.
pub open spec fn case_payload(c: VariantCaseView) -> Seq<char>
    decreases c, 1int,
{
    match c.data {
        None => Seq::empty(),
        Some(d) => "("@ + wit_of(d, None) + ")"@,
    }
}

/// One rendered variant case line.
pub open spec fn case_line(c: VariantCaseView) -> Seq<char>
    decreases c, 2int,
{
    doc_comment(c.description, "    "@) + "    "@ + kebab_of(c.name) + case_payload(c) + ",\n"@
}

/// The lines of a variant declaration, in case order.
pub open spec fn variant_lines(cases: Seq<VariantCaseView>) -> Seq<char>
    decreases cases, 1int,
{
    if cases.len() == 0 {
        Seq::empty()
    } else {
        variant_lines(cases.drop_last()) + case_line(cases.last())
    }
}

/// A variant declaration; case order is preserved from the schema.
pub open spec fn wit_variant_text(
    cases: Seq<VariantCaseView>,
    name: Option<Seq<char>>,
    desc: Option<Seq<char>>,
) -> Seq<char>
    decreases cases, 2int,
{
    doc_comment(desc, Seq::empty()) + "variant "@ + kebab_of(name_or(name, "anonymous-variant"@))
        + " {\n"@ + variant_lines(cases) + "}"@
}

/// The element types of a tuple, joined with a separator.
pub open spec fn wit_join(fs: Seq<SchemaTypeView>) -> Seq<char>
    decreases fs, 1int,
{
    if fs.len() == 0 {
        Seq::empty()
    } else if fs.len() == 1 {
        wit_of(fs[0], None)
    } else {
        wit_join(fs.drop_last()) + ", "@ + wit_of(fs.last(), None)
    }
}

/// The interface-text projection of a schema, with an optional name for the
/// top-level declaration; every nested structural type is inlined at its
/// point of use.
pub open spec fn wit_of(s: SchemaTypeView, name: Option<Seq<char>>) -> Seq<char>
    decreases s, 0int,
{
    match s.kind {
        TypeKindView::String => "string"@,
        TypeKindView::Boolean => "bool"@,
        TypeKindView::Null => "unit"@,
        TypeKindView::Integer(k) => wit_integer(k),
        TypeKindView::Number(k) => wit_number(k),
        TypeKindView::Array { items } => "list<"@ + wit_of(*items, None) + ">"@,
        TypeKindView::SetOf { items, ordered } => "list<"@ + wit_of(*items, None) + ">"@,
        TypeKindView::MapOf { key, value, ordered } => "list<tuple<"@ + wit_of(*key, None)
            + ", "@ + wit_of(*value, None) + ">>"@,
        TypeKindView::Object { properties, required } => wit_record_text(
            properties,
            required,
            name,
            s.description,
        ),
        TypeKindView::Enum { variants } => wit_enum_text(variants, name, s.description),
        TypeKindView::Variant { cases } => wit_variant_text(cases, name, s.description),
        TypeKindView::Result { ok, err } => "result<"@ + wit_of(*ok, None) + ", "@ + wit_of(
            *err,
            None,
        ) + ">"@,
        TypeKindView::Tuple { fields } => {
            if fields.len() == 0 {
                "unit"@
            } else {
                "tuple<"@ + wit_join(fields) + ">"@
            }
        },
        TypeKindView::TaggedUnion { tag_field, tag_variants, data_fields } =>
            "/* TaggedUnion not supported - use Variant instead */"@,
        TypeKindView::Ref { name: refname } => kebab_of(refname),
    }
}

/// The scalar type name of an integer kind.
pub fn integer_to_wit(kind: &IntegerKind) -> (r: String)
    ensures
        r@ == wit_integer(*kind),
{
    match kind {
        IntegerKind::I32 => "s32".to_owned(),
        IntegerKind::I64 => "s64".to_owned(),
        IntegerKind::U8 => "u8".to_owned(),
        IntegerKind::U32 => "u32".to_owned(),
        IntegerKind::U64 => "u64".to_owned(),
        IntegerKind::Usize => "u64".to_owned(),
    }
}

/// The scalar type name of a floating-point kind.
pub fn number_to_wit(kind: &NumberKind) -> (r: String)
    ensures
        r@ == wit_number(*kind),
{
    match kind {
        NumberKind::F32 => "f32".to_owned(),
        NumberKind::F64 => "f64".to_owned(),
    }
}

/// The view of an optional borrowed name.
pub open spec fn opt_text(o: Option<&str>) -> Option<Seq<char>> {
    match o {
        Some(s) => Some(s@),
        None => None,
    }
}

/// Whether the list holds the given name.
fn contains_str(v: &Vec<String>, s: &str) -> (r: bool)
    ensures
        r == v.deep_view().contains(s@),
{
    let n = v.len();
    let mut i: usize = 0;
    while i < n
        invariant
            i <= n,
            n == v@.len(),
            forall|k: int| 0 <= k < i ==> v@[k]@ != s@,
        decreases n - i,
    {
        if crate::json::str_eq(v[i].as_str(), s) {
            proof {
                assert(v.deep_view()[i as int] == s@);
            }
            return true;
        }
        i = i + 1;
    }
    proof {
        assert forall|k: int| 0 <= k < v.deep_view().len() implies v.deep_view()[k] != s@ by {
            assert(v.deep_view()[k] == v@[k]@);
        }
    }
    false
}

/// Render a record declaration.
#[verifier::loop_isolation(false)]
#[verifier::rlimit(50)]
pub fn record_to_wit(
    properties: &Vec<(String, SchemaType)>,
    required: &Vec<String>,
    decl_name: Option<&str>,
    description: Option<&str>,
) -> (r: String)
    ensures
        r@ == wit_record_text(
            props_view(properties@),
            required.deep_view(),
            opt_text(decl_name),
            opt_text(description),
        ),
    decreases properties@, 4int,
{
    proof {
        lemma_props_view(properties@);
    }
    let mut out = String::new();
    proof {
        reveal_strlit("");
        assert(""@ =~= Seq::<char>::empty());
    }
    match description {
        Some(d) => push_doc_comment(&mut out, d, ""),
        None => {
        },
    }
    out.append("record ");
    let nm: &str = match decl_name {
        Some(n) => n,
        None => "anonymous-record",
    };
    let kebab = to_kebab_case(nm);
    out.append(kebab.as_str());
    out.append(" {\n");
    proof {
        assert(out@ =~= doc_comment(opt_text(description), Seq::empty()) + "record "@ + kebab_of(
            name_or(opt_text(decl_name), "anonymous-record"@),
        ) + " {\n"@);
    }
    let ghost pv = props_view(properties@);
    let ghost rdv = required.deep_view();
    let mut rendered: Vec<(String, String)> = Vec::new();
    let n = properties.len();
    let mut i: usize = 0;
    proof {
        assert(rendered.deep_view() =~= rendered_fields(pv.take(0), rdv));
    }
    while i < n
        invariant
            i <= n,
            rendered.deep_view() == rendered_fields(pv.take(i as int), rdv),
        decreases n - i,
    {
        let entry = &properties[i];
        let mut line = String::new();
        match &entry.1.description {
            Some(fd) => push_doc_comment(&mut line, fd.as_str(), "    "),
            None => {
            },
        }
        line.append("    ");
        let kn = to_kebab_case(entry.0.as_str());
        line.append(kn.as_str());
        line.append(": ");
        let ty = schema_type_to_wit(&entry.1, None);
        let req = contains_str(required, entry.0.as_str());
        if req {
            line.append(ty.as_str());
        } else {
            line.append("option<");
            line.append(ty.as_str());
            line.append(">");
        }
        line.append(",\n");
        proof {
            assert(schema_view(entry.1).description == (match entry.1.description {
                Some(d) => Some(d@),
                None => None::<Seq<char>>,
            }));
            assert(line@ =~= field_line(pv[i as int].0, pv[i as int].1, rdv));
        }
        let ghost rprev = rendered.deep_view();
        rendered.push((entry.0.clone(), line));
        proof {
            assert(rendered.deep_view() =~= rprev.push((entry.0@, field_line(
                pv[i as int].0,
                pv[i as int].1,
                rdv,
            ))));
            assert(pv.take(i as int + 1).drop_last() =~= pv.take(i as int));
            assert(pv.take(i as int + 1).last() == pv[i as int]);
            assert(rendered.deep_view() =~= rendered_fields(pv.take(i as int + 1), rdv));
        }
        i = i + 1;
    }
    proof {
        assert(pv.take(n as int) =~= pv);
    }
    let ghost rendered_view = rendered.deep_view();
    let sorted = sort_pairs(rendered);
    proof {
        lemma_pair_le_total_ordering();
        rendered_view.lemma_sort_by_ensures(pair_leq_fn());
        vstd::seq_lib::lemma_sorted_unique(
            sorted.deep_view(),
            rendered_view.sort_by(pair_leq_fn()),
            pair_leq_fn(),
        );
        assert(sorted.deep_view() == rendered_fields(pv, rdv).sort_by(pair_leq_fn()));
    }
    let ghost head = out@;
    let ghost sdv = sorted.deep_view();
    let m = sorted.len();
    let mut j: usize = 0;
    proof {
        assert(out@ =~= head + concat_lines(sdv.take(0)));
    }
    while j < m
        invariant
            j <= m,
            m == sorted@.len(),
            out@ == head + concat_lines(sdv.take(j as int)),
        decreases m - j,
    {
        out.append(sorted[j].1.as_str());
        proof {
            assert(sdv.take(j as int + 1).drop_last() =~= sdv.take(j as int));
            assert(sdv.take(j as int + 1).last() == sdv[j as int]);
            assert(sdv[j as int] == (sorted@[j as int].0@, sorted@[j as int].1@));
            assert(out@ =~= head + concat_lines(sdv.take(j as int + 1)));
        }
        j = j + 1;
    }
    proof {
        assert(sdv.take(m as int) =~= sdv);
    }
    out.append("}");
    proof {
        assert(out@ =~= wit_record_text(pv, rdv, opt_text(decl_name), opt_text(description)));
    }
    out
}

/// Render an enum declaration.
#[verifier::loop_isolation(false)]
pub fn enum_to_wit(variants: &Vec<String>, decl_name: Option<&str>, description: Option<&str>)
    -> (r: String)
    ensures
        r@ == wit_enum_text(variants.deep_view(), opt_text(decl_name), opt_text(description)),
{
    let mut out = String::new();
    proof {
        reveal_strlit("");
        assert(""@ =~= Seq::<char>::empty());
    }
    match description {
        Some(d) => push_doc_comment(&mut out, d, ""),
        None => {
        },
    }
    out.append("enum ");
    let nm: &str = match decl_name {
        Some(n) => n,
        None => "anonymous-enum",
    };
    let kebab = to_kebab_case(nm);
    out.append(kebab.as_str());
    out.append(" {\n");
    let ghost head = out@;
    let ghost vdv = variants.deep_view();
    proof {
        assert(head =~= doc_comment(opt_text(description), Seq::empty()) + "enum "@ + kebab_of(
            name_or(opt_text(decl_name), "anonymous-enum"@),
        ) + " {\n"@);
        assert(out@ =~= head + enum_lines(vdv.take(0)));
    }
    let n = variants.len();
    let mut i: usize = 0;
    while i < n
        invariant
            i <= n,
            n == variants@.len(),
            out@ == head + enum_lines(vdv.take(i as int)),
        decreases n - i,
    {
        out.append("    ");
        let kv = to_kebab_case(variants[i].as_str());
        out.append(kv.as_str());
        out.append(",\n");
        proof {
            assert(vdv.take(i as int + 1).drop_last() =~= vdv.take(i as int));
            assert(vdv.take(i as int + 1).last() == vdv[i as int]);
            assert(vdv[i as int] == variants@[i as int]@);
            assert(out@ =~= head + enum_lines(vdv.take(i as int + 1)));
        }
        i = i + 1;
    }
    proof {
        assert(vdv.take(n as int) =~= vdv);
    }
    out.append("}");
    proof {
        assert(out@ =~= wit_enum_text(vdv, opt_text(decl_name), opt_text(description)));
    }
    out
}

/// Render a tagged-variant declaration.
#[verifier::loop_isolation(false)]
#[verifier::rlimit(50)]
pub fn variant_to_wit(cases: &Vec<VariantCase>, decl_name: Option<&str>, description: Option<
    &str,
>) -> (r: String)
    ensures
        r@ == wit_variant_text(cases_view(cases@), opt_text(decl_name), opt_text(description)),
    decreases cases@, 4int,
{
    proof {
        lemma_cases_view(cases@);
    }
    let mut out = String::new();
    proof {
        reveal_strlit("");
        assert(""@ =~= Seq::<char>::empty());
    }
    match description {
        Some(d) => push_doc_comment(&mut out, d, ""),
        None => {
        },
    }
    out.append("variant ");
    let nm: &str = match decl_name {
        Some(n) => n,
        None => "anonymous-variant",
    };
    let kebab = to_kebab_case(nm);
    out.append(kebab.as_str());
    out.append(" {\n");
    let ghost head = out@;
    let ghost cv = cases_view(cases@);
    proof {
        assert(head =~= doc_comment(opt_text(description), Seq::empty()) + "variant "@
            + kebab_of(name_or(opt_text(decl_name), "anonymous-variant"@)) + " {\n"@);
        assert(out@ =~= head + variant_lines(cv.take(0)));
    }
    let n = cases.len();
    let mut i: usize = 0;
    while i < n
        invariant
            i <= n,
            out@ == head + variant_lines(cv.take(i as int)),
        decreases n - i,
    {
        let ghost out0 = out@;
        let c = &cases[i];
        match &c.description {
            Some(d) => push_doc_comment(&mut out, d.as_str(), "    "),
            None => {
            },
        }
        out.append("    ");
        let kn = to_kebab_case(c.name.as_str());
        out.append(kn.as_str());
        match &c.data {
            None => {
                proof {
                    assert(case_payload(cv[i as int]) =~= Seq::<char>::empty());
                }
            },
            Some(d) => {
                out.append("(");
                let ty = schema_type_to_wit(d, None);
                out.append(ty.as_str());
                out.append(")");
                proof {
                    assert(cv[i as int].data == Some(schema_view(*d)));
                    assert(case_payload(cv[i as int]) == "("@ + wit_of(schema_view(*d), None)
                        + ")"@);
                }
            },
        }
        out.append(",\n");
        proof {
            assert(case_view(cases@[i as int]).description == (match cases@[i as int].description {
                Some(t) => Some(t@),
                None => None::<Seq<char>>,
            }));
            assert(cv[i as int].name == cases@[i as int].name@);
            assert(out@ =~= out0 + doc_comment(cv[i as int].description, "    "@) + "    "@
                + kebab_of(cv[i as int].name) + case_payload(cv[i as int]) + ",\n"@);
            assert(case_line(cv[i as int]) == doc_comment(cv[i as int].description, "    "@)
                + "    "@ + kebab_of(cv[i as int].name) + case_payload(cv[i as int]) + ",\n"@);
            assert(cv.take(i as int + 1).drop_last() =~= cv.take(i as int));
            assert(cv.take(i as int + 1).last() == cv[i as int]);
            assert(variant_lines(cv.take(i as int + 1)) == variant_lines(cv.take(i as int))
                + case_line(cv[i as int]));
            assert(out@ =~= head + variant_lines(cv.take(i as int + 1)));
        }
        i = i + 1;
    }
    proof {
        assert(cv.take(n as int) =~= cv);
    }
    out.append("}");
    proof {
        assert(out@ =~= wit_variant_text(cv, opt_text(decl_name), opt_text(description)));
    }
    out
}

/// Render a tuple type.
#[verifier::loop_isolation(false)]
pub fn tuple_to_wit(fields: &Vec<SchemaType>) -> (r: String)
    ensures
        r@ == (if fields@.len() == 0 {
            "unit"@
        } else {
            "tuple<"@ + wit_join(fields_view(fields@)) + ">"@
        }),
    decreases fields@, 4int,
{
    proof {
        lemma_fields_view(fields@);
    }
    if fields.is_empty() {
        return "unit".to_owned();
    }
    let ghost fv = fields_view(fields@);
    let mut out = "tuple<".to_owned();
    let n = fields.len();
    let mut i: usize = 0;
    proof {
        assert(out@ =~= "tuple<"@ + wit_join(fv.take(0)));
    }
    while i < n
        invariant
            1 <= n,
            i <= n,
            out@ == "tuple<"@ + wit_join(fv.take(i as int)),
        decreases n - i,
    {
        if i > 0 {
            out.append(", ");
        }
        let ty = schema_type_to_wit(&fields[i], None);
        out.append(ty.as_str());
        proof {
            assert(fv.take(i as int + 1).drop_last() =~= fv.take(i as int));
            assert(fv.take(i as int + 1).last() == fv[i as int]);
            if i == 0 {
                assert(fv.take(1)[0] == fv[0]);
            }
            assert(out@ =~= "tuple<"@ + wit_join(fv.take(i as int + 1)));
        }
        i = i + 1;
    }
    proof {
        assert(fv.take(n as int) =~= fv);
    }
    out.append(">");
    out
}

/// Convert a schema to interface declaration text, optionally with a name
/// for the top-level record, variant or enum declaration.
pub fn schema_type_to_wit(schema: &SchemaType, decl_name: Option<&str>) -> (r: String)
    ensures
        r@ == wit_of(schema.deep_view(), opt_text(decl_name)),
    decreases *schema, 0int,
{
    match &schema.kind {
        TypeKind::String => "string".to_owned(),
        TypeKind::Boolean => "bool".to_owned(),
        TypeKind::Null => "unit".to_owned(),
        TypeKind::Integer(kind) => integer_to_wit(kind),
        TypeKind::Number(kind) => number_to_wit(kind),
        TypeKind::Array { items } => {
            let mut out = "list<".to_owned();
            let ty = schema_type_to_wit(items, None);
            out.append(ty.as_str());
            out.append(">");
            proof {
                assert(out@ =~= "list<"@ + wit_of(schema_view(**items), None) + ">"@);
            }
            out
        },
        TypeKind::SetOf { items, ordered } => {
            let mut out = "list<".to_owned();
            let ty = schema_type_to_wit(items, None);
            out.append(ty.as_str());
            out.append(">");
            proof {
                assert(out@ =~= "list<"@ + wit_of(schema_view(**items), None) + ">"@);
            }
            out
        },
        TypeKind::MapOf { key, value, ordered } => {
            let mut out = "list<tuple<".to_owned();
            let kt = schema_type_to_wit(key, None);
            out.append(kt.as_str());
            out.append(", ");
            let vt = schema_type_to_wit(value, None);
            out.append(vt.as_str());
            out.append(">>");
            proof {
                assert(out@ =~= "list<tuple<"@ + wit_of(schema_view(**key), None) + ", "@
                    + wit_of(schema_view(**value), None) + ">>"@);
            }
            out
        },
        TypeKind::Object { properties, required } => {
            let d: Option<&str> = match &schema.description {
                Some(t) => Some(t.as_str()),
                None => None,
            };
            record_to_wit(properties, required, decl_name, d)
        },
        TypeKind::Enum { variants } => {
            let d: Option<&str> = match &schema.description {
                Some(t) => Some(t.as_str()),
                None => None,
            };
            enum_to_wit(variants, decl_name, d)
        },
        TypeKind::Variant { cases } => {
            let d: Option<&str> = match &schema.description {
                Some(t) => Some(t.as_str()),
                None => None,
            };
            variant_to_wit(cases, decl_name, d)
        },
        TypeKind::Result { ok, err } => {
            let mut out = "result<".to_owned();
            let ot = schema_type_to_wit(ok, None);
            out.append(ot.as_str());
            out.append(", ");
            let et = schema_type_to_wit(err, None);
            out.append(et.as_str());
            out.append(">");
            proof {
                assert(out@ =~= "result<"@ + wit_of(schema_view(**ok), None) + ", "@ + wit_of(
                    schema_view(**err),
                    None,
                ) + ">"@);
            }
            out
        },
        TypeKind::Tuple { fields } => {
            proof {
                lemma_fields_view(fields@);
            }
            tuple_to_wit(fields)
        },
        TypeKind::TaggedUnion { tag_field, tag_variants, data_fields } => {
            // This representation has no faithful declaration in this
            // target; callers needing sum-type fidelity here must use a
            // variant schema.
            "/* TaggedUnion not supported - use Variant instead */".to_owned()
        },
        TypeKind::Ref { name } => to_kebab_case(name.as_str()),
    }
}

/// Convert a type's schema to interface declaration text.
pub fn to_wit_type<T: crate::schemas::Schema>() -> (r: String)
    ensures
        r@ == wit_of(T::spec_schema(), T::spec_schema_name()),
{
    let s = T::schema();
    let n = T::schema_name();
    schema_type_to_wit(&s, n)
}

} // verus!
