//! Canonical JSON text determines the value: two well-formed values with the same
//! canonical text are the same up to the order of object members. The argument reads
//! the text from the front; each value, string and number in it ends where the text
//! says, so what follows can be told apart from it.

use vstd::prelude::*;
use crate::json::{
    JsonValue, canonical_text, entry_texts, is_closer, item_texts, join_texts, json_equiv,
    json_escape_char, json_escaped, json_quoted, json_wf, member_entries, number_text_ok, sort_by_key,
};
use crate::json_laws::{lemma_item_texts_index, lemma_member_entries_map, lemma_sort_by_key, member_entry};
use crate::text::hex_char;

verus! {

/// Cancelling a common front: `x + r1 == x + r2` gives `r1 == r2`.
proof fn lemma_cancel_front(x: Seq<char>, r1: Seq<char>, r2: Seq<char>)
    requires
        x + r1 == x + r2,
    ensures
        r1 == r2,
{
    assert(r1 =~= (x + r1).skip(x.len() as int));
    assert(r2 =~= (x + r2).skip(x.len() as int));
}

/// The escaped body of a string, read from its first character.
proof fn lemma_escaped_front(s: Seq<char>)
    requires
        s.len() > 0,
    ensures
        json_escaped(s) == json_escape_char(s[0]) + json_escaped(s.drop_first()),
    decreases s.len(),
{
    if s.len() == 1 {
        assert(s.drop_last() =~= Seq::<char>::empty());
        assert(s.drop_first() =~= Seq::<char>::empty());
        assert(json_escaped(s.drop_last()) =~= Seq::<char>::empty());
        assert(json_escaped(s) =~= json_escape_char(s[0]) + json_escaped(s.drop_first()));
    } else {
        let d = s.drop_last();
        lemma_escaped_front(d);
        assert(d.drop_first() =~= s.drop_first().drop_last());
        assert(d[0] == s[0]);
        assert(s.drop_first().last() == s.last());
        assert(json_escaped(s) =~= json_escape_char(s[0]) + json_escaped(s.drop_first()));
    }
}

/// Two lowercase hex digits agree only for the same value.
proof fn lemma_hex_char_injective(a: int, b: int)
    requires
        0 <= a < 16,
        0 <= b < 16,
        hex_char(a) == hex_char(b),
    ensures
        a == b,
{
}

/// An escaped character determines the character, whatever follows it.
proof fn lemma_escape_char_prefix(c1: char, c2: char, x1: Seq<char>, x2: Seq<char>)
    requires
        json_escape_char(c1) + x1 == json_escape_char(c2) + x2,
    ensures
        c1 == c2,
        x1 == x2,
{
    let e1 = json_escape_char(c1);
    let e2 = json_escape_char(c2);
    let w = e1 + x1;
    assert(w == e2 + x2);
    assert(w[0] == e1[0] && w[0] == e2[0]);
    if e1.len() > 1 && e2.len() > 1 {
        assert(w[1] == e1[1] && w[1] == e2[1]);
        if e1.len() == 6 && e2.len() == 6 {
            assert(w[4] == e1[4] && w[4] == e2[4]);
            assert(w[5] == e1[5] && w[5] == e2[5]);
            lemma_hex_char_injective((c1 as int) / 16, (c2 as int) / 16);
            lemma_hex_char_injective((c1 as int) % 16, (c2 as int) % 16);
        }
    }
    assert(c1 == c2);
    lemma_cancel_front(e1, x1, x2);
}

/// An escaped character never starts with a double quote.
proof fn lemma_escape_char_not_quote(c: char)
    ensures
        json_escape_char(c).len() > 0,
        json_escape_char(c)[0] != '"',
{
}

/// The escaped body of a string ends at the first bare double quote: what comes before
/// it determines the string, and what comes after it is the rest.
proof fn lemma_escaped_prefix_free(s1: Seq<char>, s2: Seq<char>, r1: Seq<char>, r2: Seq<char>)
    requires
        json_escaped(s1) + (seq!['"'] + r1) == json_escaped(s2) + (seq!['"'] + r2),
    ensures
        s1 == s2,
        r1 == r2,
    decreases s1.len(),
{
    if s1.len() == 0 {
        assert(json_escaped(s1) =~= Seq::<char>::empty());
        assert(json_escaped(s1) + (seq!['"'] + r1) =~= seq!['"'] + r1);
        if s2.len() > 0 {
            lemma_escaped_front(s2);
            lemma_escape_char_not_quote(s2[0]);
            let w = json_escaped(s2) + (seq!['"'] + r2);
            assert(w[0] == json_escape_char(s2[0])[0]);
            assert(false);
        }
        assert(json_escaped(s2) =~= Seq::<char>::empty());
        assert(json_escaped(s2) + (seq!['"'] + r2) =~= seq!['"'] + r2);
        lemma_cancel_front(seq!['"'], r1, r2);
        assert(s1 =~= s2);
    } else if s2.len() == 0 {
        lemma_escaped_prefix_free(s2, s1, r2, r1);
    } else {
        lemma_escaped_front(s1);
        lemma_escaped_front(s2);
        let t1 = json_escaped(s1.drop_first()) + (seq!['"'] + r1);
        let t2 = json_escaped(s2.drop_first()) + (seq!['"'] + r2);
        assert(json_escaped(s1) + (seq!['"'] + r1) =~= json_escape_char(s1[0]) + t1);
        assert(json_escaped(s2) + (seq!['"'] + r2) =~= json_escape_char(s2[0]) + t2);
        lemma_escape_char_prefix(s1[0], s2[0], t1, t2);
        lemma_escaped_prefix_free(s1.drop_first(), s2.drop_first(), r1, r2);
        assert(s1 =~= seq![s1[0]] + s1.drop_first());
        assert(s2 =~= seq![s2[0]] + s2.drop_first());
    }
}

/// A string literal ends where its text says: the literal determines the string, and
/// what follows it is the rest.
pub proof fn lemma_quoted_prefix_free(s1: Seq<char>, s2: Seq<char>, r1: Seq<char>, r2: Seq<char>)
    requires
        json_quoted(s1) + r1 == json_quoted(s2) + r2,
    ensures
        s1 == s2,
        r1 == r2,
{
    assert(json_quoted(s1) + r1 =~= seq!['"'] + (json_escaped(s1) + (seq!['"'] + r1)));
    assert(json_quoted(s2) + r2 =~= seq!['"'] + (json_escaped(s2) + (seq!['"'] + r2)));
    lemma_cancel_front(seq!['"'], json_escaped(s1) + (seq!['"'] + r1), json_escaped(s2) + (seq!['"'] + r2));
    lemma_escaped_prefix_free(s1, s2, r1, r2);
}

/// Whether `r` can follow a value inside a JSON text: nothing, or a `,`, `]` or `}`.
pub open spec fn ends_value(r: Seq<char>) -> bool {
    r.len() == 0 || is_closer(r[0])
}

/// Whether texts `t` and `u` are told apart by what follows them: followed by what can
/// follow a value, they only run alike when they are the same text.
pub open spec fn delimited(t: Seq<char>, u: Seq<char>) -> bool {
    forall|r1: Seq<char>, r2: Seq<char>|
        #![trigger t + r1, u + r2]
        ends_value(r1) && ends_value(r2) && t + r1 == u + r2 ==> t == u
}

/// Texts joined by commas, read from the first text.
proof fn lemma_join_front(ts: Seq<Seq<char>>)
    requires
        ts.len() > 0,
    ensures
        ts.len() == 1 ==> join_texts(ts) == ts[0],
        ts.len() > 1 ==> join_texts(ts) == ts[0] + (seq![','] + join_texts(ts.drop_first())),
    decreases ts.len(),
{
    if ts.len() == 2 {
        assert(ts.drop_last().len() == 1);
        assert(join_texts(ts.drop_last()) == ts[0]);
        assert(ts.drop_first().len() == 1);
        assert(join_texts(ts.drop_first()) == ts[1]);
        assert(join_texts(ts) =~= ts[0] + (seq![','] + join_texts(ts.drop_first())));
    } else if ts.len() > 2 {
        let d = ts.drop_last();
        lemma_join_front(d);
        assert(d.drop_first() =~= ts.drop_first().drop_last());
        assert(d[0] == ts[0]);
        assert(ts.drop_first().last() == ts.last());
        assert(join_texts(ts) =~= ts[0] + (seq![','] + join_texts(ts.drop_first())));
    }
}

/// Comma-joined texts, closed by `]` or `}`, where each text is told apart from the
/// others by what follows it and none starts with a closer: the joined text determines
/// the texts, and what follows the closer is the rest.
proof fn lemma_join_split(t1: Seq<Seq<char>>, t2: Seq<Seq<char>>, close: char, r1: Seq<char>, r2: Seq<char>)
    requires
        close == ']' || close == '}',
        forall|i: int| 0 <= i < t1.len() ==> (#[trigger] t1[i]).len() > 0 && !is_closer(t1[i][0]),
        forall|i: int| 0 <= i < t2.len() ==> (#[trigger] t2[i]).len() > 0 && !is_closer(t2[i][0]),
        forall|i: int, j: int| 0 <= i < t1.len() && 0 <= j < t2.len() ==> delimited(#[trigger] t1[i], #[trigger] t2[j]),
        join_texts(t1) + (seq![close] + r1) == join_texts(t2) + (seq![close] + r2),
    ensures
        t1 == t2,
        r1 == r2,
    decreases t1.len(),
{
    let w1 = join_texts(t1) + (seq![close] + r1);
    let w2 = join_texts(t2) + (seq![close] + r2);
    if t1.len() == 0 && t2.len() == 0 {
        assert(w1 =~= seq![close] + r1);
        assert(w2 =~= seq![close] + r2);
        lemma_cancel_front(seq![close], r1, r2);
        assert(t1 =~= t2);
    } else if t1.len() == 0 {
        assert(w1 =~= seq![close] + r1);
        lemma_join_front(t2);
        assert(t2[0].len() > 0 && !is_closer(t2[0][0]));
        assert(w2[0] == t2[0][0]);
        assert(w1[0] == close);
        assert(false);
    } else if t2.len() == 0 {
        assert(w2 =~= seq![close] + r2);
        lemma_join_front(t1);
        assert(t1[0].len() > 0 && !is_closer(t1[0][0]));
        assert(w1[0] == t1[0][0]);
        assert(w2[0] == close);
        assert(false);
    } else {
        lemma_join_front(t1);
        lemma_join_front(t2);
        let rest1 = if t1.len() > 1 { seq![','] + join_texts(t1.drop_first()) } else { Seq::<char>::empty() };
        let rest2 = if t2.len() > 1 { seq![','] + join_texts(t2.drop_first()) } else { Seq::<char>::empty() };
        let big1 = rest1 + (seq![close] + r1);
        let big2 = rest2 + (seq![close] + r2);
        assert(w1 =~= t1[0] + big1);
        assert(w2 =~= t2[0] + big2);
        assert(big1[0] == if t1.len() > 1 { ',' } else { close });
        assert(big2[0] == if t2.len() > 1 { ',' } else { close });
        assert(ends_value(big1) && ends_value(big2));
        assert(delimited(t1[0], t2[0]));
        assert(t1[0] == t2[0]);
        lemma_cancel_front(t1[0], big1, big2);
        if t1.len() > 1 && t2.len() > 1 {
            let d1 = t1.drop_first();
            let d2 = t2.drop_first();
            assert(big1 =~= seq![','] + (join_texts(d1) + (seq![close] + r1)));
            assert(big2 =~= seq![','] + (join_texts(d2) + (seq![close] + r2)));
            lemma_cancel_front(seq![','], join_texts(d1) + (seq![close] + r1), join_texts(d2) + (seq![close] + r2));
            assert forall|i: int| 0 <= i < d1.len() implies (#[trigger] d1[i]).len() > 0 && !is_closer(d1[i][0]) by {
                assert(d1[i] == t1[i + 1]);
            }
            assert forall|i: int| 0 <= i < d2.len() implies (#[trigger] d2[i]).len() > 0 && !is_closer(d2[i][0]) by {
                assert(d2[i] == t2[i + 1]);
            }
            assert forall|i: int, j: int| 0 <= i < d1.len() && 0 <= j < d2.len() implies delimited(
                #[trigger] d1[i],
                #[trigger] d2[j],
            ) by {
                assert(d1[i] == t1[i + 1]);
                assert(d2[j] == t2[j + 1]);
            }
            lemma_join_split(d1, d2, close, r1, r2);
            assert(t1 =~= seq![t1[0]] + d1);
            assert(t2 =~= seq![t2[0]] + d2);
        } else if t1.len() > 1 || t2.len() > 1 {
            assert(big1[0] == big2[0]);
            assert(false);
        } else {
            assert(big1 =~= seq![close] + r1);
            assert(big2 =~= seq![close] + r2);
            lemma_cancel_front(seq![close], r1, r2);
            assert(t1 =~= t2);
        }
    }
}

/// The kind of value that a canonical text's first character marks.
pub open spec fn kind_mark(c: char) -> int {
    if c == 'n' {
        0
    } else if c == 't' {
        1
    } else if c == 'f' {
        2
    } else if c == '-' || ('0' <= c && c <= '9') {
        3
    } else if c == '"' {
        4
    } else if c == '[' {
        5
    } else if c == '{' {
        6
    } else {
        7
    }
}

/// The kind of a value, as `kind_mark` numbers it (`true` and `false` apart).
pub open spec fn kind_of(v: JsonValue) -> int {
    match v {
        JsonValue::Null => 0,
        JsonValue::Bool(b) => if b { 1 } else { 2 },
        JsonValue::Number(_) => 3,
        JsonValue::Str(_) => 4,
        JsonValue::Array(_) => 5,
        JsonValue::Object(_) => 6,
    }
}

/// The canonical text of a well-formed value is not empty, and its first character
/// marks the kind of the value.
pub proof fn lemma_canonical_first(v: JsonValue)
    requires
        json_wf(v),
    ensures
        canonical_text(v).len() > 0,
        kind_mark(canonical_text(v)[0]) == kind_of(v),
        !is_closer(canonical_text(v)[0]),
{
    match v {
        JsonValue::Array(xs) => {
            assert(canonical_text(v)[0] == '[');
        },
        JsonValue::Object(ms) => {
            assert(canonical_text(v)[0] == '{');
        },
        JsonValue::Str(s) => {
            assert(canonical_text(v)[0] == '"');
        },
        _ => {},
    }
}

/// Number texts end where the text says: followed by what can follow a value, two
/// number texts only run alike when they are the same text.
proof fn lemma_number_prefix_free(n1: Seq<char>, n2: Seq<char>, r1: Seq<char>, r2: Seq<char>)
    requires
        number_text_ok(n1),
        number_text_ok(n2),
        ends_value(r1),
        ends_value(r2),
        n1 + r1 == n2 + r2,
    ensures
        n1 == n2,
    decreases n1.len(),
{
    let w = n1 + r1;
    if n1.len() < n2.len() {
        if r1.len() == 0 {
            assert(w.len() == n1.len());
            assert(false);
        } else {
            assert(w[n1.len() as int] == r1[0]);
            assert(w[n1.len() as int] == n2[n1.len() as int]);
            assert(!is_closer(n2[n1.len() as int]));
            assert(false);
        }
    } else if n2.len() < n1.len() {
        lemma_number_prefix_free(n2, n1, r2, r1);
    } else {
        assert(n1 =~= w.take(n1.len() as int));
        assert(n2 =~= (n2 + r2).take(n2.len() as int));
    }
}

/// A member's entry text: its key as a string literal, a colon, and its value's text.
proof fn lemma_member_text(m: crate::json::JsonMember)
    ensures
        member_entry(m).1 == json_quoted(m.key@) + (seq![':'] + canonical_text(m.value)),
        member_entry(m).1.len() > 0,
        member_entry(m).1[0] == '"',
{
    assert(member_entry(m).1 =~= json_quoted(m.key@) + (seq![':'] + canonical_text(m.value)));
}

/// Two member texts followed by `q1` and `q2` that run alike name the same key, and
/// their values' texts followed by `q1` and `q2` run alike.
proof fn lemma_member_text_split(m1: crate::json::JsonMember, m2: crate::json::JsonMember, q1: Seq<char>, q2: Seq<char>)
    requires
        member_entry(m1).1 + q1 == member_entry(m2).1 + q2,
    ensures
        m1.key@ == m2.key@,
        canonical_text(m1.value) + q1 == canonical_text(m2.value) + q2,
{
    lemma_member_text(m1);
    lemma_member_text(m2);
    let v1 = seq![':'] + (canonical_text(m1.value) + q1);
    let v2 = seq![':'] + (canonical_text(m2.value) + q2);
    assert(member_entry(m1).1 + q1 =~= json_quoted(m1.key@) + v1);
    assert(member_entry(m2).1 + q2 =~= json_quoted(m2.key@) + v2);
    lemma_quoted_prefix_free(m1.key@, m2.key@, v1, v2);
    lemma_cancel_front(seq![':'], canonical_text(m1.value) + q1, canonical_text(m2.value) + q2);
}

/// What the main lemma below states of one value `v`, for any other value.
pub open spec fn ends_where_said(v: JsonValue) -> bool {
    forall|b: JsonValue, r1: Seq<char>, r2: Seq<char>|
        #![trigger canonical_text(v) + r1, canonical_text(b) + r2]
        json_wf(v) && json_wf(b) && ends_value(r1) && ends_value(r2) && canonical_text(v) + r1
            == canonical_text(b) + r2 ==> canonical_text(v) == canonical_text(b) && r1 == r2 && json_equiv(
            v,
            b,
        )
}

/// The array step: when each item ends where its text says, so does the array.
proof fn lemma_array_prefix_free(a: JsonValue, b: JsonValue, r1: Seq<char>, r2: Seq<char>)
    requires
        a is Array,
        b is Array,
        json_wf(a),
        json_wf(b),
        ends_value(r1),
        ends_value(r2),
        canonical_text(a) + r1 == canonical_text(b) + r2,
        forall|i: int| 0 <= i < a->Array_0@.len() ==> ends_where_said(#[trigger] a->Array_0@[i]),
    ensures
        canonical_text(a) == canonical_text(b),
        r1 == r2,
        json_equiv(a, b),
{
    let xs = a->Array_0;
    let ys = b->Array_0;
    let t1 = item_texts(xs@);
    let t2 = item_texts(ys@);
    lemma_item_texts_index(xs@);
    lemma_item_texts_index(ys@);
    let in1 = join_texts(t1) + (seq![']'] + r1);
    let in2 = join_texts(t2) + (seq![']'] + r2);
    assert(canonical_text(a) + r1 =~= seq!['['] + in1);
    assert(canonical_text(b) + r2 =~= seq!['['] + in2);
    lemma_cancel_front(seq!['['], in1, in2);
    assert forall|i: int| 0 <= i < t1.len() implies (#[trigger] t1[i]).len() > 0 && !is_closer(t1[i][0]) by {
        assert(json_wf(xs@[i]));
        lemma_canonical_first(xs@[i]);
    }
    assert forall|i: int| 0 <= i < t2.len() implies (#[trigger] t2[i]).len() > 0 && !is_closer(t2[i][0]) by {
        assert(json_wf(ys@[i]));
        lemma_canonical_first(ys@[i]);
    }
    assert forall|i: int, j: int| 0 <= i < t1.len() && 0 <= j < t2.len() implies delimited(
        #[trigger] t1[i],
        #[trigger] t2[j],
    ) by {
        assert forall|q1: Seq<char>, q2: Seq<char>|
            ends_value(q1) && ends_value(q2) && t1[i] + q1 == t2[j] + q2 implies t1[i] == t2[j] by {
            assert(json_wf(xs@[i]));
            assert(json_wf(ys@[j]));
            assert(ends_where_said(xs@[i]));
            assert(canonical_text(xs@[i]) + q1 == canonical_text(ys@[j]) + q2);
        }
    }
    lemma_join_split(t1, t2, ']', r1, r2);
    assert forall|i: int| 0 <= i < xs@.len() implies json_equiv(#[trigger] xs@[i], ys@[i]) by {
        assert(json_wf(xs@[i]));
        assert(json_wf(ys@[i]));
        assert(t1[i] == t2[i]);
        assert(ends_where_said(xs@[i]));
        let e = Seq::<char>::empty();
        assert(canonical_text(xs@[i]) + e =~= canonical_text(ys@[i]) + e);
    }
}

/// The object step: when each member's value ends where its text says, so does the
/// object.
proof fn lemma_object_prefix_free(a: JsonValue, b: JsonValue, r1: Seq<char>, r2: Seq<char>)
    requires
        a is Object,
        b is Object,
        json_wf(a),
        json_wf(b),
        ends_value(r1),
        ends_value(r2),
        canonical_text(a) + r1 == canonical_text(b) + r2,
        forall|i: int| 0 <= i < a->Object_0@.len() ==> ends_where_said(#[trigger] a->Object_0@[i].value),
    ensures
        canonical_text(a) == canonical_text(b),
        r1 == r2,
        json_equiv(a, b),
{
    let ms = a->Object_0;
    let ns = b->Object_0;
    let e1 = member_entries(ms@);
    let e2 = member_entries(ns@);
    let s1 = sort_by_key(e1);
    let s2 = sort_by_key(e2);
    let t1 = entry_texts(s1);
    let t2 = entry_texts(s2);
    lemma_member_entries_map(ms@);
    lemma_member_entries_map(ns@);
    lemma_sort_by_key(e1);
    lemma_sort_by_key(e2);
    vstd::seq_lib::to_multiset_len(s1);
    vstd::seq_lib::to_multiset_len(e1);
    vstd::seq_lib::to_multiset_len(s2);
    vstd::seq_lib::to_multiset_len(e2);
    // Each sorted entry is the entry of a member.
    assert forall|p: int| 0 <= p < s1.len() implies exists|j: int|
        0 <= j < ms@.len() && #[trigger] s1[p] == member_entry(ms@[j]) by {
        vstd::seq_lib::to_multiset_contains(s1, s1[p]);
        vstd::seq_lib::to_multiset_contains(e1, s1[p]);
        let j = choose|j: int| 0 <= j < e1.len() && e1[j] == s1[p];
        assert(e1[j] == member_entry(ms@[j]));
    }
    assert forall|p: int| 0 <= p < s2.len() implies exists|j: int|
        0 <= j < ns@.len() && #[trigger] s2[p] == member_entry(ns@[j]) by {
        vstd::seq_lib::to_multiset_contains(s2, s2[p]);
        vstd::seq_lib::to_multiset_contains(e2, s2[p]);
        let j = choose|j: int| 0 <= j < e2.len() && e2[j] == s2[p];
        assert(e2[j] == member_entry(ns@[j]));
    }
    let in1 = join_texts(t1) + (seq!['}'] + r1);
    let in2 = join_texts(t2) + (seq!['}'] + r2);
    assert(canonical_text(a) + r1 =~= seq!['{'] + in1);
    assert(canonical_text(b) + r2 =~= seq!['{'] + in2);
    lemma_cancel_front(seq!['{'], in1, in2);
    assert forall|i: int| 0 <= i < t1.len() implies (#[trigger] t1[i]).len() > 0 && !is_closer(t1[i][0]) by {
        let j = choose|j: int| 0 <= j < ms@.len() && #[trigger] s1[i] == member_entry(ms@[j]);
        lemma_member_text(ms@[j]);
    }
    assert forall|i: int| 0 <= i < t2.len() implies (#[trigger] t2[i]).len() > 0 && !is_closer(t2[i][0]) by {
        let j = choose|j: int| 0 <= j < ns@.len() && #[trigger] s2[i] == member_entry(ns@[j]);
        lemma_member_text(ns@[j]);
    }
    assert forall|i: int, k: int| 0 <= i < t1.len() && 0 <= k < t2.len() implies delimited(
        #[trigger] t1[i],
        #[trigger] t2[k],
    ) by {
        let j1 = choose|j: int| 0 <= j < ms@.len() && #[trigger] s1[i] == member_entry(ms@[j]);
        let j2 = choose|j: int| 0 <= j < ns@.len() && #[trigger] s2[k] == member_entry(ns@[j]);
        assert forall|q1: Seq<char>, q2: Seq<char>|
            ends_value(q1) && ends_value(q2) && t1[i] + q1 == t2[k] + q2 implies t1[i] == t2[k] by {
            lemma_member_text_split(ms@[j1], ns@[j2], q1, q2);
            assert(json_wf(ms@[j1].value));
            assert(json_wf(ns@[j2].value));
            assert(ends_where_said(ms@[j1].value));
            lemma_member_text(ms@[j1]);
            lemma_member_text(ns@[j2]);
        }
    }
    lemma_join_split(t1, t2, '}', r1, r2);
    // Every member of the first object has a member of the second with its key and an
    // equivalent value.
    assert forall|i: int| #![trigger ms@[i]] 0 <= i < ms@.len() implies exists|j: int|
        0 <= j < ns@.len() && (#[trigger] ns@[j]).key@ == ms@[i].key@ && json_equiv(
            ms@[i].value,
            ns@[j].value,
        ) by {
        assert(e1[i] == member_entry(ms@[i]));
        vstd::seq_lib::to_multiset_contains(e1, e1[i]);
        vstd::seq_lib::to_multiset_contains(s1, e1[i]);
        let p = choose|p: int| 0 <= p < s1.len() && s1[p] == e1[i];
        assert(t1[p] == t2[p]);
        let j = choose|j: int| 0 <= j < ns@.len() && #[trigger] s2[p] == member_entry(ns@[j]);
        let e = Seq::<char>::empty();
        assert(member_entry(ms@[i]).1 + e =~= member_entry(ns@[j]).1 + e);
        lemma_member_text_split(ms@[i], ns@[j], e, e);
        assert(json_wf(ms@[i].value));
        assert(json_wf(ns@[j].value));
        assert(ends_where_said(ms@[i].value));
        assert(canonical_text(ms@[i].value) + e == canonical_text(ns@[j].value) + e);
        assert(ns@[j] == ns@[j]);
    }
}

/// Canonical texts end where the text says: two well-formed values whose texts,
/// followed by what can follow a value, run alike have the same text, the same rest,
/// and are the same up to the order of object members.
pub proof fn lemma_canonical_prefix_free(a: JsonValue, b: JsonValue, r1: Seq<char>, r2: Seq<char>)
    requires
        json_wf(a),
        json_wf(b),
        ends_value(r1),
        ends_value(r2),
        canonical_text(a) + r1 == canonical_text(b) + r2,
    ensures
        canonical_text(a) == canonical_text(b),
        r1 == r2,
        json_equiv(a, b),
    decreases a,
{
    lemma_canonical_first(a);
    lemma_canonical_first(b);
    let w = canonical_text(a) + r1;
    assert(w[0] == canonical_text(a)[0]);
    assert(w[0] == canonical_text(b)[0]);
    assert(kind_of(a) == kind_of(b));
    match a {
        JsonValue::Number(n) => {
            let m = b->Number_0;
            lemma_number_prefix_free(n@, m@, r1, r2);
            lemma_cancel_front(canonical_text(a), r1, r2);
        },
        JsonValue::Str(s) => {
            let t = b->Str_0;
            lemma_quoted_prefix_free(s@, t@, r1, r2);
        },
        JsonValue::Array(xs) => {
            assert forall|i: int| 0 <= i < xs@.len() implies ends_where_said(#[trigger] xs@[i]) by {
                assert forall|b2: JsonValue, q1: Seq<char>, q2: Seq<char>|
                    #![trigger canonical_text(xs@[i]) + q1, canonical_text(b2) + q2]
                    json_wf(xs@[i]) && json_wf(b2) && ends_value(q1) && ends_value(q2) && canonical_text(xs@[i])
                        + q1 == canonical_text(b2) + q2 implies canonical_text(xs@[i]) == canonical_text(b2) && q1
                    == q2 && json_equiv(xs@[i], b2) by {
                    lemma_canonical_prefix_free(xs@[i], b2, q1, q2);
                }
            }
            lemma_array_prefix_free(a, b, r1, r2);
        },
        JsonValue::Object(ms) => {
            assert forall|i: int| 0 <= i < ms@.len() implies ends_where_said(#[trigger] ms@[i].value) by {
                assert forall|b2: JsonValue, q1: Seq<char>, q2: Seq<char>|
                    #![trigger canonical_text(ms@[i].value) + q1, canonical_text(b2) + q2]
                    json_wf(ms@[i].value) && json_wf(b2) && ends_value(q1) && ends_value(q2) && canonical_text(
                        ms@[i].value,
                    ) + q1 == canonical_text(b2) + q2 implies canonical_text(ms@[i].value) == canonical_text(b2)
                    && q1 == q2 && json_equiv(ms@[i].value, b2) by {
                    lemma_canonical_prefix_free(ms@[i].value, b2, q1, q2);
                }
            }
            lemma_object_prefix_free(a, b, r1, r2);
        },
        JsonValue::Null => {
            lemma_cancel_front(canonical_text(a), r1, r2);
        },
        JsonValue::Bool(x) => {
            lemma_cancel_front(canonical_text(a), r1, r2);
        },
    }
}

/// The canonical text determines the value up to the order of object members: two
/// well-formed values with the same canonical text are the same up to that order.
pub proof fn lemma_canonical_injective(a: JsonValue, b: JsonValue)
    requires
        json_wf(a),
        json_wf(b),
        canonical_text(a) == canonical_text(b),
    ensures
        json_equiv(a, b),
{
    assert(canonical_text(a) + Seq::<char>::empty() =~= canonical_text(b) + Seq::<char>::empty());
    lemma_canonical_prefix_free(a, b, Seq::<char>::empty(), Seq::<char>::empty());
}

} // verus!
