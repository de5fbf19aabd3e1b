//! What holds of canonical JSON as a whole: object members come out in key order, and
//! the order in which an object's members were given does not change the text.

use vstd::prelude::*;
use vstd::utf8::encode_utf8;
use vstd::multiset::Multiset;
use crate::json::{
    Entry, JsonMember, JsonValue, bytes_lt, canonical_text, distinct_keys, insert_by_key, item_texts, join_texts,
    json_equiv, json_quoted, json_wf, member_entries, sort_by_key,
};

verus! {

broadcast use vstd::seq_lib::group_to_multiset_ensures;

/// No byte string is below itself.
pub proof fn lemma_bytes_lt_irreflexive(a: Seq<u8>)
    ensures
        !bytes_lt(a, a),
    decreases a.len(),
{
    if a.len() > 0 {
        lemma_bytes_lt_irreflexive(a.drop_first());
    }
}

/// The key order is the lexicographic order on byte values: `a` is below `b` exactly
/// when, at the first place where they differ, the byte of `a` is the smaller number, or
/// when `a` is a proper prefix of `b`.
pub proof fn lemma_bytes_lt_lexicographic(a: Seq<u8>, b: Seq<u8>)
    ensures
        bytes_lt(a, b) <==> ({
            ||| exists|k: int| 0 <= k < a.len() && k < b.len() && a.take(k) == b.take(k) && #[trigger] a[k] < b[k]
            ||| a.len() < b.len() && b.take(a.len() as int) == a
        }),
    decreases a.len(),
{
    if a.len() == 0 {
        assert(b.take(0) =~= a);
    } else if b.len() == 0 {
    } else if a[0] != b[0] {
        if a[0] < b[0] {
            assert(a.take(0) =~= b.take(0));
            assert(a[0] < b[0]);
        } else {
            assert forall|k: int| 0 <= k < a.len() && k < b.len() && a.take(k) == b.take(k) implies !(#[trigger] a[k] < b[k]) by {
                if k > 0 {
                    assert(a.take(k)[0] == a[0]);
                    assert(b.take(k)[0] == b[0]);
                }
            }
            if a.len() < b.len() && b.take(a.len() as int) == a {
                assert(b.take(a.len() as int)[0] == b[0]);
            }
        }
    } else {
        let a1 = a.drop_first();
        let b1 = b.drop_first();
        lemma_bytes_lt_lexicographic(a1, b1);
        // A first difference of the tails is one of the whole sequences, one place on.
        if exists|k: int| 0 <= k < a1.len() && k < b1.len() && a1.take(k) == b1.take(k) && #[trigger] a1[k] < b1[k] {
            let k = choose|k: int| 0 <= k < a1.len() && k < b1.len() && a1.take(k) == b1.take(k) && #[trigger] a1[k] < b1[k];
            assert(a.take(k + 1) =~= seq![a[0]] + a1.take(k));
            assert(b.take(k + 1) =~= seq![b[0]] + b1.take(k));
            assert(a[k + 1] == a1[k] && b[k + 1] == b1[k]);
        }
        if exists|k: int| 0 <= k < a.len() && k < b.len() && a.take(k) == b.take(k) && #[trigger] a[k] < b[k] {
            let k = choose|k: int| 0 <= k < a.len() && k < b.len() && a.take(k) == b.take(k) && #[trigger] a[k] < b[k];
            assert(k > 0);
            assert(a1.take(k - 1) =~= a.take(k).drop_first());
            assert(b1.take(k - 1) =~= b.take(k).drop_first());
            assert(a1[k - 1] == a[k] && b1[k - 1] == b[k]);
        }
        if a1.len() < b1.len() && b1.take(a1.len() as int) == a1 {
            assert(b.take(a.len() as int) =~= seq![b[0]] + b1.take(a1.len() as int));
            assert(a =~= seq![a[0]] + a1);
        }
        if a.len() < b.len() && b.take(a.len() as int) == a {
            assert(b1.take(a1.len() as int) =~= b.take(a.len() as int).drop_first());
        }
    }
}

/// The byte order is transitive.
pub proof fn lemma_bytes_lt_transitive(a: Seq<u8>, b: Seq<u8>, c: Seq<u8>)
    requires
        bytes_lt(a, b),
        bytes_lt(b, c),
    ensures
        bytes_lt(a, c),
    decreases a.len(),
{
    if a.len() > 0 && b.len() > 0 && c.len() > 0 && a[0] == b[0] && b[0] == c[0] {
        lemma_bytes_lt_transitive(a.drop_first(), b.drop_first(), c.drop_first());
    }
}

/// Of two different byte strings, one is below the other.
pub proof fn lemma_bytes_lt_total(a: Seq<u8>, b: Seq<u8>)
    requires
        a != b,
    ensures
        bytes_lt(a, b) || bytes_lt(b, a),
    decreases a.len(),
{
    if a.len() > 0 && b.len() > 0 && a[0] == b[0] {
        if a.drop_first() == b.drop_first() {
            assert(a =~= seq![a[0]] + a.drop_first());
            assert(b =~= seq![b[0]] + b.drop_first());
        }
        lemma_bytes_lt_total(a.drop_first(), b.drop_first());
    } else if a.len() == 0 && b.len() == 0 {
        assert(a =~= b);
    }
}

/// The byte order is asymmetric.
pub proof fn lemma_bytes_lt_asymmetric(a: Seq<u8>, b: Seq<u8>)
    requires
        bytes_lt(a, b),
    ensures
        !bytes_lt(b, a),
{
    if bytes_lt(b, a) {
        lemma_bytes_lt_transitive(a, b, a);
        lemma_bytes_lt_irreflexive(a);
    }
}

/// Entries in order of their keys: no entry's key is below an earlier one's.
pub open spec fn sorted_by_key(s: Seq<Entry>) -> bool {
    forall|i: int, j: int| 0 <= i < j < s.len() ==> !bytes_lt(#[trigger] s[j].0, #[trigger] s[i].0)
}

/// Entries of a collection with the same key are the same entry.
pub open spec fn keys_determine(m: Multiset<Entry>) -> bool {
    forall|a: Entry, b: Entry| m.contains(a) && m.contains(b) && a.0 == b.0 ==> a == b
}

proof fn lemma_not_lt_transitive(a: Seq<u8>, b: Seq<u8>, c: Seq<u8>)
    requires
        !bytes_lt(a, b),
        !bytes_lt(b, c),
    ensures
        !bytes_lt(a, c),
{
    if bytes_lt(a, c) {
        if a == b {
        } else if b == c {
        } else {
            lemma_bytes_lt_total(a, b);
            lemma_bytes_lt_total(b, c);
            lemma_bytes_lt_transitive(b, a, c);
        }
    }
}

/// Inserting keeps the entries in key order and adds exactly the new entry.
pub proof fn lemma_insert_by_key(s: Seq<Entry>, e: Entry)
    requires
        sorted_by_key(s),
    ensures
        sorted_by_key(insert_by_key(s, e)),
        insert_by_key(s, e).to_multiset() == s.to_multiset().insert(e),
    decreases s.len(),
{
    broadcast use vstd::multiset::group_multiset_axioms;

    let r = insert_by_key(s, e);
    if s.len() == 0 {
        assert(seq![e] =~= Seq::<Entry>::empty().push(e));
    } else if bytes_lt(e.0, s.last().0) {
        let d = s.drop_last();
        let l = s.last();
        lemma_insert_by_key(d, e);
        let rd = insert_by_key(d, e);
        assert(s =~= d.push(l));
        assert forall|i: int, j: int| 0 <= i < j < r.len() implies !bytes_lt(#[trigger] r[j].0, #[trigger] r[i].0) by {
            if j == r.len() - 1 {
                assert(rd.contains(r[i]));
                assert(rd.to_multiset().count(r[i]) > 0);
                if r[i] == e {
                    lemma_bytes_lt_asymmetric(e.0, l.0);
                } else {
                    assert(d.to_multiset().count(r[i]) > 0);
                    let k = choose|k: int| 0 <= k < d.len() && d[k] == r[i];
                    assert(s[k] == d[k]);
                    assert(s[s.len() - 1] == l);
                }
            }
        }
    } else {
        assert forall|i: int, j: int| 0 <= i < j < r.len() implies !bytes_lt(#[trigger] r[j].0, #[trigger] r[i].0) by {
            if j == r.len() - 1 && i < s.len() - 1 {
                assert(s[s.len() - 1] == s.last());
                lemma_not_lt_transitive(e.0, s.last().0, s[i].0);
            }
        }
    }
}

/// Sorting keeps exactly the entries and puts them in key order.
pub proof fn lemma_sort_by_key(es: Seq<Entry>)
    ensures
        sorted_by_key(sort_by_key(es)),
        sort_by_key(es).to_multiset() == es.to_multiset(),
    decreases es.len(),
{
    if es.len() > 0 {
        lemma_sort_by_key(es.drop_last());
        lemma_insert_by_key(sort_by_key(es.drop_last()), es.last());
        assert(es =~= es.drop_last().push(es.last()));
    }
}

/// Two collections of entries in key order, with the same entries, where entries with
/// the same key are the same entry, are the same sequence.
pub proof fn lemma_sorted_unique(s1: Seq<Entry>, s2: Seq<Entry>)
    requires
        sorted_by_key(s1),
        sorted_by_key(s2),
        s1.to_multiset() == s2.to_multiset(),
        keys_determine(s1.to_multiset()),
    ensures
        s1 == s2,
    decreases s1.len(),
{
    broadcast use vstd::multiset::group_multiset_axioms;

    vstd::seq_lib::to_multiset_len(s1);
    vstd::seq_lib::to_multiset_len(s2);
    if s1.len() == 0 {
        assert(s1 =~= s2);
    } else {
        let a = s1[0];
        let b = s2[0];
        assert(s1.to_multiset().count(a) > 0);
        assert(s2.contains(a));
        let j = choose|j: int| 0 <= j < s2.len() && s2[j] == a;
        assert(s2.to_multiset().count(b) > 0);
        assert(s1.contains(b));
        let k = choose|k: int| 0 <= k < s1.len() && s1[k] == b;
        if j > 0 {
            assert(!bytes_lt(s2[j].0, s2[0].0));
        }
        if k > 0 {
            assert(!bytes_lt(s1[k].0, s1[0].0));
        }
        if j != 0 && k != 0 {
            if a.0 != b.0 {
                lemma_bytes_lt_total(a.0, b.0);
            }
            assert(s1.to_multiset().contains(a));
            assert(s1.to_multiset().contains(b));
        }
        assert(a == b);
        let t1 = s1.drop_first();
        let t2 = s2.drop_first();
        assert(s1.remove(0) =~= t1);
        assert(s2.remove(0) =~= t2);
        assert(t1.to_multiset() == t2.to_multiset());
        assert forall|x: Entry, y: Entry| t1.to_multiset().contains(x) && t1.to_multiset().contains(y) && x.0 == y.0 implies x == y by {
            assert(s1.to_multiset().contains(x));
            assert(s1.to_multiset().contains(y));
        }
        assert forall|i: int, j: int| 0 <= i < j < t1.len() implies !bytes_lt(#[trigger] t1[j].0, #[trigger] t1[i].0) by {
            assert(t1[i] == s1[i + 1] && t1[j] == s1[j + 1]);
        }
        assert forall|i: int, j: int| 0 <= i < j < t2.len() implies !bytes_lt(#[trigger] t2[j].0, #[trigger] t2[i].0) by {
            assert(t2[i] == s2[i + 1] && t2[j] == s2[j + 1]);
        }
        lemma_sorted_unique(t1, t2);
        assert(s1 =~= seq![a] + t1);
        assert(s2 =~= seq![b] + t2);
    }
}

/// Mapping every element of two sequences with the same elements gives sequences with
/// the same elements.
pub proof fn lemma_map_values_to_multiset<A, B>(s1: Seq<A>, s2: Seq<A>, f: spec_fn(A) -> B)
    requires
        s1.to_multiset() == s2.to_multiset(),
    ensures
        s1.map_values(f).to_multiset() == s2.map_values(f).to_multiset(),
    decreases s1.len(),
{
    broadcast use vstd::multiset::group_multiset_axioms;

    vstd::seq_lib::to_multiset_len(s1);
    vstd::seq_lib::to_multiset_len(s2);
    if s1.len() == 0 {
        assert(s1.map_values(f) =~= s2.map_values(f));
    } else {
        let a = s1.last();
        let d1 = s1.drop_last();
        assert(s1 =~= d1.push(a));
        assert(s1.to_multiset().count(a) > 0);
        assert(s2.contains(a));
        let j = choose|j: int| 0 <= j < s2.len() && s2[j] == a;
        let d2 = s2.remove(j);
        assert(d1.to_multiset() =~= s1.to_multiset().remove(a));
        assert(d2.to_multiset() == s2.to_multiset().remove(a));
        lemma_map_values_to_multiset(d1, d2, f);
        assert(s1.map_values(f) =~= d1.map_values(f).push(f(a)));
        assert(d2.map_values(f) =~= s2.map_values(f).remove(j));
        assert(s2.map_values(f)[j] == f(a));
        assert(s2.map_values(f).to_multiset().count(f(a)) > 0) by {
            assert(s2.map_values(f).contains(f(a)));
        }
        assert(s2.map_values(f).to_multiset() =~= d2.map_values(f).to_multiset().insert(f(a)));
    }
}

/// The entry of one object member: its key bytes, and its `"key":value` text.
pub open spec fn member_entry(m: JsonMember) -> Entry {
    (encode_utf8(m.key@), json_quoted(m.key@) + seq![':'] + canonical_text(m.value))
}

/// The entries of members are the members' entries, one for one.
pub proof fn lemma_member_entries_map(ms: Seq<JsonMember>)
    ensures
        member_entries(ms) == ms.map_values(|m: JsonMember| member_entry(m)),
    decreases ms.len(),
{
    if ms.len() > 0 {
        let d = ms.subrange(0, ms.len() - 1);
        lemma_member_entries_map(d);
        assert(ms.map_values(|m: JsonMember| member_entry(m)) =~= d.map_values(|m: JsonMember| member_entry(m)).push(
            member_entry(ms[ms.len() - 1]),
        ));
    }
}

proof fn lemma_entries_keys_determine(ms: Seq<JsonMember>)
    requires
        distinct_keys(ms),
    ensures
        keys_determine(member_entries(ms).to_multiset()),
{
    broadcast use vstd::utf8::encode_utf8_decode_utf8;

    lemma_member_entries_map(ms);
    let es = member_entries(ms);
    assert forall|x: Entry, y: Entry| es.to_multiset().contains(x) && es.to_multiset().contains(y) && x.0 == y.0 implies x == y by {
        assert(es.contains(x));
        assert(es.contains(y));
        let i = choose|i: int| 0 <= i < es.len() && es[i] == x;
        let j = choose|j: int| 0 <= j < es.len() && es[j] == y;
        assert(es[i] == member_entry(ms[i]));
        assert(es[j] == member_entry(ms[j]));
        assert(vstd::utf8::decode_utf8(encode_utf8(ms[i].key@)) == ms[i].key@);
        assert(vstd::utf8::decode_utf8(encode_utf8(ms[j].key@)) == ms[j].key@);
    }
}

/// The canonical text of an object lists its members in the byte order of their keys,
/// each member once.
pub proof fn lemma_canonical_members_in_key_order(ms: Seq<JsonMember>)
    ensures
        sorted_by_key(sort_by_key(member_entries(ms))),
        forall|i: int, j: int|
            0 <= i < j < sort_by_key(member_entries(ms)).len() ==> !bytes_lt(
                #[trigger] sort_by_key(member_entries(ms))[j].0,
                #[trigger] sort_by_key(member_entries(ms))[i].0,
            ),
        sort_by_key(member_entries(ms)).to_multiset() == ms.map_values(|m: JsonMember| member_entry(m)).to_multiset(),
{
    lemma_sort_by_key(member_entries(ms));
    lemma_member_entries_map(ms);
}

/// The canonical text of an object does not depend on the order in which its members
/// are given, as long as no two members share a key.
pub proof fn lemma_canonical_ignores_member_order(m1: Vec<JsonMember>, m2: Vec<JsonMember>)
    requires
        m1@.to_multiset() == m2@.to_multiset(),
        distinct_keys(m1@),
    ensures
        canonical_text(JsonValue::Object(m1)) == canonical_text(JsonValue::Object(m2)),
{
    let e1 = member_entries(m1@);
    let e2 = member_entries(m2@);
    lemma_member_entries_map(m1@);
    lemma_member_entries_map(m2@);
    lemma_map_values_to_multiset(m1@, m2@, |m: JsonMember| member_entry(m));
    lemma_sort_by_key(e1);
    lemma_sort_by_key(e2);
    lemma_entries_keys_determine(m1@);
    lemma_sorted_unique(sort_by_key(e1), sort_by_key(e2));
}

/// Two sequences without repeats, of one length, where every element of the first is
/// an element of the second, hold the same elements.
proof fn lemma_same_elements<A>(s1: Seq<A>, s2: Seq<A>)
    requires
        s1.no_duplicates(),
        s2.no_duplicates(),
        s1.len() == s2.len(),
        forall|x: A| s1.contains(x) ==> s2.contains(x),
    ensures
        s1.to_multiset() == s2.to_multiset(),
{
    broadcast use vstd::seq_lib::seq_to_set_is_finite;

    s1.unique_seq_to_set();
    s2.unique_seq_to_set();
    assert(s1.to_set().subset_of(s2.to_set()));
    vstd::set_lib::lemma_subset_equality(s1.to_set(), s2.to_set());
    s1.lemma_multiset_has_no_duplicates();
    s2.lemma_multiset_has_no_duplicates();
    assert forall|x: A| s1.to_multiset().count(x) == s2.to_multiset().count(x) by {
        assert(s1.to_set().contains(x) == s2.to_set().contains(x));
        assert(s1.to_multiset().contains(x) ==> s1.to_multiset().count(x) == 1);
        assert(s2.to_multiset().contains(x) ==> s2.to_multiset().count(x) == 1);
    }
    assert(s1.to_multiset() =~= s2.to_multiset());
}

/// The canonical texts of array items are the items' canonical texts, one for one.
pub proof fn lemma_item_texts_index(items: Seq<JsonValue>)
    ensures
        item_texts(items).len() == items.len(),
        forall|i: int| 0 <= i < items.len() ==> #[trigger] item_texts(items)[i] == canonical_text(items[i]),
    decreases items.len(),
{
    if items.len() > 0 {
        let d = items.subrange(0, items.len() - 1);
        lemma_item_texts_index(d);
        assert forall|i: int| 0 <= i < items.len() implies #[trigger] item_texts(items)[i] == canonical_text(
            items[i],
        ) by {
            if i < items.len() - 1 {
                assert(d[i] == items[i]);
            }
        }
    }
}

/// The entries of members with distinct keys do not repeat.
proof fn lemma_entries_no_duplicates(ms: Seq<JsonMember>)
    requires
        distinct_keys(ms),
    ensures
        member_entries(ms).no_duplicates(),
{
    broadcast use vstd::utf8::encode_utf8_decode_utf8;

    lemma_member_entries_map(ms);
    let es = member_entries(ms);
    assert forall|i: int, j: int| 0 <= i < es.len() && 0 <= j < es.len() && i != j implies es[i] != es[j] by {
        assert(es[i] == member_entry(ms[i]));
        assert(es[j] == member_entry(ms[j]));
        assert(vstd::utf8::decode_utf8(encode_utf8(ms[i].key@)) == ms[i].key@);
        assert(vstd::utf8::decode_utf8(encode_utf8(ms[j].key@)) == ms[j].key@);
    }
}

/// Canonical text ignores the order of object members at every depth: two well-formed
/// values that are the same up to that order have the same canonical text.
pub proof fn lemma_canonical_equiv(a: JsonValue, b: JsonValue)
    requires
        json_wf(a),
        json_wf(b),
        json_equiv(a, b),
    ensures
        canonical_text(a) == canonical_text(b),
    decreases a,
{
    match a {
        JsonValue::Array(xs) => {
            let ys = b->Array_0;
            assert forall|i: int| 0 <= i < xs@.len() implies canonical_text(xs@[i]) == canonical_text(ys@[i]) by {
                assert(json_wf(xs@[i]));
                assert(json_wf(ys@[i]));
                assert(json_equiv(xs@[i], ys@[i]));
                lemma_canonical_equiv(xs@[i], ys@[i]);
            }
            lemma_item_texts_index(xs@);
            lemma_item_texts_index(ys@);
            assert(item_texts(xs@) =~= item_texts(ys@));
        },
        JsonValue::Object(ms) => {
            let ns = b->Object_0;
            let e1 = member_entries(ms@);
            let e2 = member_entries(ns@);
            lemma_member_entries_map(ms@);
            lemma_member_entries_map(ns@);
            assert forall|x: Entry| e1.contains(x) implies e2.contains(x) by {
                let i = choose|i: int| 0 <= i < e1.len() && e1[i] == x;
                assert(e1[i] == member_entry(ms@[i]));
                assert(ms@[i] == ms@[i]);
                let j = choose|j: int|
                    0 <= j < ns@.len() && (#[trigger] ns@[j]).key@ == ms@[i].key@ && json_equiv(
                        ms@[i].value,
                        ns@[j].value,
                    );
                assert(json_wf(ms@[i].value));
                assert(json_wf(ns@[j].value));
                lemma_canonical_equiv(ms@[i].value, ns@[j].value);
                assert(e2[j] == member_entry(ns@[j]));
                assert(e2[j] == x);
            }
            lemma_entries_no_duplicates(ms@);
            lemma_entries_no_duplicates(ns@);
            lemma_same_elements(e1, e2);
            lemma_sort_by_key(e1);
            lemma_sort_by_key(e2);
            lemma_entries_keys_determine(ms@);
            lemma_sorted_unique(sort_by_key(e1), sort_by_key(e2));
        },
        _ => {},
    }
}

/// The canonical text of each kind of value: `null`, `true`, `false`, a number as its
/// text, a string as its literal, an array as `[` its items' texts joined by `,` `]`, and
/// an object as `{` its members' `"key":value` texts, in key order, joined by `,` `}`.
pub proof fn lemma_canonical_text_shape(v: JsonValue)
    ensures
        v is Null ==> canonical_text(v) == "null"@,
        v matches JsonValue::Bool(b) && b ==> canonical_text(v) == "true"@,
        v matches JsonValue::Bool(b) && !b ==> canonical_text(v) == "false"@,
        v is Number ==> canonical_text(v) == v->Number_0@,
        v is Str ==> canonical_text(v) == json_quoted(v->Str_0@),
        v is Array ==> canonical_text(v) == "["@ + join_texts(item_texts(v->Array_0@)) + "]"@,
        v is Object ==> canonical_text(v) == "{"@ + join_texts(
            crate::json::entry_texts(sort_by_key(member_entries(v->Object_0@))),
        ) + "}"@,
{
    reveal_strlit("null");
    reveal_strlit("true");
    reveal_strlit("false");
    reveal_strlit("[");
    reveal_strlit("]");
    reveal_strlit("{");
    reveal_strlit("}");
    match v {
        JsonValue::Null => {
            assert(canonical_text(v) =~= "null"@);
        },
        JsonValue::Bool(b) => {
            if b {
                assert(canonical_text(v) =~= "true"@);
            } else {
                assert(canonical_text(v) =~= "false"@);
            }
        },
        _ => {},
    }
}

/// Texts joined by commas: nothing for no texts, the text itself for one, and for more
/// the first ones joined, `,`, and the last.
pub proof fn lemma_join_texts_commas(ts: Seq<Seq<char>>)
    ensures
        ts.len() == 0 ==> join_texts(ts) == Seq::<char>::empty(),
        ts.len() == 1 ==> join_texts(ts) == ts[0],
        ts.len() > 1 ==> join_texts(ts) == join_texts(ts.drop_last()) + ","@ + ts.last(),
{
    reveal_strlit(",");
}

} // verus!
