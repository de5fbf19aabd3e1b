//! JSON values as the orchestrator sees them, and their canonical text: object
//! members ordered by the bytes of their keys, no insignificant whitespace, strings
//! escaped as serde_json escapes them.

use vstd::prelude::*;
use vstd::utf8::encode_utf8;
use crate::text::hex_char;

verus! {

/// A JSON value. Numbers are held as the text that serde_json prints for them.
pub enum JsonValue {
    Null,
    Bool(bool),
    Number(String),
    Str(String),
    Array(Vec<JsonValue>),
    Object(Vec<JsonMember>),
}

/// One member of a JSON object.
pub struct JsonMember {
    pub key: String,
    pub value: JsonValue,
}

/// Whether no two members of an object share a key.
pub open spec fn distinct_keys(ms: Seq<JsonMember>) -> bool {
    forall|i: int, j: int| 0 <= i < ms.len() && 0 <= j < ms.len() && ms[i].key@ == ms[j].key@ ==> i == j
}

/// Whether `c` closes a value inside a JSON text: `,`, `]` or `}`.
pub open spec fn is_closer(c: char) -> bool {
    c == ',' || c == ']' || c == '}'
}

/// Whether a text is a number as serde_json prints one: it starts with `-` or a digit,
/// and holds no `,`, `]` or `}`.
pub open spec fn number_text_ok(t: Seq<char>) -> bool {
    &&& t.len() > 0
    &&& (t[0] == '-' || ('0' <= t[0] && t[0] <= '9'))
    &&& forall|i: int| 0 <= i < t.len() ==> !is_closer(#[trigger] t[i])
}

/// Well-formedness of a JSON value as serde_json holds one: at every depth, number
/// texts are as serde_json prints them and no two members of an object share a key.
pub open spec fn json_wf(v: JsonValue) -> bool
    decreases v,
{
    match v {
        JsonValue::Number(n) => number_text_ok(n@),
        JsonValue::Array(items) => forall|i: int| 0 <= i < items@.len() ==> json_wf(#[trigger] items@[i]),
        JsonValue::Object(ms) => distinct_keys(ms@) && forall|i: int|
            0 <= i < ms@.len() ==> json_wf(#[trigger] ms@[i].value),
        _ => true,
    }
}

/// Whether two JSON values are the same up to the order in which object members are
/// given, at every depth: arrays item by item in order, objects with as many members
/// and, for each member of the first, a member of the second with its key and an
/// equivalent value.
pub open spec fn json_equiv(a: JsonValue, b: JsonValue) -> bool
    decreases a,
{
    match a {
        JsonValue::Null => b is Null,
        JsonValue::Bool(x) => b matches JsonValue::Bool(y) && x == y,
        JsonValue::Number(x) => b matches JsonValue::Number(y) && x@ == y@,
        JsonValue::Str(x) => b matches JsonValue::Str(y) && x@ == y@,
        JsonValue::Array(xs) => b matches JsonValue::Array(ys) && xs@.len() == ys@.len() && forall|i: int|
            0 <= i < xs@.len() ==> json_equiv(#[trigger] xs@[i], ys@[i]),
        JsonValue::Object(ms) => b matches JsonValue::Object(ns) && ms@.len() == ns@.len() && forall|i: int|
            #![trigger ms@[i]]
            0 <= i < ms@.len() ==> exists|j: int|
                0 <= j < ns@.len() && (#[trigger] ns@[j]).key@ == ms@[i].key@ && json_equiv(
                    ms@[i].value,
                    ns@[j].value,
                ),
    }
}

/// A member as it takes part in sorting: the UTF-8 bytes of its key and its text.
pub type Entry = (Seq<u8>, Seq<char>);

/// Strict lexicographic order on byte strings, the order of `String`'s `Ord`.
pub open spec fn bytes_lt(a: Seq<u8>, b: Seq<u8>) -> bool
    decreases a.len(),
{
    if a.len() == 0 {
        b.len() > 0
    } else if b.len() == 0 {
        false
    } else if a[0] != b[0] {
        a[0] < b[0]
    } else {
        bytes_lt(a.drop_first(), b.drop_first())
    }
}

/// How serde_json writes one character inside a string literal.
pub open spec fn json_escape_char(c: char) -> Seq<char> {
    if c == '"' {
        seq!['\\', '"']
    } else if c == '\\' {
        seq!['\\', '\\']
    } else if c == '\x08' {
        seq!['\\', 'b']
    } else if c == '\t' {
        seq!['\\', 't']
    } else if c == '\n' {
        seq!['\\', 'n']
    } else if c == '\x0c' {
        seq!['\\', 'f']
    } else if c == '\r' {
        seq!['\\', 'r']
    } else if (c as int) < 0x20 {
        seq!['\\', 'u', '0', '0', hex_char((c as int) / 16), hex_char((c as int) % 16)]
    } else {
        seq![c]
    }
}

/// The escaped body of a string literal.
pub open spec fn json_escaped(s: Seq<char>) -> Seq<char>
    decreases s.len(),
{
    if s.len() == 0 {
        Seq::empty()
    } else {
        json_escaped(s.drop_last()) + json_escape_char(s.last())
    }
}

/// A string as a JSON string literal.
pub open spec fn json_quoted(s: Seq<char>) -> Seq<char> {
    seq!['"'] + json_escaped(s) + seq!['"']
}

/// Texts joined by commas.
pub open spec fn join_texts(ts: Seq<Seq<char>>) -> Seq<char>
    decreases ts.len(),
{
    if ts.len() == 0 {
        Seq::empty()
    } else if ts.len() == 1 {
        ts[0]
    } else {
        join_texts(ts.drop_last()) + seq![','] + ts.last()
    }
}

/// Inserts `e` into `sorted` after every entry whose key is not greater than its own.
pub open spec fn insert_by_key(sorted: Seq<Entry>, e: Entry) -> Seq<Entry>
    decreases sorted.len(),
{
    if sorted.len() == 0 {
        seq![e]
    } else if bytes_lt(e.0, sorted.last().0) {
        insert_by_key(sorted.drop_last(), e).push(sorted.last())
    } else {
        sorted.push(e)
    }
}

/// Stable sort of entries by key bytes.
pub open spec fn sort_by_key(es: Seq<Entry>) -> Seq<Entry>
    decreases es.len(),
{
    if es.len() == 0 {
        Seq::empty()
    } else {
        insert_by_key(sort_by_key(es.drop_last()), es.last())
    }
}

/// The texts of a sequence of entries.
pub open spec fn entry_texts(es: Seq<Entry>) -> Seq<Seq<char>> {
    es.map_values(|e: Entry| e.1)
}

/// Canonical text of a JSON value.
pub open spec fn canonical_text(v: JsonValue) -> Seq<char>
    decreases v,
{
    match v {
        JsonValue::Null => seq!['n', 'u', 'l', 'l'],
        JsonValue::Bool(b) => if b {
            seq!['t', 'r', 'u', 'e']
        } else {
            seq!['f', 'a', 'l', 's', 'e']
        },
        JsonValue::Number(n) => n@,
        JsonValue::Str(s) => json_quoted(s@),
        JsonValue::Array(items) => seq!['['] + join_texts(item_texts(items@)) + seq![']'],
        JsonValue::Object(members) => seq!['{'] + join_texts(
            entry_texts(sort_by_key(member_entries(members@))),
        ) + seq!['}'],
    }
}

/// Canonical texts of array items, in order.
pub open spec fn item_texts(items: Seq<JsonValue>) -> Seq<Seq<char>>
    decreases items,
{
    if items.len() == 0 {
        Seq::empty()
    } else {
        item_texts(items.subrange(0, items.len() - 1)).push(
            canonical_text(items[items.len() - 1]),
        )
    }
}

/// Object members as entries: key bytes, and `"key":value` text.
pub open spec fn member_entries(ms: Seq<JsonMember>) -> Seq<Entry>
    decreases ms,
{
    if ms.len() == 0 {
        Seq::empty()
    } else {
        let m = ms[ms.len() - 1];
        member_entries(ms.subrange(0, ms.len() - 1)).push(
            (encode_utf8(m.key@), json_quoted(m.key@) + seq![':'] + canonical_text(m.value)),
        )
    }
}


/// The view of the exec entries used while sorting.
pub open spec fn entries_view(v: Seq<(&[u8], String)>) -> Seq<Entry> {
    v.map_values(|e: (&[u8], String)| (e.0@, e.1@))
}

proof fn lemma_bytes_lt_skip(a: Seq<u8>, b: Seq<u8>, i: int)
    requires
        0 <= i < a.len(),
        i < b.len(),
        a[i] == b[i],
    ensures
        bytes_lt(a.skip(i), b.skip(i)) == bytes_lt(a.skip(i + 1), b.skip(i + 1)),
{
    assert(a.skip(i).drop_first() =~= a.skip(i + 1));
    assert(b.skip(i).drop_first() =~= b.skip(i + 1));
}

/// Byte-lexicographic comparison of two byte strings.
#[verifier::loop_isolation(false)]
pub fn bytes_less(a: &[u8], b: &[u8]) -> (res: bool)
    ensures
        res == bytes_lt(a@, b@),
        res <==> ({
            ||| exists|k: int|
                0 <= k < a@.len() && k < b@.len() && a@.take(k) == b@.take(k) && #[trigger] a@[k] < b@[k]
            ||| a@.len() < b@.len() && b@.take(a@.len() as int) == a@
        }),
{
    proof {
        crate::json_laws::lemma_bytes_lt_lexicographic(a@, b@);
    }
    let mut i: usize = 0;
    assert(a@.skip(0) =~= a@);
    assert(b@.skip(0) =~= b@);
    while i < a.len() && i < b.len()
        invariant
            i <= a@.len(),
            i <= b@.len(),
            bytes_lt(a@, b@) == bytes_lt(a@.skip(i as int), b@.skip(i as int)),
        decreases a@.len() - i,
    {
        if a[i] != b[i] {
            return a[i] < b[i];
        }
        proof {
            lemma_bytes_lt_skip(a@, b@, i as int);
        }
        i = i + 1;
    }
    i < b.len()
}

proof fn lemma_insert_at(s: Seq<Entry>, e: Entry, pos: int)
    requires
        0 <= pos <= s.len(),
        forall|j: int| pos <= j < s.len() ==> bytes_lt(e.0, #[trigger] s[j].0),
        pos > 0 ==> !bytes_lt(e.0, s[pos - 1].0),
    ensures
        insert_by_key(s, e) == s.take(pos) + seq![e] + s.skip(pos),
    decreases s.len(),
{
    if s.len() == 0 {
        assert(s.take(pos) + seq![e] + s.skip(pos) =~= seq![e]);
    } else if pos == s.len() {
        assert(s.take(pos) + seq![e] + s.skip(pos) =~= s.push(e));
    } else {
        assert(bytes_lt(e.0, s[s.len() - 1].0));
        let d = s.drop_last();
        lemma_insert_at(d, e, pos);
        assert(d.take(pos) + seq![e] + d.skip(pos) + seq![s.last()] =~= s.take(pos) + seq![e]
            + s.skip(pos));
    }
}

/// Inserts `e` into `sorted` at the place that `insert_by_key` gives it.
fn insert_entry<'a>(sorted: &mut Vec<(&'a [u8], String)>, e: (&'a [u8], String))
    ensures
        entries_view(final(sorted)@) == insert_by_key(entries_view(old(sorted)@), (e.0@, e.1@)),
{
    let ghost s = entries_view(sorted@);
    let mut pos = sorted.len();
    let mut moving = true;
    while moving && pos > 0
        invariant
            pos <= sorted@.len(),
            s == entries_view(sorted@),
            forall|j: int| pos <= j < s.len() ==> bytes_lt(e.0@, #[trigger] s[j].0),
            !moving ==> pos > 0 && !bytes_lt(e.0@, s[pos - 1].0),
        decreases (if moving { pos as int + 1 } else { 0 }),
    {
        if bytes_less(e.0, sorted[pos - 1].0) {
            pos = pos - 1;
        } else {
            moving = false;
        }
    }
    proof {
        lemma_insert_at(s, (e.0@, e.1@), pos as int);
    }
    sorted.insert(pos, e);
    assert(entries_view(sorted@) =~= s.take(pos as int) + seq![(e.0@, e.1@)] + s.skip(pos as int));
}

/// serde_json's rendering of a string as a JSON string literal.
///
/// Trusted: `serde_json::to_string` on a `str`, which writes the string between
/// double quotes, escaping `"` and `\` with a backslash, the control characters
/// U+0008, U+0009, U+000A, U+000C, U+000D as `\b \t \n \f \r`, the other characters
/// below U+0020 as `\u00XX` with lowercase hex, and every other character as itself.
/// Writing into a `Vec` never fails, so the result is always `Some`.
#[verifier::external_body]
fn json_quote(s: &str) -> (res: Option<String>)
    ensures
        res is Some,
        res->0@ == json_quoted(s@),
{
    serde_json::to_string(s).ok()
}

fn quoted_or_empty(s: &str) -> (res: String)
    ensures
        res@ == json_quoted(s@),
{
    match json_quote(s) {
        Some(q) => q,
        None => String::from_str("\"\""),
    }
}

proof fn lemma_join_push(ts: Seq<Seq<char>>, t: Seq<char>)
    ensures
        join_texts(ts.push(t)) == if ts.len() == 0 {
            t
        } else {
            join_texts(ts) + seq![','] + t
        },
{
    assert(ts.push(t).drop_last() =~= ts);
}

/// The canonical text of a JSON value: `null`, `true`, `false`, numbers as they are
/// written, strings quoted, arrays in order, and objects with their members ordered
/// by the UTF-8 bytes of their keys, all without whitespace.
#[verifier::loop_isolation(false)]
pub fn canonical_json(value: &JsonValue) -> (res: String)
    ensures
        res@ == canonical_text(*value),
    decreases value,
{
    match value {
        JsonValue::Null => {
            let r = String::from_str("null");
            proof { reveal_strlit("null"); }
            assert(r@ =~= seq!['n', 'u', 'l', 'l']);
            r
        },
        JsonValue::Bool(b) => {
            if *b {
                let r = String::from_str("true");
                proof { reveal_strlit("true"); }
                assert(r@ =~= seq!['t', 'r', 'u', 'e']);
                r
            } else {
                let r = String::from_str("false");
                proof { reveal_strlit("false"); }
                assert(r@ =~= seq!['f', 'a', 'l', 's', 'e']);
                r
            }
        },
        JsonValue::Number(n) => n.clone(),
        JsonValue::Str(s) => quoted_or_empty(s.as_str()),
        JsonValue::Array(items) => {
            let mut out = String::from_str("[");
            proof { reveal_strlit("["); reveal_strlit(","); reveal_strlit("]"); }
            let ghost texts: Seq<Seq<char>> = Seq::empty();
            let mut i: usize = 0;
            while i < items.len()
                invariant
                    i <= items@.len(),
                    texts == item_texts(items@.take(i as int)),
                    out@ == seq!['['] + join_texts(texts),
                decreases items@.len() - i,
            {
                proof {
                    assert(decreases_to!(*value => items@[i as int]));
                }
                let t = canonical_json(&items[i]);
                proof {
                    lemma_join_push(texts, t@);
                    assert(items@.take((i + 1) as int).subrange(0, i as int) =~= items@.take(i as int));
                }
                if i > 0 {
                    out.append(",");
                }
                out.append(t.as_str());
                proof {
                    texts = texts.push(t@);
                }
                assert(out@ =~= seq!['['] + join_texts(texts));
                i = i + 1;
            }
            assert(items@.take(i as int) =~= items@);
            out.append("]");
            assert(out@ =~= canonical_text(*value));
            out
        },
        JsonValue::Object(members) => {
            let mut sorted: Vec<(&[u8], String)> = Vec::new();
            let ghost es: Seq<Entry> = Seq::empty();
            let mut i: usize = 0;
            while i < members.len()
                invariant
                    i <= members@.len(),
                    es == member_entries(members@.take(i as int)),
                    entries_view(sorted@) == sort_by_key(es),
                decreases members@.len() - i,
            {
                let m = &members[i];
                let mut text = quoted_or_empty(m.key.as_str());
                text.append(":");
                proof { reveal_strlit(":"); }
                proof {
                    assert(decreases_to!(*value => members@[i as int].value));
                }
                let v = canonical_json(&m.value);
                text.append(v.as_str());
                let e = (m.key.as_str().as_bytes(), text);
                let ghost ev: Entry = (e.0@, e.1@);
                proof {
                    assert(members@.take((i + 1) as int).subrange(0, i as int) =~= members@.take(i as int));
                    assert(ev.0 == encode_utf8(members@[i as int].key@));
                    assert(ev.1 =~= json_quoted(members@[i as int].key@) + seq![':'] + canonical_text(members@[i as int].value));
                    assert(es.push(ev).drop_last() =~= es);
                    es = es.push(ev);
                }
                insert_entry(&mut sorted, e);
                i = i + 1;
            }
            assert(members@.take(i as int) =~= members@);
            let mut out = String::from_str("{");
            proof { reveal_strlit("{"); reveal_strlit(","); reveal_strlit("}"); }
            let ghost texts: Seq<Seq<char>> = Seq::empty();
            let mut k: usize = 0;
            while k < sorted.len()
                invariant
                    k <= sorted@.len(),
                    texts == entry_texts(entries_view(sorted@)).take(k as int),
                    out@ == seq!['{'] + join_texts(texts),
                decreases sorted@.len() - k,
            {
                proof {
                    lemma_join_push(texts, sorted@[k as int].1@);
                    assert(entry_texts(entries_view(sorted@)).take((k + 1) as int) =~= texts.push(sorted@[k as int].1@));
                }
                if k > 0 {
                    out.append(",");
                }
                out.append(sorted[k].1.as_str());
                proof {
                    texts = texts.push(sorted@[k as int].1@);
                }
                assert(out@ =~= seq!['{'] + join_texts(texts));
                k = k + 1;
            }
            assert(entry_texts(entries_view(sorted@)).take(k as int) =~= entry_texts(entries_view(sorted@)));
            out.append("}");
            assert(out@ =~= canonical_text(*value));
            out
        },
    }
}

// ---------------------------------------------------------------------------
// Parsing, by serde_json.
// ---------------------------------------------------------------------------

#[verifier::external_type_specification]
#[verifier::external_body]
pub struct ExSerdeJsonValue(serde_json::Value);

/// What `serde_json::from_str::<serde_json::Value>` makes of a text, as a JSON value of
/// this library; `None` where serde_json refuses the text.
pub uninterp spec fn json_parse_of(text: Seq<char>) -> Option<JsonValue>;

/// Trusted: moves a serde_json value into this library's JSON value, variant for
/// variant: numbers as serde_json prints them, object members in the order of
/// serde_json's map. Nothing is stated of it on its own; it serves `json_parse`, whose
/// named result covers what it gives.
#[verifier::external_body]
fn json_value_from_serde(value: serde_json::Value) -> JsonValue {
    match value {
        serde_json::Value::Null => JsonValue::Null,
        serde_json::Value::Bool(b) => JsonValue::Bool(b),
        serde_json::Value::Number(n) => JsonValue::Number(n.to_string()),
        serde_json::Value::String(s) => JsonValue::Str(s),
        serde_json::Value::Array(items) => JsonValue::Array(items.into_iter().map(json_value_from_serde).collect()),
        serde_json::Value::Object(map) => JsonValue::Object(
            map.into_iter().map(|(key, v)| JsonMember { key, value: json_value_from_serde(v) }).collect(),
        ),
    }
}

/// Trusted: `serde_json::from_str::<serde_json::Value>(text)`, the value moved into this
/// library's JSON value. The outcome, a function of the text alone, is named
/// `json_parse_of`. The value is well-formed at every depth: serde_json's `Map` holds
/// each key once (a `BTreeMap`, or an `IndexMap` under its `preserve_order` feature),
/// and a `Number` prints as an optional `-`, digits, and a fraction or exponent part.
/// On failure the error's text is returned, and what that text says is not stated.
#[verifier::external_body]
fn json_parse(text: &str) -> (res: Result<JsonValue, String>)
    ensures
        res is Ok <==> json_parse_of(text@) is Some,
        res is Ok ==> json_parse_of(text@) == Some(res->Ok_0),
        res is Ok ==> json_wf(res->Ok_0),
{
    match serde_json::from_str::<serde_json::Value>(text) {
        Ok(v) => Ok(json_value_from_serde(v)),
        Err(e) => Err(e.to_string()),
    }
}

/// The JSON value of a payload text: an empty text is the empty object; any other text
/// is what serde_json parses it to, or serde_json's error text when it refuses it.
pub fn parse_payload_json(payload_json: &str) -> (res: Result<JsonValue, String>)
    ensures
        payload_json@.len() == 0 ==> res is Ok && res->Ok_0 is Object && res->Ok_0->Object_0@.len() == 0,
        payload_json@.len() > 0 ==> (res is Ok <==> json_parse_of(payload_json@) is Some),
        payload_json@.len() > 0 && res is Ok ==> json_parse_of(payload_json@) == Some(res->Ok_0),
        res is Ok ==> json_wf(res->Ok_0),
{
    if payload_json.unicode_len() == 0 {
        let empty: Vec<JsonMember> = Vec::new();
        Ok(JsonValue::Object(empty))
    } else {
        json_parse(payload_json)
    }
}

} // verus!
