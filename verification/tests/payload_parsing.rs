use job_orchestrator::crypto::{hash_payload, sign_metadata, verify_metadata, ServerKeys};
use job_orchestrator::ids::parse_job_id;
use job_orchestrator::json::{canonical_json, parse_payload_json, JsonMember, JsonValue};

const KEY_HEX: &str = "0202020202020202020202020202020202020202020202020202020202020202";

#[test]
fn empty_payload_text_is_the_empty_object() {
    match parse_payload_json("") {
        Ok(JsonValue::Object(members)) => assert!(members.is_empty()),
        _ => panic!("expected the empty object"),
    }
}

#[test]
fn payload_text_is_parsed_by_serde_json() {
    let value = parse_payload_json(r#"{"b": [1, 2.5, "x"], "a": {"z": null, "y": true}}"#).ok().unwrap();
    assert_eq!(canonical_json(&value), r#"{"a":{"y":true,"z":null},"b":[1,2.5,"x"]}"#);
}

#[test]
fn malformed_payload_text_is_refused() {
    let err = parse_payload_json("{\"a\": ").err().unwrap();
    assert!(!err.is_empty());
    assert!(parse_payload_json("not json").is_err());
}

#[test]
fn nested_member_order_does_not_change_the_hash() {
    let one = parse_payload_json(r#"{"outer": {"p": 1, "q": [{"s": 2, "r": 3}]}, "t": "u"}"#).ok().unwrap();
    let two = parse_payload_json(r#"{"t": "u", "outer": {"q": [{"r": 3, "s": 2}], "p": 1}}"#).ok().unwrap();
    assert_eq!(hash_payload(&one), hash_payload(&two));
    let inner = |a: &str, b: &str| {
        JsonValue::Object(vec![
            JsonMember { key: a.to_string(), value: JsonValue::Number("1".to_string()) },
            JsonMember { key: b.to_string(), value: JsonValue::Number("2".to_string()) },
        ])
    };
    let x = JsonValue::Array(vec![inner("a", "b")]);
    let y = JsonValue::Array(vec![JsonValue::Object(vec![
        JsonMember { key: "b".to_string(), value: JsonValue::Number("2".to_string()) },
        JsonMember { key: "a".to_string(), value: JsonValue::Number("1".to_string()) },
    ])]);
    assert_eq!(hash_payload(&x), hash_payload(&y));
}

#[test]
fn payload_hash_is_64_lowercase_hex_digits() {
    let h = hash_payload(&JsonValue::Str("anything".to_string()));
    assert_eq!(h.len(), 64);
    assert!(h.chars().all(|c| c.is_ascii_digit() || ('a'..='f').contains(&c)));
}

#[test]
fn a_signature_made_here_verifies_under_the_public_key() {
    let keys = ServerKeys::from_hex(KEY_HEX).ok().unwrap();
    for (id, job_type, hash) in [(1u128, "sum", "00ff"), (u128::MAX, "echo", ""), (42, "hash", "abc|def")] {
        let sig = sign_metadata(&keys.secret, id, job_type, hash);
        assert!(matches!(verify_metadata(&keys.public_key, id, job_type, hash, &sig), Ok(true)));
    }
}

#[test]
fn malformed_job_ids_are_refused() {
    for text in ["zz", "", "00000000-0000-0000-0000-00000000000", "g0000000-0000-0000-0000-000000000000"] {
        let err = parse_job_id(text).err().unwrap();
        assert_eq!(err.message, "invalid job_id format");
    }
    assert_eq!(parse_job_id("00000000000000000000000000000010").ok(), Some(16));
}

#[test]
fn different_payloads_have_different_canonical_text() {
    let texts = [
        r#"{"a": [1, 2]}"#,
        r#"{"a": [2, 1]}"#,
        r#"{"a": "1,2"}"#,
        r#"{"a,": 1}"#,
        r#"[{"a": 1}, {}]"#,
        r#"[{"a": 1, "": {}}]"#,
        r#""a\"b""#,
        r#"["a", "b"]"#,
    ];
    let canon: Vec<String> = texts.iter().map(|t| canonical_json(&parse_payload_json(t).ok().unwrap())).collect();
    for i in 0..canon.len() {
        for j in 0..canon.len() {
            assert_eq!(canon[i] == canon[j], i == j, "{} / {}", texts[i], texts[j]);
        }
    }
}
