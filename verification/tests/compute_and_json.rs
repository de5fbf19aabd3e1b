use job_orchestrator::compute::{checksum_fnv1a64, expected_result, verify_compute_output, ComputeOutput};
use job_orchestrator::job::VerificationStatus;
use job_orchestrator::json::{canonical_json, JsonMember, JsonValue};

fn s(text: &str) -> String {
    text.to_string()
}

fn member(key: &str, value: JsonValue) -> JsonMember {
    JsonMember { key: s(key), value }
}

#[test]
fn fnv_checksum_of_empty_input_is_the_offset_basis() {
    assert_eq!(checksum_fnv1a64(""), "cbf29ce484222325");
}

#[test]
fn fnv_checksum_known_values() {
    assert_eq!(checksum_fnv1a64("a"), "af63dc4c8601ec8c");
    assert_eq!(checksum_fnv1a64("processed|sum|YWJj"), "58c3b88823a8f784");
}

#[test]
fn expected_result_format() {
    assert_eq!(expected_result("sum", "YWJj"), "processed|sum|YWJj");
}

#[test]
fn honest_compute_output_is_verified() {
    let out = ComputeOutput {
        result: s("processed|echo|e30="),
        checksum: s("b91c5cf96b11789b"),
        algorithm: s("fnv1a-64"),
    };
    assert_eq!(verify_compute_output(&out, "echo", "e30="), VerificationStatus::Verified);
}

#[test]
fn tampered_compute_output_is_invalid() {
    let wrong_checksum = ComputeOutput {
        result: s("processed|echo|e30="),
        checksum: s("0000000000000000"),
        algorithm: s("fnv1a-64"),
    };
    assert_eq!(verify_compute_output(&wrong_checksum, "echo", "e30="), VerificationStatus::Invalid);
    let wrong_algorithm = ComputeOutput {
        result: s("processed|echo|e30="),
        checksum: s("b91c5cf96b11789b"),
        algorithm: s("sha256"),
    };
    assert_eq!(verify_compute_output(&wrong_algorithm, "echo", "e30="), VerificationStatus::Invalid);
    let wrong_result = ComputeOutput {
        result: s("processed|echo|e31="),
        checksum: s("b91c5cf96b11789b"),
        algorithm: s("fnv1a-64"),
    };
    assert_eq!(verify_compute_output(&wrong_result, "echo", "e30="), VerificationStatus::Invalid);
}

#[test]
fn canonical_json_of_scalars() {
    assert_eq!(canonical_json(&JsonValue::Null), "null");
    assert_eq!(canonical_json(&JsonValue::Bool(true)), "true");
    assert_eq!(canonical_json(&JsonValue::Bool(false)), "false");
    assert_eq!(canonical_json(&JsonValue::Number(s("-1.5"))), "-1.5");
    assert_eq!(canonical_json(&JsonValue::Str(s("hi"))), "\"hi\"");
}

#[test]
fn canonical_json_escapes_strings_like_serde_json() {
    let text = "q\"b\\n\nt\tc\u{1}e\u{1f}é";
    assert_eq!(
        canonical_json(&JsonValue::Str(s(text))),
        "\"q\\\"b\\\\n\\nt\\tc\\u0001e\\u001fé\""
    );
}

#[test]
fn canonical_json_sorts_object_keys() {
    let value = JsonValue::Object(vec![
        member(
            "b",
            JsonValue::Array(vec![JsonValue::Bool(true), JsonValue::Null, JsonValue::Str(s("x\"y"))]),
        ),
        member("a", JsonValue::Number(s("1"))),
    ]);
    assert_eq!(canonical_json(&value), "{\"a\":1,\"b\":[true,null,\"x\\\"y\"]}");
}

#[test]
fn canonical_json_ignores_member_order() {
    let one = JsonValue::Object(vec![
        member("zeta", JsonValue::Number(s("3"))),
        member("Alpha", JsonValue::Object(vec![member("y", JsonValue::Null), member("x", JsonValue::Null)])),
        member("alpha", JsonValue::Array(vec![])),
    ]);
    let two = JsonValue::Object(vec![
        member("alpha", JsonValue::Array(vec![])),
        member("zeta", JsonValue::Number(s("3"))),
        member("Alpha", JsonValue::Object(vec![member("x", JsonValue::Null), member("y", JsonValue::Null)])),
    ]);
    let text = canonical_json(&one);
    assert_eq!(text, canonical_json(&two));
    assert_eq!(text, "{\"Alpha\":{\"x\":null,\"y\":null},\"alpha\":[],\"zeta\":3}");
}

#[test]
fn canonical_json_orders_keys_by_bytes() {
    let value = JsonValue::Object(vec![
        member("é", JsonValue::Null),
        member("z", JsonValue::Null),
        member("", JsonValue::Null),
        member("ab", JsonValue::Null),
        member("a", JsonValue::Null),
    ]);
    assert_eq!(canonical_json(&value), "{\"\":null,\"a\":null,\"ab\":null,\"z\":null,\"é\":null}");
}

#[test]
fn canonical_json_of_empty_containers() {
    assert_eq!(canonical_json(&JsonValue::Object(vec![])), "{}");
    assert_eq!(canonical_json(&JsonValue::Array(vec![])), "[]");
}
