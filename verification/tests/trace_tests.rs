use auto_commit_msg::text::u64_to_dec;
use auto_commit_msg::trace::{escape_json_str, format_centis, render_trace_json, TraceData};

#[test]
fn decimal_rendering() {
    assert_eq!(u64_to_dec(0), "0");
    assert_eq!(u64_to_dec(7), "7");
    assert_eq!(u64_to_dec(42), "42");
    assert_eq!(u64_to_dec(1000000), "1000000");
    assert_eq!(u64_to_dec(u64::MAX), "18446744073709551615");
}

#[test]
fn centiseconds_with_two_decimals() {
    assert_eq!(format_centis(0), "0.00");
    assert_eq!(format_centis(5), "0.05");
    assert_eq!(format_centis(123), "1.23");
    assert_eq!(format_centis(12345), "123.45");
    assert_eq!(format_centis(100), "1.00");
}

#[test]
fn escaping_plain_text_is_identity() {
    assert_eq!(escape_json_str("gemini-2.5-flash"), "gemini-2.5-flash");
}

#[test]
fn escaping_specials() {
    assert_eq!(escape_json_str("a\"b\\c\nd"), "a\\\"b\\\\c\\nd");
    assert_eq!(escape_json_str("\t\r"), "\\t\\r");
    assert_eq!(escape_json_str("\u{1}"), "\\u0001");
    assert_eq!(escape_json_str("\u{1f}"), "\\u001f");
}

#[test]
fn trace_block_exact_text() {
    let t = TraceData {
        model: "gemini-2.5-flash".to_string(),
        response_centis: 123,
        execution_centis: 4567,
    };
    let s = render_trace_json(&t);
    assert_eq!(
        s,
        "{\"auto-commit-msg\":{\"language\":\"rust\",\"model\":\"gemini-2.5-flash\",\"response_time\":1.23,\"execution_time\":45.67}}"
    );
}

#[test]
fn trace_block_is_valid_json_with_four_fields() {
    let t = TraceData {
        model: "model \"x\"\\y".to_string(),
        response_centis: 8,
        execution_centis: 90210,
    };
    let s = render_trace_json(&t);
    let v: serde_json::Value = serde_json::from_str(&s).unwrap();
    let wrapper = v.as_object().unwrap();
    assert_eq!(wrapper.len(), 1);
    let inner = wrapper.get("auto-commit-msg").unwrap().as_object().unwrap();
    assert_eq!(inner.len(), 4);
    assert_eq!(inner.get("language").unwrap().as_str().unwrap(), "rust");
    assert_eq!(
        inner.get("model").unwrap().as_str().unwrap(),
        "model \"x\"\\y"
    );
    assert_eq!(inner.get("response_time").unwrap().as_f64().unwrap(), 0.08);
    assert_eq!(
        inner.get("execution_time").unwrap().as_f64().unwrap(),
        902.10
    );
}
