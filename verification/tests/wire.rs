// No inspection server listens while these tests run, so every dispatch
// fails at the transport; the facade must swallow that silently, and the
// bodies it reports must still be exactly the documented wire text.

use ray_client::Ray;

const ORIGIN: &str = "{\"function_name\":\"\",\"file\":\"\",\"line_number\":\"\",\"hostname\":\"\"}";

#[test]
fn session_tokens_are_valid_and_distinct() {
    let mut tokens: Vec<String> = Vec::new();
    for _ in 0..100 {
        let ray = Ray::new();
        let token = ray.session_token().clone();
        assert!(!token.is_empty());
        assert_eq!(token.chars().count(), 36);
        assert!(!tokens.contains(&token));
        tokens.push(token);
    }
}

#[test]
fn fresh_facade_has_empty_payload_list() {
    let mut ray = Ray::new();
    let token = ray.session_token().clone();
    let body = ray.confetti();
    // One call on a fresh facade transmits exactly one entry, so the list
    // was empty before it.
    let expected = format!(
        "{{\"uuid\":\"{}\",\"payloads\":[{{\"type\":\"confetti\",\"origin\":{},\"content\":{{}}}}],\"meta\":{{}}}}",
        token, ORIGIN
    );
    assert_eq!(body, expected);
}

#[test]
fn cumulative_chain_retransmits_all_entries() {
    let mut ray = Ray::new();
    let token = ray.session_token().clone();
    let entry_log = format!(
        "{{\"type\":\"log\",\"origin\":{},\"content\":{{\"values\":[\"a\"],\"label\":\"Log\"}}}}",
        ORIGIN
    );
    let entry_color = format!(
        "{{\"type\":\"color\",\"origin\":{},\"content\":{{\"color\":\"red\"}}}}",
        ORIGIN
    );
    let entry_confetti = format!(
        "{{\"type\":\"confetti\",\"origin\":{},\"content\":{{}}}}",
        ORIGIN
    );
    let body1 = ray.log(vec!["a".to_string()]);
    assert_eq!(
        body1,
        format!("{{\"uuid\":\"{}\",\"payloads\":[{}],\"meta\":{{}}}}", token, entry_log)
    );
    let body2 = ray.color("red");
    assert_eq!(
        body2,
        format!(
            "{{\"uuid\":\"{}\",\"payloads\":[{},{}],\"meta\":{{}}}}",
            token, entry_log, entry_color
        )
    );
    let body3 = ray.confetti();
    assert_eq!(
        body3,
        format!(
            "{{\"uuid\":\"{}\",\"payloads\":[{},{},{}],\"meta\":{{}}}}",
            token, entry_log, entry_color, entry_confetti
        )
    );
}

#[test]
fn text_uses_custom_tag() {
    let mut ray = Ray::new();
    let token = ray.session_token().clone();
    let body = ray.text("hello".to_string());
    let expected = format!(
        "{{\"uuid\":\"{}\",\"payloads\":[{{\"type\":\"custom\",\"origin\":{},\"content\":{{\"content\":\"hello\",\"label\":\"Text\"}}}}],\"meta\":{{}}}}",
        token, ORIGIN
    );
    assert_eq!(body, expected);
}

#[test]
fn clear_all_uses_its_tag_and_empty_body() {
    let mut ray = Ray::new();
    let token = ray.session_token().clone();
    let body = ray.clear_all();
    let expected = format!(
        "{{\"uuid\":\"{}\",\"payloads\":[{{\"type\":\"clear_all\",\"origin\":{},\"content\":{{}}}}],\"meta\":{{}}}}",
        token, ORIGIN
    );
    assert_eq!(body, expected);
}

#[test]
fn log_with_no_values_serializes_empty_array() {
    let mut ray = Ray::new();
    let body = ray.log(Vec::new());
    assert!(body.contains("\"content\":{\"values\":[],\"label\":\"Log\"}"));
}

#[test]
fn log_preserves_value_order() {
    let mut ray = Ray::new();
    let body = ray.log(vec!["x".to_string(), "y".to_string(), "z".to_string()]);
    assert!(body.contains("\"values\":[\"x\",\"y\",\"z\"]"));
}

#[test]
fn special_characters_are_escaped() {
    let mut ray = Ray::new();
    let body = ray.text("a\"b\\c\nd\te\u{0001}f".to_string());
    assert!(body.contains("\"content\":\"a\\\"b\\\\c\\nd\\te\\u0001f\""));
}

#[test]
fn unicode_passes_through_unescaped() {
    let mut ray = Ray::new();
    let body = ray.text("caf\u{00E9} \u{263A}".to_string());
    assert!(body.contains("\"content\":\"caf\u{00E9} \u{263A}\""));
}

#[test]
fn transport_failure_is_invisible() {
    let mut ray = Ray::new();
    let token = ray.session_token().clone();
    let body1 = ray.text("first".to_string());
    let body2 = ray.text("second".to_string());
    // The failed first dispatch neither panicked nor disturbed the
    // envelope: the second body still opens with the same token and still
    // carries the first entry, in order, before the second.
    assert!(body2.starts_with(&format!("{{\"uuid\":\"{}\"", token)));
    assert!(body1.contains("\"content\":\"first\""));
    assert!(!body1.contains("\"content\":\"second\""));
    let first_at = body2.find("\"content\":\"first\"");
    let second_at = body2.find("\"content\":\"second\"");
    assert!(first_at.is_some() && second_at.is_some());
    assert!(first_at.unwrap() < second_at.unwrap());
}
