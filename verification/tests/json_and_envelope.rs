use geoproof::envelope::envelope_content;
use geoproof::json::is_json_text;

#[test]
fn json_accepts_documents() {
    assert!(is_json_text("null"));
    assert!(is_json_text("true"));
    assert!(is_json_text("false"));
    assert!(is_json_text("0"));
    assert!(is_json_text("-12.5e+3"));
    assert!(is_json_text("\"hi\\n\\u0041\""));
    assert!(is_json_text("[]"));
    assert!(is_json_text("[1, [2, {\"a\": null}], \"x\"]"));
    assert!(is_json_text("  { \"a\" : [ 1 , 2 ] , \"b\" : { } }  "));
}

#[test]
fn json_rejects_non_documents() {
    assert!(!is_json_text(""));
    assert!(!is_json_text("not json"));
    assert!(!is_json_text("{"));
    assert!(!is_json_text("01"));
    assert!(!is_json_text("1 2"));
    assert!(!is_json_text("{\"a\":1,}"));
    assert!(!is_json_text("[1,]"));
    assert!(!is_json_text("\"unterminated"));
    assert!(!is_json_text("{'a':1}"));
}

#[test]
fn envelope_extraction_finds_the_content() {
    let body = "{\"id\":\"c1\",\"object\":\"chat.completion\",\"choices\":[{\"index\":0,\"message\":{\"role\":\"assistant\",\"content\":\"hello\"},\"finish_reason\":\"stop\"}],\"usage\":{\"total_tokens\":12}}";
    assert_eq!(envelope_content(body).as_deref(), Some("hello"));
}

#[test]
fn envelope_extraction_decodes_escapes() {
    let body = "{\"choices\":[{\"message\":{\"content\":\"a\\nb \\u0041\"}}]}";
    assert_eq!(envelope_content(body).as_deref(), Some("a\nb A"));
}

#[test]
fn json_accepts_surrogate_pair_escapes_only_paired() {
    assert!(is_json_text("\"\\ud83d\\ude00\""));
    assert!(!is_json_text("\"\\ud83d\""));
    assert!(!is_json_text("\"\\ude00\""));
    assert!(!is_json_text("\"\\ud83d\\u0041\""));
}

#[test]
fn envelope_extraction_decodes_surrogate_pairs() {
    let body = "{\"choices\":[{\"message\":{\"content\":\"\\uD83D\\uDE00!\"}}]}";
    assert_eq!(envelope_content(body).as_deref(), Some("\u{1F600}!"));
}

#[test]
fn envelope_extraction_takes_the_last_duplicate_member() {
    let body = "{\"choices\":false,\"choices\":[{\"message\":{\"content\":\"x\"}}]}";
    assert_eq!(envelope_content(body).as_deref(), Some("x"));
    let body2 = "{\"choices\":[{\"message\":{\"content\":\"first\"}}],\"choices\":[{\"message\":{\"content\":\"second\"}}]}";
    assert_eq!(envelope_content(body2).as_deref(), Some("second"));
}

#[test]
fn envelope_extraction_survives_trailing_members() {
    let body = "{\"choices\":[{\"message\":{\"content\":\"x\",\"role\":\"assistant\"}}],\"usage\":{\"total_tokens\":9}}";
    assert_eq!(envelope_content(body).as_deref(), Some("x"));
}

#[test]
fn envelope_extraction_handles_whitespace() {
    let body = " { \"choices\" : [ { \"message\" : { \"content\" : \"x\" } } ] } ";
    assert_eq!(envelope_content(body).as_deref(), Some("x"));
}

#[test]
fn envelope_extraction_fails_without_string_content() {
    assert!(envelope_content("{\"choices\":[{\"message\":{\"content\":7}}]}").is_none());
    assert!(envelope_content("{\"choices\":[{\"message\":{\"other\":\"x\"}}]}").is_none());
    assert!(envelope_content("{\"choices\":[]}").is_none());
    assert!(envelope_content("{\"nochoices\":1}").is_none());
    assert!(envelope_content("[]").is_none());
    assert!(envelope_content("broken").is_none());
    assert!(envelope_content("{\"choices\":[{\"message\":{\"content\":\"x\"}}]} trailing").is_none());
}

#[test]
fn greeting_embeds_the_name() {
    assert_eq!(geoproof::greet("World"), "Hello, World! You've been greeted from Rust!");
}
