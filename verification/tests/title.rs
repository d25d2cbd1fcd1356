use codeg::title_gen::title::{
    build_user_content, sanitize_title, title_from_response_body, truncate_chars, MAX_INPUT_CHARS,
    MAX_TITLE_CHARS,
};

#[test]
fn sanitize_strips_surrounding_double_quotes() {
    assert_eq!(
        sanitize_title("\"Fix Login Bug\""),
        Some("Fix Login Bug".to_string())
    );
}

#[test]
fn sanitize_strips_surrounding_single_quotes() {
    assert_eq!(
        sanitize_title("'Add Dark Mode'"),
        Some("Add Dark Mode".to_string())
    );
}

#[test]
fn sanitize_drops_trailing_period() {
    assert_eq!(
        sanitize_title("Refactor Auth Module."),
        Some("Refactor Auth Module".to_string())
    );
    // Multiple trailing periods / ellipsis.
    assert_eq!(
        sanitize_title("Setup CI Pipeline..."),
        Some("Setup CI Pipeline".to_string())
    );
}

#[test]
fn sanitize_collapses_whitespace() {
    assert_eq!(
        sanitize_title("  Build   Docker   Image \n"),
        Some("Build Docker Image".to_string())
    );
}

#[test]
fn sanitize_clamps_long_output_to_six_words() {
    let raw = "One Two Three Four Five Six Seven Eight Nine Ten";
    assert_eq!(
        sanitize_title(raw),
        Some("One Two Three Four Five Six".to_string())
    );
}

#[test]
fn sanitize_clamps_long_char_count() {
    // A single 100-char "word" must be clamped to MAX_TITLE_CHARS.
    let raw = "a".repeat(100);
    let out = sanitize_title(&raw).unwrap();
    assert!(out.chars().count() <= MAX_TITLE_CHARS, "got {out:?}");
}

#[test]
fn sanitize_empty_is_none() {
    assert_eq!(sanitize_title(""), None);
    assert_eq!(sanitize_title("   \n\t  "), None);
    // Quotes wrapping nothing.
    assert_eq!(sanitize_title("\"\""), None);
    // Only a period.
    assert_eq!(sanitize_title("."), None);
}

#[test]
fn response_body_extracts_and_sanitizes_content() {
    let body = r#"{
        "choices": [
            { "message": { "role": "assistant", "content": "\"Fix Login Redirect.\"" } }
        ]
    }"#;
    assert_eq!(
        title_from_response_body(body),
        Some("Fix Login Redirect".to_string())
    );
}

#[test]
fn response_body_missing_content_is_none() {
    assert_eq!(title_from_response_body(r#"{"choices": []}"#), None);
    assert_eq!(title_from_response_body(r#"{}"#), None);
    assert_eq!(title_from_response_body("not json at all"), None);
    assert_eq!(
        title_from_response_body(r#"{"choices":[{"message":{"content":""}}]}"#),
        None
    );
}

#[test]
fn build_user_content_includes_both_sides_when_present() {
    let c = build_user_content("Please fix the bug", "Sure, I patched it");
    assert!(c.contains("User request:"));
    assert!(c.contains("Please fix the bug"));
    assert!(c.contains("Assistant reply:"));
    assert!(c.contains("Sure, I patched it"));
}

#[test]
fn build_user_content_omits_assistant_section_when_empty() {
    let c = build_user_content("Just a question", "   ");
    assert!(c.contains("Just a question"));
    assert!(!c.contains("Assistant reply:"));
}

#[test]
fn build_user_content_truncates_each_side() {
    let long = "x".repeat(MAX_INPUT_CHARS + 500);
    let c = build_user_content(&long, &long);
    // Two truncated copies + labels stay well under the raw 2*len.
    assert!(c.chars().count() < (MAX_INPUT_CHARS * 2) + 100);
}

#[test]
fn user_content_has_both_labels_in_order() {
    assert_eq!(
        build_user_content(" ask \n", "\tanswer"),
        "User request:\nask\n\nAssistant reply:\nanswer"
    );
    assert_eq!(build_user_content("ask", ""), "User request:\nask");
    let long = "é".repeat(601);
    assert_eq!(
        build_user_content(&long, ""),
        format!("User request:\n{}", "é".repeat(600))
    );
}

#[test]
fn only_one_layer_of_quotes_goes() {
    assert_eq!(sanitize_title("\"'Quoted'\"").as_deref(), Some("'Quoted'"));
    assert_eq!(sanitize_title("'\"Quoted\"'").as_deref(), Some("\"Quoted\""));
    assert_eq!(sanitize_title("\"Half").as_deref(), Some("\"Half"));
    assert_eq!(sanitize_title("\"").as_deref(), Some("\""));
    assert_eq!(sanitize_title("\" Padded \"").as_deref(), Some("Padded"));
}

#[test]
fn long_titles_lose_their_tail() {
    let raw = format!("{} {}", "a".repeat(63), "b".repeat(20));
    assert_eq!(sanitize_title(&raw), Some("a".repeat(63)));
    let plain = "c".repeat(65);
    assert_eq!(sanitize_title(&plain), Some("c".repeat(64)));
    assert_eq!(sanitize_title(&"ü".repeat(70)), Some("ü".repeat(64)));
}

#[test]
fn title_needs_a_text_in_the_right_place() {
    assert_eq!(
        title_from_response_body(r#"{"choices":[{"message":{"content":5}}]}"#),
        None
    );
    assert_eq!(
        title_from_response_body(r#"{"choices":{"0":{"message":{"content":"x"}}}}"#),
        None
    );
    assert_eq!(
        title_from_response_body(
            r#"{"choices":[{"message":{"content":"First One"}},{"message":{"content":"Second"}}]}"#
        )
        .as_deref(),
        Some("First One")
    );
}

#[test]
fn truncation_counts_characters() {
    assert_eq!(truncate_chars("héllo", 2), "hé");
    assert_eq!(truncate_chars("héllo", 5), "héllo");
    assert_eq!(truncate_chars("héllo", 9), "héllo");
    assert_eq!(truncate_chars("héllo", 0), "");
}
