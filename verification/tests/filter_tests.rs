use reddit_markdown::filters::apply_filter;

#[test]
fn test_apply_filter_no_filters() {
    let result = apply_filter(
        "testuser",
        "This is a normal comment",
        10,
        &[],
        &[],
        0,
        &[],
        "[filtered]",
    );
    assert_eq!(result, "This is a normal comment");
}

#[test]
fn test_apply_filter_keyword() {
    let keywords = vec!["spam".to_string()];
    let result = apply_filter(
        "testuser",
        "This is spam content",
        10,
        &keywords,
        &[],
        0,
        &[],
        "[filtered]",
    );
    assert_eq!(result, "[filtered]");
}

#[test]
fn test_apply_filter_keyword_case_insensitive() {
    let keywords = vec!["SPAM".to_string()];
    let result = apply_filter(
        "testuser",
        "This is spam content",
        10,
        &keywords,
        &[],
        0,
        &[],
        "[filtered]",
    );
    assert_eq!(result, "[filtered]");
}

#[test]
fn test_apply_filter_author() {
    let authors = vec!["baduser".to_string()];
    let result = apply_filter(
        "baduser",
        "This is a normal comment",
        10,
        &[],
        &authors,
        0,
        &[],
        "[filtered]",
    );
    assert_eq!(result, "[filtered]");
}

#[test]
fn test_apply_filter_min_upvotes() {
    let result = apply_filter(
        "testuser",
        "This is a normal comment",
        5,
        &[],
        &[],
        10,
        &[],
        "[filtered]",
    );
    assert_eq!(result, "[filtered]");
}

#[test]
fn test_apply_filter_regex() {
    let regexes = vec![r"\d{3}-\d{3}-\d{4}".to_string()];
    let result = apply_filter(
        "testuser",
        "Call me at 123-456-7890",
        10,
        &[],
        &[],
        0,
        &regexes,
        "[filtered]",
    );
    assert_eq!(result, "[filtered]");
}

#[test]
fn test_apply_filter_regex_no_match() {
    let regexes = vec![r"\d{3}-\d{3}-\d{4}".to_string()];
    let result = apply_filter(
        "testuser",
        "This is a normal comment",
        10,
        &[],
        &[],
        0,
        &regexes,
        "[filtered]",
    );
    assert_eq!(result, "This is a normal comment");
}

#[test]
fn test_apply_filter_invalid_regex() {
    let regexes = vec!["[".to_string()];
    let result = apply_filter(
        "testuser",
        "This is a normal comment",
        10,
        &[],
        &[],
        0,
        &regexes,
        "[filtered]",
    );
    assert_eq!(result, "This is a normal comment");
}

#[test]
fn test_apply_filter_multiple_keywords() {
    let keywords = vec![
        "spam".to_string(),
        "scam".to_string(),
        "phishing".to_string(),
    ];

    let result = apply_filter(
        "user1",
        "This is spam content",
        10,
        &keywords,
        &[],
        0,
        &[],
        "[filtered]",
    );
    assert_eq!(result, "[filtered]");

    let result = apply_filter(
        "user2",
        "This is a scam attempt",
        10,
        &keywords,
        &[],
        0,
        &[],
        "[filtered]",
    );
    assert_eq!(result, "[filtered]");

    let result = apply_filter(
        "user3",
        "This is normal content",
        10,
        &keywords,
        &[],
        0,
        &[],
        "[filtered]",
    );
    assert_eq!(result, "This is normal content");
}

#[test]
fn test_apply_filter_multiple_authors() {
    let authors = vec![
        "baduser1".to_string(),
        "baduser2".to_string(),
        "spammer".to_string(),
    ];

    let result = apply_filter(
        "baduser1",
        "Normal comment",
        10,
        &[],
        &authors,
        0,
        &[],
        "[filtered]",
    );
    assert_eq!(result, "[filtered]");

    let result = apply_filter(
        "gooduser",
        "Normal comment",
        10,
        &[],
        &authors,
        0,
        &[],
        "[filtered]",
    );
    assert_eq!(result, "Normal comment");
}

#[test]
fn test_apply_filter_combined_filters() {
    let keywords = vec!["test".to_string()];
    let authors = vec!["baduser".to_string()];
    let regexes = vec![r"http://".to_string()];

    let result = apply_filter(
        "gooduser",
        "This is a test comment",
        10,
        &keywords,
        &[],
        0,
        &[],
        "[filtered]",
    );
    assert_eq!(result, "[filtered]");

    let result = apply_filter(
        "baduser",
        "Normal comment",
        10,
        &[],
        &authors,
        0,
        &[],
        "[filtered]",
    );
    assert_eq!(result, "[filtered]");

    let result = apply_filter(
        "gooduser",
        "Check http://example.com",
        10,
        &[],
        &[],
        0,
        &regexes,
        "[filtered]",
    );
    assert_eq!(result, "[filtered]");

    let result = apply_filter(
        "gooduser",
        "Normal comment",
        10,
        &keywords,
        &authors,
        0,
        &regexes,
        "[filtered]",
    );
    assert_eq!(result, "Normal comment");
}

#[test]
fn test_apply_filter_edge_case_upvotes() {
    let result = apply_filter("user", "comment", 10, &[], &[], 10, &[], "[filtered]");
    assert_eq!(result, "comment");

    let result = apply_filter("user", "comment", 9, &[], &[], 10, &[], "[filtered]");
    assert_eq!(result, "[filtered]");

    let result = apply_filter("user", "comment", -5, &[], &[], 0, &[], "[filtered]");
    assert_eq!(result, "[filtered]");
}

#[test]
fn test_apply_filter_empty_inputs() {
    let result = apply_filter("user", "", 10, &[], &[], 0, &[], "[filtered]");
    assert_eq!(result, "");

    let result = apply_filter(
        "spam_user",
        "spam content",
        10,
        &["spam".to_string()],
        &[],
        0,
        &[],
        "",
    );
    assert_eq!(result, "");

    let result = apply_filter(
        "",
        "normal comment",
        10,
        &[],
        &["baduser".to_string()],
        0,
        &[],
        "[filtered]",
    );
    assert_eq!(result, "normal comment");
}

#[test]
fn test_apply_filter_keyword_and_score_both_match() {
    let keywords = vec!["spam".to_string()];
    let result = apply_filter(
        "user",
        "spam and low score",
        1,
        &keywords,
        &[],
        100,
        &[],
        "[filtered]",
    );
    assert_eq!(result, "[filtered]");
}
