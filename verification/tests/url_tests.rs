use reddit_markdown::urls::clean_url;
use reddit_markdown::urls::clean_url_list;
use reddit_markdown::urls::demo_urls;
use reddit_markdown::urls::split_direct_urls;
use reddit_markdown::urls::valid_url;
use reddit_markdown::urls::InputMode;
use reddit_markdown::urls::UrlFetcher;

#[test]
fn url_ops_test_clean_url_basic() {
    let with_utm = "https://example.com/test?utm_source=share&utm_medium=web";
    let without_utm = "https://example.com/test";
    assert_eq!(clean_url(with_utm), without_utm);
    assert_eq!(clean_url(without_utm), without_utm);
}

#[test]
fn reddit_utils_old_test_clean_url_basic() {
    assert_eq!(
        clean_url("https://example.com/test?utm_source=share&utm_medium=web"),
        "https://example.com/test"
    );
    assert_eq!(clean_url("https://example.com/test"), "https://example.com/test");
}

#[test]
fn test_clean_url() {
    let with_utm = "https://www.reddit.com/r/rust/comments/abc123/test?utm_source=share&utm_medium=web";
    let without_utm = "https://www.reddit.com/r/rust/comments/abc123/test";
    assert_eq!(clean_url(with_utm), without_utm);
    assert_eq!(clean_url(without_utm), without_utm);
}

#[test]
fn test_clean_url_edge_cases() {
    assert_eq!(clean_url(""), "");
    assert_eq!(clean_url("   "), "");
    assert_eq!(clean_url("https://example.com?utm_source="), "https://example.com");
    assert_eq!(
        clean_url("https://example.com?other=param&utm_source=share"),
        "https://example.com?other=param&utm_source=share"
    );
}

#[test]
fn validation_test_valid_url_basic() {
    let rust_post = "https://www.reddit.com/r/rust/comments/abc123/test_post/";
    let programming_post = "https://www.reddit.com/r/programming/comments/xyz789/another_test";
    let invalid_example = "https://example.com";
    let invalid_not_url = "not_a_url";
    let invalid_subreddit = "https://www.reddit.com/r/rust";

    assert!(valid_url(rust_post));
    assert!(valid_url(programming_post));
    assert!(!valid_url(invalid_example));
    assert!(!valid_url(invalid_not_url));
    assert!(!valid_url(invalid_subreddit));
}

#[test]
fn reddit_utils_old_test_valid_url_basic() {
    assert!(valid_url("https://www.reddit.com/r/rust/comments/abc123/test_post/"));
    assert!(valid_url("https://www.reddit.com/r/programming/comments/xyz789/another_test"));
    assert!(!valid_url("https://example.com"));
    assert!(!valid_url("not_a_url"));
    assert!(!valid_url("https://www.reddit.com/r/rust"));
}

#[test]
fn test_valid_url() {
    assert!(valid_url("https://www.reddit.com/r/rust/comments/abc123/test_post/"));
    assert!(valid_url("https://www.reddit.com/r/programming/comments/xyz789/another_test"));
    assert!(!valid_url("https://example.com"));
    assert!(!valid_url("not_a_url"));
    assert!(!valid_url("https://www.reddit.com/r/rust"));
    assert!(!valid_url("https://www.reddit.com/user/someone"));
}

#[test]
fn test_valid_url_edge_cases() {
    assert!(!valid_url(""));
    assert!(!valid_url("   "));
    assert!(!valid_url("https://www.reddit.com/r/"));
    assert!(!valid_url("https://www.reddit.com/r/rust/comments/"));
    assert!(!valid_url("https://www.reddit.com/r/rust/comments/abc123/"));
    assert!(valid_url("https://www.reddit.com/r/rust/comments/abc123/test"));
    assert!(valid_url("https://www.reddit.com/r/r_usttest/comments/abc123/test_post"));
    assert!(valid_url("https://www.reddit.com/r/123numbers/comments/xyz789/post123"));
}

#[test]
fn test_interpret_input_mode() {
    let fetcher = UrlFetcher::new();
    assert_eq!(fetcher.interpret_input_mode("demo"), InputMode::Demo);
    assert_eq!(fetcher.interpret_input_mode("DEMO"), InputMode::Demo);
    assert_eq!(fetcher.interpret_input_mode("surprise"), InputMode::Surprise);
    assert_eq!(fetcher.interpret_input_mode("Surprise"), InputMode::Surprise);
    assert_eq!(fetcher.interpret_input_mode("r/rust"), InputMode::Subreddit);
    assert_eq!(fetcher.interpret_input_mode("m/programming"), InputMode::Multireddit);
    assert_eq!(
        fetcher.interpret_input_mode("https://www.reddit.com/r/rust/comments/a/b"),
        InputMode::DirectUrls
    );
}

#[test]
fn test_url_fetcher_new_hosts() {
    let fetcher = UrlFetcher::new();
    assert_eq!(fetcher.base_url, "https://www.reddit.com");
    assert_eq!(fetcher.oauth_base_url, "https://oauth.reddit.com");
    assert!(fetcher.urls.is_empty());
}

#[test]
fn test_demo_urls_fixed_link() {
    let urls = demo_urls();
    assert_eq!(urls.len(), 1);
    assert!(urls[0].contains("/r/pcmasterrace/comments/101kjyq/"));
}

#[test]
fn test_split_direct_urls() {
    let urls = split_direct_urls("https://a/x , https://b/y,, https://c/z ");
    assert_eq!(urls, vec!["https://a/x", "https://b/y", "https://c/z"]);
    assert!(split_direct_urls("   ").is_empty());
}

#[test]
fn test_clean_url_list() {
    let input = vec![
        " https://a/x?utm_source=share".to_string(),
        "   ".to_string(),
        "https://b/y".to_string(),
    ];
    let cleaned = clean_url_list(&input);
    assert_eq!(cleaned, vec!["https://a/x", "https://b/y"]);
}
