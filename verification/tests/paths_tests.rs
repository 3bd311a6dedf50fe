use reddit_markdown::paths::derive_name_candidate;
use reddit_markdown::paths::generate_filename;

const RUST_POST: &str = "https://www.reddit.com/r/rust/comments/abc123/test_post/";
const SUBREDDIT: &str = "r/rust";
const TIMESTAMP: &str = "2023-01-01 12:00:00";

#[test]
fn test_generate_filename_basic() {
    let filename = generate_filename(
        "/tmp/base",
        RUST_POST,
        SUBREDDIT,
        false,
        TIMESTAMP,
        "md",
        false,
        &[],
    )
    .unwrap();
    assert!(filename.ends_with("test_post.md"));
    assert!(filename.contains("rust"));
}

#[test]
fn test_generate_filename() {
    let filename = generate_filename(
        "/tmp/base",
        RUST_POST,
        SUBREDDIT,
        false,
        TIMESTAMP,
        "md",
        false,
        &[],
    )
    .unwrap();
    assert!(filename.ends_with("test_post.md"));
    assert!(filename.contains("rust"));
    assert_eq!(filename, "/tmp/base/rust/test_post.md");
}

#[test]
fn test_generate_filename_with_timestamp_dirs() {
    let filename = generate_filename(
        "/tmp/base",
        RUST_POST,
        SUBREDDIT,
        true,
        TIMESTAMP,
        "md",
        false,
        &[],
    )
    .unwrap();
    assert!(filename.contains("2023-01-01"));
    assert!(filename.contains("rust"));
    assert!(filename.ends_with("test_post.md"));
    // the date directory holds the date alone, not the full timestamp
    assert!(!filename.contains("12:00:00"));
    assert_eq!(filename, "/tmp/base/rust/2023-01-01/test_post.md");
}

#[test]
fn test_generate_filename_html_format() {
    let filename = generate_filename(
        "/tmp/base",
        RUST_POST,
        SUBREDDIT,
        false,
        TIMESTAMP,
        "html",
        false,
        &[],
    )
    .unwrap();
    assert!(filename.ends_with("test_post.html"));
}

#[test]
fn test_generate_filename_edge_cases() {
    let special_url =
        "https://www.reddit.com/r/rust/comments/abc123/test-post_with.special%20chars/";
    let filename = generate_filename(
        "/tmp/base",
        special_url,
        SUBREDDIT,
        false,
        TIMESTAMP,
        "md",
        false,
        &[],
    )
    .unwrap();
    assert!(filename.contains("test-post_with.special"));

    let filename_with_dirs = generate_filename(
        "/tmp/base",
        RUST_POST,
        SUBREDDIT,
        true,
        TIMESTAMP,
        "html",
        true,
        &[],
    )
    .unwrap();
    assert!(filename_with_dirs.contains("2023-01-01"));
    assert!(filename_with_dirs.ends_with("test_post.html"));
}

#[test]
fn test_generate_filename_collision_suffixes() {
    // an existing post.md pushes the new file to post_1.md, then to post_2.md
    let occupied = vec!["/d/post.md".to_string()];
    let resolved = generate_filename("/d", "https://x/post", "", false, "", "md", false, &occupied)
        .unwrap();
    assert_eq!(resolved, "/d/post_1.md");

    let occupied = vec!["/d/post.md".to_string(), "/d/post_1.md".to_string()];
    let resolved = generate_filename("/d", "https://x/post", "", false, "", "md", false, &occupied)
        .unwrap();
    assert_eq!(resolved, "/d/post_2.md");
}

#[test]
fn test_generate_filename_overwrite_keeps_plain_path() {
    let occupied = vec!["/d/post.md".to_string()];
    let resolved = generate_filename("/d", "https://x/post", "", false, "", "md", true, &occupied)
        .unwrap();
    assert_eq!(resolved, "/d/post.md");
}

#[test]
fn test_generate_filename_fallback_name() {
    // a URL with no path segment falls back to a timestamp-derived name
    let resolved =
        generate_filename("/d", "///", "", false, "", "md", false, &[]).unwrap();
    assert!(resolved.starts_with("/d/reddit_no_name_"));
    assert!(resolved.ends_with(".md"));
}

#[test]
fn test_generate_filename_unparsable_timestamp_uses_current_date() {
    let resolved = generate_filename(
        "/d",
        "https://x/post",
        "r/rust",
        true,
        "not a timestamp",
        "md",
        false,
        &[],
    )
    .unwrap();
    // some date directory was inserted between the subreddit and the file
    assert!(resolved.starts_with("/d/rust/"));
    assert!(resolved.ends_with("/post.md"));
    assert!(resolved.len() > "/d/rust//post.md".len());
}

#[test]
fn test_derive_name_candidate() {
    assert_eq!(
        derive_name_candidate("https://www.reddit.com/r/rust/comments/abc/slug/").unwrap(),
        "slug"
    );
    assert_eq!(derive_name_candidate("plain").unwrap(), "plain");
    assert!(derive_name_candidate("").is_none());
    assert!(derive_name_candidate("///").is_none());
}
