use reddit_markdown::formatting::escape_selftext;
use reddit_markdown::formatting::format_author_link;
use reddit_markdown::formatting::format_author_with_op_marker;
use reddit_markdown::formatting::format_child_comment_body;
use reddit_markdown::formatting::format_comment_body;
use reddit_markdown::formatting::format_timestamp;
use reddit_markdown::formatting::format_upvotes;

#[test]
fn test_format_upvotes_table() {
    assert_eq!(format_upvotes(0, true), "");
    assert_eq!(format_upvotes(999, true), "\u{2b06}\u{fe0f} 999");
    assert_eq!(format_upvotes(1999, true), "\u{2b06}\u{fe0f} 1k");
    assert_eq!(format_upvotes(5, false), "");
}

#[test]
fn test_format_upvotes_truncates_thousands() {
    assert_eq!(format_upvotes(1000, true), "\u{2b06}\u{fe0f} 1k");
    assert_eq!(format_upvotes(1532, true), "\u{2b06}\u{fe0f} 1k");
    assert_eq!(format_upvotes(25999, true), "\u{2b06}\u{fe0f} 25k");
    assert_eq!(format_upvotes(-3, true), "");
}

#[test]
fn test_format_timestamp_wrapping() {
    assert_eq!(format_timestamp("2023-01-01 12:00:00", true), "_( 2023-01-01 12:00:00 )_");
    assert_eq!(format_timestamp("", true), "");
    assert_eq!(format_timestamp("2023-01-01 12:00:00", false), "");
}

#[test]
fn test_format_author_link() {
    assert_eq!(format_author_link("bob"), "[bob](https://www.reddit.com/user/bob)");
    assert_eq!(format_author_link("[deleted]"), "[deleted]");
    assert_eq!(format_author_link(""), "");
}

#[test]
fn test_format_author_with_op_marker() {
    assert_eq!(
        format_author_with_op_marker("alice", "alice"),
        "[alice](https://www.reddit.com/user/alice) (OP)"
    );
    assert_eq!(
        format_author_with_op_marker("bob", "alice"),
        "[bob](https://www.reddit.com/user/bob)"
    );
    assert_eq!(format_author_with_op_marker("", "alice"), "");
}

#[test]
fn test_escape_selftext() {
    assert_eq!(escape_selftext("&amp; &lt;tag&gt; &quot;x&quot;"), "& <tag> \"x\"");
    assert_eq!(escape_selftext("&nbsp; stays"), "&nbsp; stays");
    assert_eq!(escape_selftext("plain"), "plain");
}

#[test]
fn test_format_comment_body_quotes_and_newlines() {
    assert_eq!(format_comment_body("&gt; quoted\r\nnext"), "> quoted\n\tnext");
}

#[test]
fn test_format_comment_body_links_mentions() {
    assert_eq!(
        format_comment_body("ask u/bob about it"),
        "ask [u/bob](https://www.reddit.com/user/bob) about it"
    );
}

#[test]
fn test_format_child_comment_body() {
    assert_eq!(format_child_comment_body("a\nb", "\t"), "a\n\t\tb");
    assert_eq!(format_child_comment_body("&gt;q &#32;s ^^[x ^^(y", ""), ">q  s [x (y");
    assert_eq!(
        format_child_comment_body("see u/ann", "\t\t"),
        "see [u/ann](https://www.reddit.com/user/ann)"
    );
}
