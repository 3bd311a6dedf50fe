use reddit_markdown::markdown::markdown_to_html;

const MARKDOWN: &str = "# Test\n\nThis is **bold** text.";

fn assert_html_structure(html: &str) {
    assert!(html.contains("<html>"));
    assert!(html.contains("<body>"));
}

#[test]
fn test_markdown_to_html_basic() {
    let html = markdown_to_html(MARKDOWN);
    assert_html_structure(&html);
    assert!(html.contains("<h1"));
    assert!(html.contains("<strong"));
}

#[test]
fn test_markdown_to_html() {
    let html = markdown_to_html(MARKDOWN);
    assert_html_structure(&html);
    assert!(html.contains("<h1>"));
    assert!(html.contains("<strong>"));
}

#[test]
fn test_markdown_to_html_edge_cases() {
    let html = markdown_to_html("");
    assert_html_structure(&html);

    let html = markdown_to_html("   \n  \t  ");
    assert_html_structure(&html);

    let complex_md =
        "# Header\n\n[Link](https://example.com)\n\n```rust\nfn test() {}\n```\n\n> Quote";
    let html = markdown_to_html(complex_md);
    assert_html_structure(&html);
    assert!(html.contains("<h1"));
    assert!(html.contains("<a"));
    assert!(html.contains("<code"));
    assert!(html.contains("<blockquote"));
}
