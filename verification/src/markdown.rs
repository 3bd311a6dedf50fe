//! Markdown-to-HTML conversion: the Markdown engine runs behind a trusted
//! wrapper, and the document shell around its output is verified.

use vstd::prelude::*;
use vstd::string::StringExecFns;

verus! {

/// The HTML rendering of Markdown text; it depends on the text alone.
pub uninterp spec fn html_of_markdown(s: Seq<char>) -> Seq<char>;

/// Relies on `pulldown_cmark::Parser::new` and
/// `pulldown_cmark::html::push_html`: the HTML rendering of Markdown text
/// depends on the text alone.
#[verifier::external_body]
fn render_markdown_body(md: &str) -> (r: String)
    ensures
        r@ == html_of_markdown(md@),
{
    let parser = pulldown_cmark::Parser::new(md);
    let mut html_output = String::new();
    pulldown_cmark::html::push_html(&mut html_output, parser);
    html_output
}

/// Convert Markdown to a complete HTML document: the rendered body wrapped
/// in a minimal `<html><body>` shell.
pub fn markdown_to_html(md_content: &str) -> (r: String)
    ensures
        r@ == "<html><body>"@ + html_of_markdown(md_content@) + "</body></html>"@,
{
    let body = render_markdown_body(md_content);
    let mut s = String::new();
    s.append("<html><body>");
    s.append(body.as_str());
    s.append("</body></html>");
    proof {
        assert(s@ =~= "<html><body>"@ + html_of_markdown(md_content@) + "</body></html>"@);
    }
    s
}

} // verus!
