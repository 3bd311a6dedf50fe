//! Display formatting helpers: upvote glyphs, timestamps, author links and
//! comment-body massaging for Markdown output.

use vstd::prelude::*;
use vstd::string::StringExecFns;

use crate::numbers::dec_digits;
use crate::text::chars_of;
use crate::text::replace_chars;
use crate::text::replace_seq;
use crate::text::str_eq;
use crate::text::string_of;

verus! {

/// What `regex::Regex::replace_all` with the fixed user-mention pattern and
/// profile-link replacement returns; it depends on the input text alone.
pub uninterp spec fn mention_linked(s: Seq<char>) -> Seq<char>;

/// Relies on `regex::Regex::new` (on a fixed, valid pattern) and
/// `regex::Regex::replace_all`: rewrites every `u/<name>` mention, taking
/// the name's word characters, into a profile hyperlink.
#[verifier::external_body]
fn rewrite_mentions(s: &str) -> (r: String)
    ensures
        r@ == mention_linked(s@),
{
    let re = regex::Regex::new(r"u/(\w+)").unwrap();
    re.replace_all(s, r"[u/$1](https://www.reddit.com/user/$1)").into_owned()
}

/// The timestamp fragment: the resolved timestamp text in emphasis markers,
/// or nothing when hidden or absent.
pub open spec fn spec_format_timestamp(timestamp: Seq<char>, show: bool) -> Seq<char> {
    if show && timestamp.len() > 0 {
        "_( "@ + timestamp + " )_"@
    } else {
        Seq::empty()
    }
}

/// Wrap an already-resolved timestamp in emphasis markers; empty when the
/// toggle is off or the timestamp is absent.
pub fn format_timestamp(timestamp: &str, show_timestamp: bool) -> (r: String)
    ensures
        r@ == spec_format_timestamp(timestamp@, show_timestamp),
{
    if show_timestamp && !timestamp.is_empty() {
        let mut s = String::new();
        s.append("_( ");
        s.append(timestamp);
        s.append(" )_");
        proof {
            assert(s@ =~= "_( "@ + timestamp@ + " )_"@);
        }
        s
    } else {
        String::new()
    }
}

/// The upvote fragment: an up-arrow glyph and the count, thousands printed
/// truncated with a `k` suffix; empty when hidden or not positive.
pub open spec fn spec_format_upvotes(upvotes: int, show: bool) -> Seq<char> {
    if show && upvotes > 0 {
        if upvotes >= 1000 {
            "\u{2b06}\u{fe0f} "@ + dec_digits((upvotes / 1000) as nat) + "k"@
        } else {
            "\u{2b06}\u{fe0f} "@ + dec_digits(upvotes as nat)
        }
    } else {
        Seq::empty()
    }
}

/// Render an upvote count: empty when hidden or not positive; counts of a
/// thousand or more print the integer-truncated thousands with a `k`.
pub fn format_upvotes(upvotes: i32, show_upvotes: bool) -> (r: String)
    ensures
        r@ == spec_format_upvotes(upvotes as int, show_upvotes),
{
    if show_upvotes && upvotes > 0 {
        let shown: u64 = if upvotes >= 1000 {
            (upvotes / 1000) as u64
        } else {
            upvotes as u64
        };
        let digits = string_of(&crate::numbers::u64_dec_chars(shown));
        let mut s = String::new();
        s.append("\u{2b06}\u{fe0f} ");
        s.append(digits.as_str());
        if upvotes >= 1000 {
            s.append("k");
            proof {
                assert(s@ =~= "\u{2b06}\u{fe0f} "@ + dec_digits((upvotes / 1000) as nat) + "k"@);
            }
        } else {
            proof {
                assert(s@ =~= "\u{2b06}\u{fe0f} "@ + dec_digits(upvotes as nat));
            }
        }
        s
    } else {
        String::new()
    }
}

/// The author fragment: a profile hyperlink, or the author text itself when
/// it is empty or the deletion sentinel.
pub open spec fn spec_author_link(author: Seq<char>) -> Seq<char> {
    if author.len() > 0 && author != "[deleted]"@ {
        "["@ + author + "](https://www.reddit.com/user/"@ + author + ")"@
    } else {
        author
    }
}

/// Render an author as a profile hyperlink; the deletion sentinel and the
/// empty author pass through unchanged.
pub fn format_author_link(author: &str) -> (r: String)
    ensures
        r@ == spec_author_link(author@),
{
    if !author.is_empty() && !str_eq(author, "[deleted]") {
        let mut s = String::new();
        s.append("[");
        s.append(author);
        s.append("](https://www.reddit.com/user/");
        s.append(author);
        s.append(")");
        proof {
            assert(s@ =~= "["@ + author@ + "](https://www.reddit.com/user/"@ + author@ + ")"@);
        }
        s
    } else {
        author.to_owned()
    }
}

/// The author fragment with an `(OP)` marker when the author wrote the post.
pub open spec fn spec_author_with_op_marker(author: Seq<char>, post_author: Seq<char>) -> Seq<
    char,
> {
    let link = spec_author_link(author);
    if author == post_author && link.len() > 0 {
        link + " (OP)"@
    } else {
        link
    }
}

/// Render an author link, marking the post's own author with `(OP)`.
pub fn format_author_with_op_marker(author: &str, post_author: &str) -> (r: String)
    ensures
        r@ == spec_author_with_op_marker(author@, post_author@),
{
    let mut link = format_author_link(author);
    if str_eq(author, post_author) && !link.as_str().is_empty() {
        link.append(" (OP)");
        proof {
            assert(link@ =~= spec_author_link(author@) + " (OP)"@);
        }
    }
    link
}

/// The selftext with exactly four HTML entities decoded; all other entities
/// pass through unchanged.
pub open spec fn spec_escape_selftext(s: Seq<char>) -> Seq<char> {
    replace_seq(
        replace_seq(replace_seq(replace_seq(s, "&amp;"@, "&"@), "&lt;"@, "<"@), "&gt;"@, ">"@),
        "&quot;"@,
        "\""@,
    )
}

/// Decode the ampersand, less-than, greater-than and quote entities of a
/// post's selftext to their literal characters.
pub fn escape_selftext(text: &str) -> (r: String)
    ensures
        r@ == spec_escape_selftext(text@),
{
    proof {
        reveal_strlit("&amp;");
        reveal_strlit("&lt;");
        reveal_strlit("&gt;");
        reveal_strlit("&quot;");
    }
    let v = chars_of(text);
    let v = replace_chars(&v, &chars_of("&amp;"), &chars_of("&"));
    let v = replace_chars(&v, &chars_of("&lt;"), &chars_of("<"));
    let v = replace_chars(&v, &chars_of("&gt;"), &chars_of(">"));
    let v = replace_chars(&v, &chars_of("&quot;"), &chars_of("\""));
    string_of(&v)
}

/// A top-level comment body prepared for rendering: quote entities decoded,
/// carriage returns stripped, each internal newline indented by one tab, and
/// user mentions rewritten as profile hyperlinks.
pub open spec fn spec_format_comment_body(body: Seq<char>) -> Seq<char> {
    mention_linked(
        replace_seq(replace_seq(replace_seq(body, "&gt;"@, ">"@), "\n"@, "\n\t"@), "\r"@, ""@),
    )
}

/// Prepare a top-level comment body for rendering under its list marker.
pub fn format_comment_body(body: &str) -> (r: String)
    ensures
        r@ == spec_format_comment_body(body@),
{
    proof {
        reveal_strlit("&gt;");
        reveal_strlit("\n");
        reveal_strlit("\r");
    }
    let v = chars_of(body);
    let v = replace_chars(&v, &chars_of("&gt;"), &chars_of(">"));
    let v = replace_chars(&v, &chars_of("\n"), &chars_of("\n\t"));
    let v = replace_chars(&v, &chars_of("\r"), &chars_of(""));
    rewrite_mentions(string_of(&v).as_str())
}

/// A nested comment body prepared for rendering: quote and soft-space
/// entities decoded, superscript markup unwrapped, user mentions rewritten,
/// and each internal newline indented to the comment's own depth.
pub open spec fn spec_format_child_comment_body(body: Seq<char>, indent: Seq<char>) -> Seq<char> {
    let unwrapped = replace_seq(
        replace_seq(replace_seq(replace_seq(body, "&gt;"@, ">"@), "&#32;"@, " "@), "^^["@, "["@),
        "^^("@,
        "("@,
    );
    replace_seq(mention_linked(unwrapped), "\n"@, "\n"@ + indent + "\t"@)
}

/// Prepare a nested comment body for rendering at the given indent.
pub fn format_child_comment_body(body: &str, indent: &str) -> (r: String)
    ensures
        r@ == spec_format_child_comment_body(body@, indent@),
{
    proof {
        reveal_strlit("&gt;");
        reveal_strlit("&#32;");
        reveal_strlit("^^[");
        reveal_strlit("^^(");
        reveal_strlit("\n");
        reveal_strlit("\t");
    }
    let v = chars_of(body);
    let v = replace_chars(&v, &chars_of("&gt;"), &chars_of(">"));
    let v = replace_chars(&v, &chars_of("&#32;"), &chars_of(" "));
    let v = replace_chars(&v, &chars_of("^^["), &chars_of("["));
    let v = replace_chars(&v, &chars_of("^^("), &chars_of("("));
    let linked = rewrite_mentions(string_of(&v).as_str());
    let lv = chars_of(linked.as_str());
    let mut continuation: Vec<char> = chars_of("\n");
    crate::text::push_all(&mut continuation, &chars_of(indent));
    crate::text::push_all(&mut continuation, &chars_of("\t"));
    proof {
        assert(continuation@ =~= "\n"@ + indent@ + "\t"@);
    }
    let out = replace_chars(&lv, &chars_of("\n"), &continuation);
    string_of(&out)
}

} // verus!
