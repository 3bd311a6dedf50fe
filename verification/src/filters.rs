//! Content filter: decides whether a comment body passes through unchanged
//! or is replaced by the configured replacement text.
//!
//! Rules, first match wins: a case-insensitive keyword substring, an exact
//! author match, a score below the threshold, and a regular-expression
//! denylist whose invalid patterns never match.

use vstd::prelude::*;

use crate::text::chars_of;
use crate::text::contains_chars;
use crate::text::contains_seq;
use crate::text::str_eq;

verus! {

/// The filter policy: case-insensitive keyword substrings, an exact author
/// denylist, an inclusive minimum score, and a regular-expression denylist.
pub struct Filters {
    pub keywords: Vec<String>,
    pub min_upvotes: i32,
    pub authors: Vec<String>,
    pub regexes: Vec<String>,
}

/// What `str::to_lowercase` returns for a given character sequence.
pub uninterp spec fn lower_of(s: Seq<char>) -> Seq<char>;

/// Whether `regex::Regex::new` accepts a pattern.
pub uninterp spec fn regex_compiles(pattern: Seq<char>) -> bool;

/// Whether the regular expression compiled from `pattern` matches somewhere
/// in `text`.
pub uninterp spec fn regex_matches(pattern: Seq<char>, text: Seq<char>) -> bool;

/// Relies on `str::to_lowercase`: the lowercase form depends on the
/// characters alone.
#[verifier::external_body]
pub fn to_lowercase_str(s: &str) -> (r: String)
    ensures
        r@ == lower_of(s@),
{
    s.to_lowercase()
}

/// Relies on `regex::Regex::new` and `regex::Regex::is_match`: whether a
/// pattern compiles, and whether the compiled expression matches a haystack,
/// depend on the pattern and haystack text alone.  `None` reports a pattern
/// that does not compile.
#[verifier::external_body]
pub fn regex_try_match(pattern: &str, text: &str) -> (r: Option<bool>)
    ensures
        r is Some <==> regex_compiles(pattern@),
        r is Some ==> r == Some(regex_matches(pattern@, text@)),
{
    match regex::Regex::new(pattern) {
        Ok(re) => Some(re.is_match(text)),
        Err(_) => None,
    }
}

/// The lowercased body contains some lowercased keyword as a substring.
pub open spec fn keyword_hit(text: Seq<char>, keywords: Seq<Seq<char>>) -> bool {
    exists|i: int|
        0 <= i < keywords.len() && contains_seq(lower_of(text), lower_of(#[trigger] keywords[i]))
}

/// The author appears verbatim in the denylist.
pub open spec fn author_hit(author: Seq<char>, authors: Seq<Seq<char>>) -> bool {
    exists|i: int| 0 <= i < authors.len() && #[trigger] authors[i] == author
}

/// Some pattern of the denylist compiles and matches the body; a pattern
/// that does not compile never matches.
pub open spec fn regex_hit(text: Seq<char>, regexes: Seq<Seq<char>>) -> bool {
    exists|i: int|
        0 <= i < regexes.len() && regex_compiles(#[trigger] regexes[i]) && regex_matches(
            regexes[i],
            text,
        )
}

/// Whether any of the four rule classes matches the comment.
pub open spec fn filter_hit(
    author: Seq<char>,
    text: Seq<char>,
    upvotes: int,
    keywords: Seq<Seq<char>>,
    authors: Seq<Seq<char>>,
    min_upvotes: int,
    regexes: Seq<Seq<char>>,
) -> bool {
    ||| keyword_hit(text, keywords)
    ||| author_hit(author, authors)
    ||| upvotes < min_upvotes
    ||| regex_hit(text, regexes)
}

/// The filter's output: the replacement text on any hit, the body unchanged
/// otherwise.
pub open spec fn spec_apply_filter(
    author: Seq<char>,
    text: Seq<char>,
    upvotes: int,
    keywords: Seq<Seq<char>>,
    authors: Seq<Seq<char>>,
    min_upvotes: int,
    regexes: Seq<Seq<char>>,
    filtered_message: Seq<char>,
) -> Seq<char> {
    if filter_hit(author, text, upvotes, keywords, authors, min_upvotes, regexes) {
        filtered_message
    } else {
        text
    }
}

/// Evaluate the filter rules against one comment and return the text to
/// render: the replacement message when a keyword, author, score or regular
/// expression rule matches, the body unchanged otherwise.
pub fn apply_filter(
    author: &str,
    text: &str,
    upvotes: i32,
    filtered_keywords: &[String],
    filtered_authors: &[String],
    min_upvotes: i32,
    filtered_regexes: &[String],
    filtered_message: &str,
) -> (r: String)
    ensures
        r@ == spec_apply_filter(
            author@,
            text@,
            upvotes as int,
            filtered_keywords.deep_view(),
            filtered_authors.deep_view(),
            min_upvotes as int,
            filtered_regexes.deep_view(),
            filtered_message@,
        ),
{
    let lower_text = to_lowercase_str(text);
    let lower_text_chars = chars_of(lower_text.as_str());
    let mut i: usize = 0;
    while i < filtered_keywords.len()
        invariant
            i <= filtered_keywords@.len(),
            lower_text_chars@ == lower_of(text@),
            forall|k: int|
                0 <= k < i ==> !contains_seq(
                    lower_of(text@),
                    lower_of(#[trigger] filtered_keywords.deep_view()[k]),
                ),
        decreases filtered_keywords@.len() - i,
    {
        let lower_kw = to_lowercase_str(filtered_keywords[i].as_str());
        let lower_kw_chars = chars_of(lower_kw.as_str());
        if contains_chars(&lower_text_chars, &lower_kw_chars) {
            proof {
                assert(filtered_keywords.deep_view()[i as int] == filtered_keywords@[i as int]@);
                assert(keyword_hit(text@, filtered_keywords.deep_view()));
            }
            return filtered_message.to_owned();
        }
        proof {
            assert(filtered_keywords.deep_view()[i as int] == filtered_keywords@[i as int]@);
        }
        i += 1;
    }
    proof {
        assert(!keyword_hit(text@, filtered_keywords.deep_view()));
    }
    let mut i: usize = 0;
    while i < filtered_authors.len()
        invariant
            i <= filtered_authors@.len(),
            forall|k: int| 0 <= k < i ==> #[trigger] filtered_authors.deep_view()[k] != author@,
        decreases filtered_authors@.len() - i,
    {
        if str_eq(filtered_authors[i].as_str(), author) {
            proof {
                assert(filtered_authors.deep_view()[i as int] == filtered_authors@[i as int]@);
                assert(author_hit(author@, filtered_authors.deep_view()));
            }
            return filtered_message.to_owned();
        }
        proof {
            assert(filtered_authors.deep_view()[i as int] == filtered_authors@[i as int]@);
        }
        i += 1;
    }
    proof {
        assert(!author_hit(author@, filtered_authors.deep_view()));
    }
    if upvotes < min_upvotes {
        return filtered_message.to_owned();
    }
    let mut i: usize = 0;
    while i < filtered_regexes.len()
        invariant
            i <= filtered_regexes@.len(),
            forall|k: int|
                0 <= k < i ==> !(regex_compiles(#[trigger] filtered_regexes.deep_view()[k])
                    && regex_matches(filtered_regexes.deep_view()[k], text@)),
        decreases filtered_regexes@.len() - i,
    {
        let hit = match regex_try_match(filtered_regexes[i].as_str(), text) {
            Some(m) => m,
            None => false,
        };
        if hit {
            proof {
                assert(filtered_regexes.deep_view()[i as int] == filtered_regexes@[i as int]@);
                assert(regex_hit(text@, filtered_regexes.deep_view()));
            }
            return filtered_message.to_owned();
        }
        proof {
            assert(filtered_regexes.deep_view()[i as int] == filtered_regexes@[i as int]@);
        }
        i += 1;
    }
    proof {
        assert(!regex_hit(text@, filtered_regexes.deep_view()));
    }
    text.to_owned()
}

/// Law: a comment matching both a keyword rule and the score rule yields the
/// replacement text; the outcome does not depend on which rule fires first.
pub proof fn lemma_filter_precedence(
    author: Seq<char>,
    text: Seq<char>,
    upvotes: int,
    keywords: Seq<Seq<char>>,
    authors: Seq<Seq<char>>,
    min_upvotes: int,
    regexes: Seq<Seq<char>>,
    filtered_message: Seq<char>,
)
    requires
        keyword_hit(text, keywords),
        upvotes < min_upvotes,
    ensures
        spec_apply_filter(
            author,
            text,
            upvotes,
            keywords,
            authors,
            min_upvotes,
            regexes,
            filtered_message,
        ) == filtered_message,
{
}

/// Law: a comment matching none of the four rule classes passes through
/// byte for byte.
pub proof fn lemma_filter_pass_through(
    author: Seq<char>,
    text: Seq<char>,
    upvotes: int,
    keywords: Seq<Seq<char>>,
    authors: Seq<Seq<char>>,
    min_upvotes: int,
    regexes: Seq<Seq<char>>,
    filtered_message: Seq<char>,
)
    requires
        !keyword_hit(text, keywords),
        !author_hit(author, authors),
        upvotes >= min_upvotes,
        !regex_hit(text, regexes),
    ensures
        spec_apply_filter(
            author,
            text,
            upvotes,
            keywords,
            authors,
            min_upvotes,
            regexes,
            filtered_message,
        ) == text,
{
}

} // verus!
