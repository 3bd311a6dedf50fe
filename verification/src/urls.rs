//! URL handling: tracking-parameter cleanup, post-URL validation, and the
//! interpretation of interactive input.

use vstd::prelude::*;

use crate::filters::lower_of;
use crate::filters::regex_compiles;
use crate::filters::regex_matches;
use crate::filters::regex_try_match;
use crate::filters::to_lowercase_str;
use crate::text::chars_of;
use crate::text::copy_range;
use crate::text::find_first;
use crate::text::find_seq;
use crate::text::split_seq;
use crate::text::split_chars;
use crate::text::starts_with_seq;
use crate::text::str_eq;
use crate::text::str_starts_with;
use crate::text::string_of;
use crate::text::trim_chars;
use crate::text::trim_seq;

verus! {

/// A URL trimmed of surrounding whitespace and cut before a `?utm_source`
/// tracking suffix, if one occurs.
pub open spec fn spec_clean_url(s: Seq<char>) -> Seq<char> {
    let t = trim_seq(s);
    match find_seq(t, "?utm_source"@) {
        Some(i) => t.take(i),
        None => t,
    }
}

/// Trim a URL and drop everything from the first `?utm_source` on.
pub fn clean_url(url: &str) -> (r: String)
    ensures
        r@ == spec_clean_url(url@),
{
    let v = chars_of(url);
    let t = trim_chars(&v);
    let marker = chars_of("?utm_source");
    match find_first(&t, &marker) {
        Some(i) => {
            let cut = copy_range(&t, 0, i);
            proof {
                assert(cut@ =~= trim_seq(url@).take(i as int));
            }
            string_of(&cut)
        },
        None => string_of(&t),
    }
}

/// Whether a URL names a post thread: the fixed post-URL pattern, matched by
/// the regular-expression engine, accepts it.
pub fn valid_url(url: &str) -> (r: bool)
    ensures
        r == (regex_compiles(r"^https://www\.reddit\.com/r/\w+/comments/\w+/[\w_]+/?"@)
            && regex_matches(r"^https://www\.reddit\.com/r/\w+/comments/\w+/[\w_]+/?"@, url@)),
{
    match regex_try_match(r"^https://www\.reddit\.com/r/\w+/comments/\w+/[\w_]+/?", url) {
        Some(m) => m,
        None => false,
    }
}

/// How one line of interactive input is handled.
#[derive(Clone, Copy, Debug, PartialEq, Eq, Structural)]
pub enum InputMode {
    /// The fixed demonstration thread.
    Demo,
    /// One random post from the popular feed.
    Surprise,
    /// The best posts of the named subreddit.
    Subreddit,
    /// The subreddits the settings map to the named multireddit.
    Multireddit,
    /// The input itself, read as a comma-separated URL list.
    DirectUrls,
}

/// The mode an input line selects: the words `demo` and `surprise`
/// (case-insensitively), an `r/` or `m/` prefix, or a direct URL list.
pub open spec fn spec_input_mode(s: Seq<char>) -> InputMode {
    if lower_of(s) == "demo"@ {
        InputMode::Demo
    } else if lower_of(s) == "surprise"@ {
        InputMode::Surprise
    } else if starts_with_seq(s, "r/"@) {
        InputMode::Subreddit
    } else if starts_with_seq(s, "m/"@) {
        InputMode::Multireddit
    } else {
        InputMode::DirectUrls
    }
}

/// The trimmed, non-empty pieces of a list of input pieces, in order.
pub open spec fn cleaned_pieces(pieces: Seq<Seq<char>>) -> Seq<Seq<char>>
    decreases pieces.len(),
{
    if pieces.len() == 0 {
        Seq::empty()
    } else {
        let rest = cleaned_pieces(pieces.drop_last());
        let t = trim_seq(pieces.last());
        if t.len() > 0 {
            rest.push(t)
        } else {
            rest
        }
    }
}

/// The URLs a direct input line yields: the comma-separated pieces, each
/// trimmed, empty pieces dropped.
pub open spec fn spec_direct_urls(s: Seq<char>) -> Seq<Seq<char>> {
    cleaned_pieces(split_seq(s, ','))
}

/// Split a direct input line into its trimmed, non-empty URLs.
pub fn split_direct_urls(user_in: &str) -> (out: Vec<String>)
    ensures
        out.deep_view() == spec_direct_urls(user_in@),
{
    let v = chars_of(user_in);
    let pieces = split_chars(&v, ',');
    let mut out: Vec<String> = Vec::new();
    let mut i: usize = 0;
    proof {
        assert(pieces.deep_view().take(0) =~= Seq::<Seq<char>>::empty());
        assert(out.deep_view() =~= Seq::<Seq<char>>::empty());
    }
    while i < pieces.len()
        invariant
            i <= pieces@.len(),
            pieces.deep_view() == split_seq(user_in@, ','),
            out.deep_view() == cleaned_pieces(pieces.deep_view().take(i as int)),
        decreases pieces@.len() - i,
    {
        let ghost old_dv = out.deep_view();
        proof {
            let t = pieces.deep_view().take(i + 1);
            assert(t.drop_last() =~= pieces.deep_view().take(i as int));
            assert(t.last() == pieces.deep_view()[i as int]);
            assert(pieces.deep_view()[i as int] == pieces@[i as int]@);
        }
        let trimmed = trim_chars(&pieces[i]);
        if trimmed.len() > 0 {
            out.push(string_of(&trimmed));
            proof {
                assert(out.deep_view() =~~= old_dv.push(trimmed@));
            }
        }
        i += 1;
    }
    proof {
        assert(pieces.deep_view().take(pieces@.len() as int) =~= pieces.deep_view());
    }
    out
}

/// The URLs to process from a collected list: each cleaned, empty results
/// dropped.
pub open spec fn cleaned_urls(urls: Seq<Seq<char>>) -> Seq<Seq<char>>
    decreases urls.len(),
{
    if urls.len() == 0 {
        Seq::empty()
    } else {
        let rest = cleaned_urls(urls.drop_last());
        let c = spec_clean_url(urls.last());
        if c.len() > 0 {
            rest.push(c)
        } else {
            rest
        }
    }
}

/// Clean every collected URL and drop the ones that come out empty.
pub fn clean_url_list(urls: &Vec<String>) -> (out: Vec<String>)
    ensures
        out.deep_view() == cleaned_urls(urls.deep_view()),
{
    let mut out: Vec<String> = Vec::new();
    let mut i: usize = 0;
    proof {
        assert(urls.deep_view().take(0) =~= Seq::<Seq<char>>::empty());
        assert(out.deep_view() =~= Seq::<Seq<char>>::empty());
    }
    while i < urls.len()
        invariant
            i <= urls@.len(),
            out.deep_view() == cleaned_urls(urls.deep_view().take(i as int)),
        decreases urls@.len() - i,
    {
        let ghost old_dv = out.deep_view();
        proof {
            let t = urls.deep_view().take(i + 1);
            assert(t.drop_last() =~= urls.deep_view().take(i as int));
            assert(t.last() == urls.deep_view()[i as int]);
            assert(urls.deep_view()[i as int] == urls@[i as int]@);
        }
        let cleaned = clean_url(urls[i].as_str());
        if !cleaned.as_str().is_empty() {
            out.push(cleaned);
            proof {
                assert(out.deep_view() =~~= old_dv.push(spec_clean_url(urls@[i as int]@)));
            }
        }
        i += 1;
    }
    proof {
        assert(urls.deep_view().take(urls@.len() as int) =~= urls.deep_view());
    }
    out
}

/// Collects the thread URLs a run will process; the network and prompt work
/// that fills `urls` lives with the caller.
pub struct UrlFetcher {
    pub base_url: String,
    pub oauth_base_url: String,
    pub urls: Vec<String>,
}

impl UrlFetcher {
    /// A fetcher pointing at the public and OAuth hosts, with no URLs
    /// collected yet.
    pub fn new() -> (r: UrlFetcher)
        ensures
            r.base_url@ == "https://www.reddit.com"@,
            r.oauth_base_url@ == "https://oauth.reddit.com"@,
            r.urls@.len() == 0,
    {
        UrlFetcher {
            base_url: "https://www.reddit.com".to_owned(),
            oauth_base_url: "https://oauth.reddit.com".to_owned(),
            urls: Vec::new(),
        }
    }

    /// Classify one line of interactive input: the demo and surprise words,
    /// a subreddit or multireddit prefix, or a direct URL list.
    pub fn interpret_input_mode(&self, user_in: &str) -> (r: InputMode)
        ensures
            r == spec_input_mode(user_in@),
    {
        let lower = to_lowercase_str(user_in);
        if str_eq(lower.as_str(), "demo") {
            InputMode::Demo
        } else if str_eq(lower.as_str(), "surprise") {
            InputMode::Surprise
        } else if str_starts_with(user_in, "r/") {
            InputMode::Subreddit
        } else if str_starts_with(user_in, "m/") {
            InputMode::Multireddit
        } else {
            InputMode::DirectUrls
        }
    }
}

/// The fixed demonstration thread.
pub fn demo_urls() -> (r: Vec<String>)
    ensures
        r@.len() == 1,
        r@[0]@
            == "https://www.reddit.com/r/pcmasterrace/comments/101kjyq/my_dad_has_been_playing_civilization_almost_daily/"@,
{
    let mut r: Vec<String> = Vec::new();
    r.push(
        "https://www.reddit.com/r/pcmasterrace/comments/101kjyq/my_dad_has_been_playing_civilization_almost_daily/".to_owned(),
    );
    r
}

} // verus!
