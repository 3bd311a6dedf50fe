//! Application settings: the render toggles, filter policy and version
//! comparison.  Loading the settings file and checking a release feed are
//! I/O and live with the caller; the version comparison itself is verified.

use vstd::prelude::*;

use std::collections::HashMap;

use crate::filters::Filters;
use crate::numbers::parse_u32_chars;
use crate::numbers::parse_u32_seq;
use crate::text::chars_of;
use crate::text::split_chars;
use crate::text::split_seq;

verus! {

/// Credentials and the login toggle for the content API.
pub struct AuthSettings {
    pub login_on_startup: bool,
    pub client_id: String,
    pub client_secret: String,
    pub username: String,
    pub password: String,
}

/// The application settings, as the settings file supplies them.
pub struct Settings {
    pub version: String,
    pub file_format: String,
    pub update_check_on_startup: bool,
    pub auth: AuthSettings,
    pub show_upvotes: bool,
    pub reply_depth_max: i32,
    pub reply_depth_color_indicators: bool,
    pub line_break_between_parent_replies: bool,
    pub show_auto_mod_comment: bool,
    pub overwrite_existing_file: bool,
    pub save_posts_by_subreddits: bool,
    pub show_timestamp: bool,
    pub filtered_message: String,
    pub filters: Filters,
    pub default_save_location: String,
    pub use_timestamped_directories: bool,
    pub enable_media_downloads: bool,
    pub multi_reddits: HashMap<String, Vec<String>>,
}

/// The numeric components of a list of version pieces: each piece that
/// parses as an unsigned integer, in order; pieces that do not parse are
/// skipped.
pub open spec fn parsed_parts(pieces: Seq<Seq<char>>) -> Seq<u32>
    decreases pieces.len(),
{
    if pieces.len() == 0 {
        Seq::empty()
    } else {
        let rest = parsed_parts(pieces.drop_last());
        match parse_u32_seq(pieces.last()) {
            Some(v) => rest.push(v),
            None => rest,
        }
    }
}

/// The numeric components of a version string's dot-separated pieces.
pub open spec fn version_parts(s: Seq<char>) -> Seq<u32> {
    parsed_parts(split_seq(s, '.'))
}

/// The component at `i`, missing components reading as zero.
pub open spec fn part_or_zero(ps: Seq<u32>, i: int) -> u32 {
    if 0 <= i < ps.len() {
        ps[i]
    } else {
        0u32
    }
}

/// `latest` is strictly newer than `cur`, comparing the first three
/// components in order; the first differing component decides.
pub open spec fn spec_is_newer(cur: Seq<u32>, latest: Seq<u32>) -> bool {
    if part_or_zero(latest, 0) != part_or_zero(cur, 0) {
        part_or_zero(latest, 0) > part_or_zero(cur, 0)
    } else if part_or_zero(latest, 1) != part_or_zero(cur, 1) {
        part_or_zero(latest, 1) > part_or_zero(cur, 1)
    } else if part_or_zero(latest, 2) != part_or_zero(cur, 2) {
        part_or_zero(latest, 2) > part_or_zero(cur, 2)
    } else {
        false
    }
}

/// The numeric components of a version string.
fn parse_version_parts(s: &str) -> (out: Vec<u32>)
    ensures
        out@ == version_parts(s@),
{
    let sv = chars_of(s);
    let pieces = split_chars(&sv, '.');
    let mut out: Vec<u32> = Vec::new();
    let mut i: usize = 0;
    proof {
        assert(pieces.deep_view().take(0) =~= Seq::<Seq<char>>::empty());
    }
    while i < pieces.len()
        invariant
            i <= pieces@.len(),
            pieces.deep_view() == split_seq(s@, '.'),
            out@ == parsed_parts(pieces.deep_view().take(i as int)),
        decreases pieces@.len() - i,
    {
        proof {
            let t = pieces.deep_view().take(i + 1);
            assert(t.drop_last() =~= pieces.deep_view().take(i as int));
            assert(t.last() == pieces.deep_view()[i as int]);
            assert(pieces.deep_view()[i as int] == pieces@[i as int]@);
        }
        match parse_u32_chars(&pieces[i]) {
            Some(v) => out.push(v),
            None => (),
        }
        i += 1;
    }
    proof {
        assert(pieces.deep_view().take(pieces@.len() as int) =~= pieces.deep_view());
    }
    out
}

fn part_at(ps: &Vec<u32>, i: usize) -> (r: u32)
    ensures
        r == part_or_zero(ps@, i as int),
{
    if i < ps.len() {
        ps[i]
    } else {
        0
    }
}

impl Settings {
    /// Whether `latest` names a strictly newer version than this
    /// configuration's own, comparing up to three dot-separated numeric
    /// components; the first differing component decides, and a missing or
    /// unparsable component reads as zero.
    pub fn is_newer_version(&self, latest: &str) -> (r: bool)
        ensures
            r == spec_is_newer(version_parts(self.version@), version_parts(latest@)),
    {
        let cur = parse_version_parts(self.version.as_str());
        let new = parse_version_parts(latest);
        let mut i: usize = 0;
        while i < 3
            invariant
                i <= 3,
                cur@ == version_parts(self.version@),
                new@ == version_parts(latest@),
                forall|k: int| 0 <= k < i ==> part_or_zero(new@, k) == part_or_zero(cur@, k),
            decreases 3 - i,
        {
            let c = part_at(&cur, i);
            let l = part_at(&new, i);
            if l > c {
                return true;
            } else if l < c {
                return false;
            }
            i += 1;
        }
        false
    }
}

} // verus!
