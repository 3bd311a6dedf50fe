//! Target-path resolution: derive a file name from a thread URL, group it
//! under subreddit and date directories, and resolve collisions by numeric
//! suffixes.  The caller lists the occupied paths and creates directories;
//! everything decided here is pure and verified.

use vstd::prelude::*;

use crate::filters::lower_of;
use crate::filters::to_lowercase_str;
use crate::numbers::dec_digits;
use crate::numbers::int_dec;
use crate::numbers::u64_dec_chars;
use crate::text::chars_of;
use crate::text::copy_range;
use crate::text::push_all;
use crate::text::starts_with_seq;
use crate::text::str_eq;
use crate::text::str_starts_with;
use crate::text::string_of;

verus! {

/// Whether the text parses as `YYYY-MM-DD HH:MM:SS`, as
/// `chrono::NaiveDateTime::parse_from_str` accepts it.
pub uninterp spec fn parses_as_datetime(s: Seq<char>) -> bool;

/// The `YYYY-MM-DD` date text of a parsed timestamp text.
pub uninterp spec fn datetime_date_text(s: Seq<char>) -> Seq<char>;

/// Relies on `chrono::NaiveDateTime::parse_from_str` with the
/// `%Y-%m-%d %H:%M:%S` format and on the parsed value's `%Y-%m-%d` display:
/// both depend on the text alone.  When the text does not parse, the current
/// date stands in, of which nothing is promised.
#[verifier::external_body]
pub fn timestamp_to_date(timestamp: &str) -> (r: String)
    ensures
        parses_as_datetime(timestamp@) ==> r@ == datetime_date_text(timestamp@),
{
    if let Ok(dt) = chrono::NaiveDateTime::parse_from_str(timestamp, "%Y-%m-%d %H:%M:%S") {
        dt.format("%Y-%m-%d").to_string()
    } else {
        chrono::Utc::now().format("%Y-%m-%d").to_string()
    }
}

/// Relies on `chrono::Utc::now`: the current Unix timestamp.  Nothing is
/// promised of the value.
#[verifier::external_body]
fn now_unix() -> (t: i64) {
    chrono::Utc::now().timestamp()
}

/// `s` without its trailing slashes.
pub open spec fn trim_trailing_slashes(s: Seq<char>) -> Seq<char>
    decreases s.len(),
{
    if s.len() > 0 && s[s.len() - 1] == '/' {
        trim_trailing_slashes(s.take(s.len() - 1))
    } else {
        s
    }
}

/// The text after the last slash of `t`; all of `t` when it has none.
pub open spec fn spec_last_segment(t: Seq<char>) -> Seq<char> {
    if exists|i: int| 0 <= i < t.len() && t[i] == '/' {
        let i = choose|i: int|
            0 <= i < t.len() && t[i] == '/' && (forall|j: int| i < j < t.len() ==> t[j] != '/');
        t.skip(i + 1)
    } else {
        t
    }
}

/// The file-name candidate a URL yields: its final path segment after
/// trailing slashes are trimmed; none when nothing is left.
pub open spec fn spec_name_candidate(url: Seq<char>) -> Option<Seq<char>> {
    let t = trim_trailing_slashes(url);
    if t.len() == 0 {
        None
    } else {
        Some(spec_last_segment(t))
    }
}

/// The file-name candidate of a thread URL.
pub fn derive_name_candidate(url: &str) -> (r: Option<String>)
    ensures
        match r {
            Some(s) => spec_name_candidate(url@) == Some(s@),
            None => spec_name_candidate(url@) is None,
        },
{
    let v = chars_of(url);
    let mut hi: usize = v.len();
    proof {
        assert(v@.take(v@.len() as int) =~= v@);
    }
    while hi > 0 && v[hi - 1] == '/'
        invariant
            hi <= v@.len(),
            trim_trailing_slashes(url@) == trim_trailing_slashes(v@.take(hi as int)),
        decreases hi,
    {
        proof {
            let cur = v@.take(hi as int);
            assert(cur[cur.len() - 1] == v@[hi - 1]);
            assert(cur.take(cur.len() - 1) =~= v@.take(hi - 1));
        }
        hi -= 1;
    }
    let ghost t = v@.take(hi as int);
    proof {
        if hi > 0 {
            assert(t[t.len() - 1] == v@[hi - 1]);
        }
        assert(trim_trailing_slashes(url@) == t);
    }
    if hi == 0 {
        return None;
    }
    let mut k: usize = hi;
    while k > 0 && v[k - 1] != '/'
        invariant
            k <= hi <= v@.len(),
            t == v@.take(hi as int),
            forall|j: int| k <= j < hi ==> v@[j] != '/',
        decreases k,
    {
        k -= 1;
    }
    let seg = copy_range(&v, k, hi);
    proof {
        assert(forall|j: int| k <= j < t.len() ==> t[j] == v@[j]);
        if k == 0 {
            assert(forall|j: int| 0 <= j < t.len() ==> t[j] != '/');
            assert(!(exists|i: int| 0 <= i < t.len() && t[i] == '/'));
            assert(seg@ =~= t);
        } else {
            assert(t[k - 1] == v@[k - 1]);
            assert(v@[k - 1] == '/');
            assert(exists|i: int| 0 <= i < t.len() && t[i] == '/');
            let w = choose|i: int|
                0 <= i < t.len() && t[i] == '/' && (forall|j: int| i < j < t.len() ==> t[j] != '/');
            assert(t[w] == '/');
            assert(w == k - 1);
            assert(seg@ =~= t.skip(k as int));
        }
        assert(spec_name_candidate(url@) == Some(seg@));
    }
    Some(string_of(&seg))
}

/// Join a path and one further component with a slash; an empty base
/// contributes no leading slash.
pub open spec fn spec_join(dir: Seq<char>, name: Seq<char>) -> Seq<char> {
    if dir.len() == 0 {
        name
    } else {
        dir + "/"@ + name
    }
}

fn join_path(dir: &str, name: &Vec<char>) -> (r: Vec<char>)
    ensures
        r@ == spec_join(dir@, name@),
{
    if dir.is_empty() {
        let mut out: Vec<char> = Vec::new();
        push_all(&mut out, name);
        proof {
            assert(out@ =~= name@);
        }
        out
    } else {
        let mut out = chars_of(dir);
        proof {
            reveal_strlit("/");
        }
        push_all(&mut out, &chars_of("/"));
        push_all(&mut out, name);
        proof {
            assert(out@ =~= dir@ + "/"@ + name@);
        }
        out
    }
}

/// The subreddit as a directory name: a leading `r/` is stripped.
pub open spec fn spec_sub_dir(subreddit: Seq<char>) -> Seq<char> {
    if starts_with_seq(subreddit, "r/"@) {
        subreddit.skip(2)
    } else {
        subreddit
    }
}

/// The directory a thread's file goes in: the base directory, then the
/// subreddit (when non-empty), then the date bucket (when one is used).
pub open spec fn spec_target_dir(
    base_dir: Seq<char>,
    subreddit: Seq<char>,
    date_bucket: Option<Seq<char>>,
) -> Seq<char> {
    let sub = spec_sub_dir(subreddit);
    let with_sub = if sub.len() > 0 {
        spec_join(base_dir, sub)
    } else {
        base_dir
    };
    match date_bucket {
        Some(d) => spec_join(with_sub, d),
        None => with_sub,
    }
}

/// The extension a format string selects: `html` case-insensitively, `md`
/// for anything else.
pub open spec fn spec_extension(file_format: Seq<char>) -> Seq<char> {
    if lower_of(file_format) == "html"@ {
        "html"@
    } else {
        "md"@
    }
}

/// The path of the unsuffixed candidate file.
pub open spec fn spec_plain_path(dir: Seq<char>, stem: Seq<char>, ext: Seq<char>) -> Seq<char> {
    spec_join(dir, stem + "."@ + ext)
}

/// The path of the candidate file with numeric suffix `n`.
pub open spec fn spec_suffixed_path(dir: Seq<char>, stem: Seq<char>, ext: Seq<char>, n: nat) -> Seq<
    char,
> {
    spec_join(dir, stem + "_"@ + dec_digits(n) + "."@ + ext)
}

/// The path occurs in the occupied list.
pub open spec fn occupied_has(occupied: Seq<Seq<char>>, p: Seq<char>) -> bool {
    exists|i: int| 0 <= i < occupied.len() && occupied[i] == p
}

fn is_occupied(occupied: &[String], p: &Vec<char>) -> (r: bool)
    ensures
        r == occupied_has(occupied.deep_view(), p@),
{
    let mut i: usize = 0;
    while i < occupied.len()
        invariant
            i <= occupied@.len(),
            forall|k: int| 0 <= k < i ==> #[trigger] occupied.deep_view()[k] != p@,
        decreases occupied@.len() - i,
    {
        let cand = chars_of(occupied[i].as_str());
        if crate::text::eq_chars(&cand, p) {
            proof {
                assert(occupied.deep_view()[i as int] == occupied@[i as int]@);
            }
            return true;
        }
        proof {
            assert(occupied.deep_view()[i as int] == occupied@[i as int]@);
        }
        i += 1;
    }
    false
}

/// The first free suffixed path, probing `n`, `n+1`, … while `fuel` lasts.
pub open spec fn spec_first_free(
    dir: Seq<char>,
    stem: Seq<char>,
    ext: Seq<char>,
    occupied: Seq<Seq<char>>,
    n: nat,
    fuel: nat,
) -> Option<Seq<char>>
    decreases fuel,
{
    if fuel == 0 {
        None
    } else if !occupied_has(occupied, spec_suffixed_path(dir, stem, ext, n)) {
        Some(spec_suffixed_path(dir, stem, ext, n))
    } else {
        spec_first_free(dir, stem, ext, occupied, n + 1, (fuel - 1) as nat)
    }
}

/// The resolved target path: the plain candidate when it is free or may be
/// overwritten, else the first free suffixed candidate, probing suffixes
/// `1, 2, …` up to one past the number of occupied paths.
pub open spec fn spec_resolved_path(
    base_dir: Seq<char>,
    subreddit: Seq<char>,
    date_bucket: Option<Seq<char>>,
    stem: Seq<char>,
    file_format: Seq<char>,
    overwrite: bool,
    occupied: Seq<Seq<char>>,
) -> Option<Seq<char>> {
    let dir = spec_target_dir(base_dir, subreddit, date_bucket);
    let ext = spec_extension(file_format);
    let plain = spec_plain_path(dir, stem, ext);
    if !occupied_has(occupied, plain) || overwrite {
        Some(plain)
    } else {
        spec_first_free(dir, stem, ext, occupied, 1, occupied.len() + 1)
    }
}

/// Resolve the target path for given directory parts and occupied paths.
/// `None` can only arise when every probed suffix collides.
pub fn resolve_target_path(
    base_dir: &str,
    subreddit: &str,
    date_bucket: Option<&String>,
    stem: &str,
    file_format: &str,
    overwrite: bool,
    occupied: &[String],
) -> (r: Option<String>)
    requires
        occupied@.len() < usize::MAX,
    ensures
        (match r {
            Some(p) => Some(p@),
            None => None,
        }) == spec_resolved_path(
            base_dir@,
            subreddit@,
            match date_bucket {
                Some(d) => Some(d@),
                None => None,
            },
            stem@,
            file_format@,
            overwrite,
            occupied.deep_view(),
        ),
{
    let ghost spec_bucket: Option<Seq<char>> = match date_bucket {
        Some(d) => Some(d@),
        None => None,
    };
    // directory
    let sub: Vec<char> = if str_starts_with(subreddit, "r/") {
        let sv = chars_of(subreddit);
        proof {
            reveal_strlit("r/");
        }
        let stripped = copy_range(&sv, 2, sv.len());
        proof {
            assert(stripped@ =~= subreddit@.skip(2));
        }
        stripped
    } else {
        chars_of(subreddit)
    };
    let with_sub: Vec<char> = if sub.len() > 0 {
        join_path(base_dir, &sub)
    } else {
        chars_of(base_dir)
    };
    let dir: Vec<char> = match date_bucket {
        Some(d) => {
            let dv = chars_of(d.as_str());
            let mut out: Vec<char> = Vec::new();
            push_all(&mut out, &with_sub);
            if with_sub.len() > 0 {
                proof {
                    reveal_strlit("/");
                }
                push_all(&mut out, &chars_of("/"));
            }
            push_all(&mut out, &dv);
            proof {
                assert(out@ =~= spec_join(with_sub@, d@));
            }
            out
        },
        None => with_sub,
    };
    proof {
        assert(dir@ == spec_target_dir(base_dir@, subreddit@, spec_bucket));
    }
    // extension
    let lowered = to_lowercase_str(file_format);
    let ext: Vec<char> = if str_eq(lowered.as_str(), "html") {
        chars_of("html")
    } else {
        chars_of("md")
    };
    proof {
        assert(ext@ == spec_extension(file_format@));
    }
    // plain candidate
    let stem_chars = chars_of(stem);
    let plain = make_plain_path(&dir, &stem_chars, &ext);
    proof {
        assert(plain@ == spec_plain_path(dir@, stem@, ext@));
    }
    if overwrite || !is_occupied(occupied, &plain) {
        return Some(string_of(&plain));
    }
    // probe suffixes
    let bound: usize = occupied.len() + 1;
    let mut k: usize = 0;
    while k < bound
        invariant
            k <= bound,
            bound == occupied.deep_view().len() + 1,
            stem_chars@ == stem@,
            spec_bucket == (match date_bucket {
                Some(d) => Some(d@),
                None => None,
            }),
            dir@ == spec_target_dir(base_dir@, subreddit@, spec_bucket),
            ext@ == spec_extension(file_format@),
            !overwrite,
            occupied_has(occupied.deep_view(), spec_plain_path(dir@, stem@, ext@)),
            spec_first_free(
                dir@,
                stem@,
                ext@,
                occupied.deep_view(),
                1,
                occupied.deep_view().len() + 1,
            ) == spec_first_free(
                dir@,
                stem@,
                ext@,
                occupied.deep_view(),
                (k + 1) as nat,
                (bound - k) as nat,
            ),
        decreases bound - k,
    {
        let cand = make_suffixed_path(&dir, &stem_chars, &ext, (k as u64) + 1);
        proof {
            assert(cand@ == spec_suffixed_path(dir@, stem@, ext@, (k + 1) as nat));
        }
        if !is_occupied(occupied, &cand) {
            proof {
                assert(spec_first_free(
                    dir@,
                    stem@,
                    ext@,
                    occupied.deep_view(),
                    (k + 1) as nat,
                    (bound - k) as nat,
                ) == Some(cand@));
            }
            return Some(string_of(&cand));
        }
        k += 1;
    }
    proof {
        assert(spec_first_free(dir@, stem@, ext@, occupied.deep_view(), (bound + 1) as nat, 0nat)
            is None);
    }
    None
}

fn make_plain_path(dir: &Vec<char>, stem: &Vec<char>, ext: &Vec<char>) -> (r: Vec<char>)
    ensures
        r@ == spec_plain_path(dir@, stem@, ext@),
{
    let mut name: Vec<char> = Vec::new();
    push_all(&mut name, stem);
    push_all(&mut name, &chars_of("."));
    push_all(&mut name, ext);
    proof {
        assert(name@ =~= stem@ + "."@ + ext@);
    }
    join_vecs(dir, &name)
}

fn make_suffixed_path(dir: &Vec<char>, stem: &Vec<char>, ext: &Vec<char>, n: u64) -> (r: Vec<char>)
    ensures
        r@ == spec_suffixed_path(dir@, stem@, ext@, n as nat),
{
    let mut name: Vec<char> = Vec::new();
    push_all(&mut name, stem);
    push_all(&mut name, &chars_of("_"));
    push_all(&mut name, &u64_dec_chars(n));
    push_all(&mut name, &chars_of("."));
    push_all(&mut name, ext);
    proof {
        assert(name@ =~= stem@ + "_"@ + dec_digits(n as nat) + "."@ + ext@);
    }
    join_vecs(dir, &name)
}

fn join_vecs(dir: &Vec<char>, name: &Vec<char>) -> (r: Vec<char>)
    ensures
        r@ == spec_join(dir@, name@),
{
    if dir.len() == 0 {
        let mut out: Vec<char> = Vec::new();
        push_all(&mut out, name);
        proof {
            assert(out@ =~= name@);
        }
        out
    } else {
        let mut out: Vec<char> = Vec::new();
        push_all(&mut out, dir);
        proof {
            reveal_strlit("/");
        }
        push_all(&mut out, &chars_of("/"));
        push_all(&mut out, name);
        proof {
            assert(out@ =~= dir@ + "/"@ + name@);
        }
        out
    }
}

proof fn lemma_concat_right_cancel(dir: Seq<char>, na: Seq<char>, nb: Seq<char>)
    requires
        dir + na == dir + nb,
    ensures
        na == nb,
{
    let pa = dir + na;
    let pb = dir + nb;
    assert(pa.len() == dir.len() + na.len());
    assert(pb.len() == dir.len() + nb.len());
    assert(na.len() == nb.len());
    assert forall|i: int| 0 <= i < na.len() implies na[i] == nb[i] by {
        assert(pa[dir.len() + i] == na[i]);
        assert(pb[dir.len() + i] == nb[i]);
    }
    assert(na =~= nb);
}

proof fn lemma_suffixed_path_injective(
    dir: Seq<char>,
    stem: Seq<char>,
    ext: Seq<char>,
    a: nat,
    b: nat,
)
    requires
        spec_suffixed_path(dir, stem, ext, a) == spec_suffixed_path(dir, stem, ext, b),
    ensures
        a == b,
{
    let na = stem + "_"@ + dec_digits(a) + "."@ + ext;
    let nb = stem + "_"@ + dec_digits(b) + "."@ + ext;
    if dir.len() == 0 {
        assert(na == nb);
    } else {
        assert((dir + "/"@) + na =~= dir + "/"@ + na);
        assert((dir + "/"@) + nb =~= dir + "/"@ + nb);
        lemma_concat_right_cancel(dir + "/"@, na, nb);
    }
    let pre = stem + "_"@;
    let ma = pre + dec_digits(a);
    let mb = pre + dec_digits(b);
    assert(na.len() == ma.len() + "."@.len() + ext.len());
    assert(nb.len() == mb.len() + "."@.len() + ext.len());
    assert(dec_digits(a).len() == dec_digits(b).len());
    let lo = pre.len() as int;
    assert forall|i: int| 0 <= i < dec_digits(a).len() implies dec_digits(a)[i] == dec_digits(
        b,
    )[i] by {
        assert(na[lo + i] == (ma + "."@)[lo + i]);
        assert((ma + "."@)[lo + i] == ma[lo + i]);
        assert(ma[lo + i] == dec_digits(a)[i]);
        assert(nb[lo + i] == (mb + "."@)[lo + i]);
        assert((mb + "."@)[lo + i] == mb[lo + i]);
        assert(mb[lo + i] == dec_digits(b)[i]);
    }
    assert(dec_digits(a) =~= dec_digits(b));
    crate::numbers::lemma_dec_digits_injective(a, b);
}

proof fn lemma_first_free_none(
    dir: Seq<char>,
    stem: Seq<char>,
    ext: Seq<char>,
    occupied: Seq<Seq<char>>,
    n: nat,
    fuel: nat,
)
    requires
        spec_first_free(dir, stem, ext, occupied, n, fuel) is None,
    ensures
        forall|k: int|
            n <= k < n + fuel ==> occupied_has(
                occupied,
                #[trigger] spec_suffixed_path(dir, stem, ext, k as nat),
            ),
    decreases fuel,
{
    if fuel > 0 {
        lemma_first_free_none(dir, stem, ext, occupied, n + 1, (fuel - 1) as nat);
    }
}

/// Law: path resolution always yields a path: the plain candidate when it is
/// free or may be overwritten, else one of the probed suffixed candidates —
/// these are pairwise distinct and one more numerous than the occupied
/// paths, so one of them must be free.
pub proof fn lemma_resolution_never_fails(
    base_dir: Seq<char>,
    subreddit: Seq<char>,
    date_bucket: Option<Seq<char>>,
    stem: Seq<char>,
    file_format: Seq<char>,
    overwrite: bool,
    occupied: Seq<Seq<char>>,
)
    ensures
        spec_resolved_path(
            base_dir,
            subreddit,
            date_bucket,
            stem,
            file_format,
            overwrite,
            occupied,
        ) is Some,
{
    let dir = spec_target_dir(base_dir, subreddit, date_bucket);
    let ext = spec_extension(file_format);
    let plain = spec_plain_path(dir, stem, ext);
    if occupied_has(occupied, plain) && !overwrite {
        let ff = spec_first_free(dir, stem, ext, occupied, 1, occupied.len() + 1);
        if ff is None {
            lemma_first_free_none(dir, stem, ext, occupied, 1, occupied.len() + 1);
            let f = |k: int| spec_suffixed_path(dir, stem, ext, k as nat);
            let xs = vstd::set_lib::set_int_range(1, occupied.len() as int + 2);
            vstd::set_lib::lemma_int_range(1, occupied.len() as int + 2);
            assert forall|x: int, y: int|
                xs.contains(x) && xs.contains(y) && #[trigger] f(x) == #[trigger] f(
                    y,
                ) implies x == y by {
                lemma_suffixed_path_injective(dir, stem, ext, x as nat, y as nat);
            }
            let ys = xs.map(f);
            vstd::set_lib::lemma_map_size(xs, ys, f);
            assert forall|p: Seq<char>| ys.contains(p) implies occupied.to_set().contains(p) by {
                let x = choose|x: int| xs.contains(x) && p == f(x);
                assert(occupied_has(occupied, spec_suffixed_path(dir, stem, ext, x as nat)));
                assert(occupied.contains(p));
            }
            assert(ys.subset_of(occupied.to_set()));
            occupied.lemma_cardinality_of_set();
            vstd::set_lib::lemma_len_subset(ys, occupied.to_set());
            assert(false);
        }
    }
}

/// The file stem `generate_filename` uses: the URL's name candidate when it
/// has one, else a placeholder derived from some Unix timestamp.
pub open spec fn stem_matches(stem: Seq<char>, url: Seq<char>) -> bool {
    match spec_name_candidate(url) {
        Some(s) => stem == s,
        None => exists|t: int| stem == "reddit_no_name_"@ + int_dec(t),
    }
}

/// The date bucket `generate_filename` uses: none unless date directories
/// are on and a timestamp text is given; then the timestamp's date when it
/// parses, and some date text (the current date) when it does not.
pub open spec fn bucket_matches(
    bucket: Option<Seq<char>>,
    use_timestamped_dirs: bool,
    post_timestamp: Seq<char>,
) -> bool {
    if use_timestamped_dirs && post_timestamp.len() > 0 {
        if parses_as_datetime(post_timestamp) {
            bucket == Some(datetime_date_text(post_timestamp))
        } else {
            bucket is Some
        }
    } else {
        bucket is None
    }
}

/// `generate_filename`'s result: the resolved path for the URL's stem and
/// the configured date bucket.
pub open spec fn spec_generate_matches(
    rv: Option<Seq<char>>,
    base_dir: Seq<char>,
    url: Seq<char>,
    subreddit: Seq<char>,
    use_timestamped_dirs: bool,
    post_timestamp: Seq<char>,
    file_format: Seq<char>,
    overwrite: bool,
    occupied: Seq<Seq<char>>,
) -> bool {
    exists|stem: Seq<char>, bucket: Option<Seq<char>>|
        stem_matches(stem, url) && bucket_matches(bucket, use_timestamped_dirs, post_timestamp)
            && rv == #[trigger] spec_resolved_path(
            base_dir,
            subreddit,
            bucket,
            stem,
            file_format,
            overwrite,
            occupied,
        )
}

/// Resolve the on-disk path for a thread: the URL's final path segment (or a
/// timestamp-derived placeholder when the URL has none) becomes the file
/// stem; the file goes under the subreddit directory and, when configured
/// and a timestamp is given, a `YYYY-MM-DD` date directory; the extension
/// follows the format; and an occupied path is kept as-is when overwriting,
/// else suffixed `_1`, `_2`, … until a free path is found.  The caller
/// supplies the occupied paths and creates the directory.
pub fn generate_filename(
    base_dir: &str,
    url: &str,
    subreddit: &str,
    use_timestamped_dirs: bool,
    post_timestamp: &str,
    file_format: &str,
    overwrite: bool,
    occupied: &[String],
) -> (r: Option<String>)
    requires
        occupied@.len() < usize::MAX,
    ensures
        spec_generate_matches(
            match r {
                Some(p) => Some(p@),
                None => None,
            },
            base_dir@,
            url@,
            subreddit@,
            use_timestamped_dirs,
            post_timestamp@,
            file_format@,
            overwrite,
            occupied.deep_view(),
        ),
{
    let stem: String = match derive_name_candidate(url) {
        Some(s) => s,
        None => {
            let now = now_unix();
            let mut fallback: Vec<char> = chars_of("reddit_no_name_");
            push_all(&mut fallback, &crate::numbers::i64_dec_chars(now));
            proof {
                assert(fallback@ =~= "reddit_no_name_"@ + int_dec(now as int));
            }
            string_of(&fallback)
        },
    };
    proof {
        assert(stem_matches(stem@, url@));
    }
    let bucket: Option<String> = if use_timestamped_dirs && !post_timestamp.is_empty() {
        Some(timestamp_to_date(post_timestamp))
    } else {
        None
    };
    let bucket_ref: Option<&String> = match &bucket {
        Some(d) => Some(d),
        None => None,
    };
    let ghost bucket_view: Option<Seq<char>> = match bucket_ref {
        Some(d) => Some(d@),
        None => None,
    };
    proof {
        assert(bucket_matches(bucket_view, use_timestamped_dirs, post_timestamp@));
    }
    let r = resolve_target_path(
        base_dir,
        subreddit,
        bucket_ref,
        stem.as_str(),
        file_format,
        overwrite,
        occupied,
    );
    proof {
        let rv: Option<Seq<char>> = match &r {
            Some(p) => Some(p@),
            None => None,
        };
        assert(rv == spec_resolved_path(
            base_dir@,
            subreddit@,
            bucket_view,
            stem@,
            file_format@,
            overwrite,
            occupied.deep_view(),
        ));
    }
    r
}

} // verus!
