//! Character-sequence utilities: substring search, replacement, trimming,
//! splitting and decimal formatting, all verified against exact
//! specifications over `Seq<char>`.

use vstd::prelude::*;

verus! {

/// The Unicode `White_Space` characters, the set `str::trim` strips.
pub open spec fn is_wspace(c: char) -> bool {
    ||| c == ' '
    ||| c == '\t'
    ||| c == '\n'
    ||| c == '\r'
    ||| (c as u32) == 0x0b
    ||| (c as u32) == 0x0c
    ||| (c as u32) == 0x85
    ||| (c as u32) == 0xa0
    ||| (c as u32) == 0x1680
    ||| (0x2000 <= (c as u32) && (c as u32) <= 0x200a)
    ||| (c as u32) == 0x2028
    ||| (c as u32) == 0x2029
    ||| (c as u32) == 0x202f
    ||| (c as u32) == 0x205f
    ||| (c as u32) == 0x3000
}

pub fn is_wspace_char(c: char) -> (r: bool)
    ensures
        r == is_wspace(c),
{
    let u = c as u32;
    u == 0x20 || u == 0x09 || u == 0x0a || u == 0x0d || u == 0x0b || u == 0x0c || u == 0x85
        || u == 0xa0 || u == 0x1680 || (0x2000 <= u && u <= 0x200a) || u == 0x2028 || u == 0x2029
        || u == 0x202f || u == 0x205f || u == 0x3000
}

/// Every character of `s` is whitespace (true of the empty sequence).
pub open spec fn ws_only(s: Seq<char>) -> bool {
    forall|i: int| 0 <= i < s.len() ==> is_wspace(s[i])
}

/// Whether every character of `s` is whitespace.
pub fn is_ws_only_str(s: &str) -> (r: bool)
    ensures
        r == ws_only(s@),
{
    let n = s.unicode_len();
    let mut i: usize = 0;
    while i < n
        invariant
            i <= n,
            n == s@.len(),
            forall|k: int| 0 <= k < i ==> is_wspace(s@[k]),
        decreases n - i,
    {
        if !is_wspace_char(s.get_char(i)) {
            return false;
        }
        i += 1;
    }
    true
}

/// The characters of `s`, as a vector.
pub fn chars_of(s: &str) -> (v: Vec<char>)
    ensures
        v@ == s@,
{
    let n = s.unicode_len();
    let mut v: Vec<char> = Vec::new();
    let mut i: usize = 0;
    while i < n
        invariant
            i <= n,
            n == s@.len(),
            v@ == s@.subrange(0, i as int),
        decreases n - i,
    {
        v.push(s.get_char(i));
        i += 1;
    }
    proof {
        assert(v@ =~= s@);
    }
    v
}

/// Relies on `String::from_iter` (through `Iterator::collect`): the string
/// collected from an iterator of characters holds exactly those characters.
#[verifier::external_body]
pub fn string_of(v: &Vec<char>) -> (s: String)
    ensures
        s@ == v@,
{
    v.iter().collect()
}

/// `needle` occurs in `hay` starting at position `i`.
pub open spec fn match_at(hay: Seq<char>, needle: Seq<char>, i: int) -> bool {
    0 <= i && i + needle.len() <= hay.len() && hay.subrange(i, i + needle.len()) == needle
}

/// `needle` occurs somewhere in `hay`.
pub open spec fn contains_seq(hay: Seq<char>, needle: Seq<char>) -> bool {
    exists|i: int| match_at(hay, needle, i)
}

/// `hay` begins with `needle`.
pub open spec fn starts_with_seq(hay: Seq<char>, needle: Seq<char>) -> bool {
    needle.len() <= hay.len() && hay.subrange(0, needle.len() as int) == needle
}

/// Whether `needle` occurs in `hay` at position `i`.
pub fn matches_at(hay: &Vec<char>, needle: &Vec<char>, i: usize) -> (r: bool)
    requires
        i <= hay@.len(),
    ensures
        r == match_at(hay@, needle@, i as int),
{
    let hn = hay.len();
    if hn - i < needle.len() {
        proof {
            assert(!match_at(hay@, needle@, i as int));
        }
        return false;
    }
    let mut j: usize = 0;
    while j < needle.len()
        invariant
            hn == hay@.len(),
            i + needle@.len() <= hay@.len(),
            j <= needle@.len(),
            forall|k: int| 0 <= k < j ==> hay@[i + k] == needle@[k],
        decreases needle@.len() - j,
    {
        if hay[i + j] != needle[j] {
            proof {
                assert(hay@.subrange(i as int, i + needle@.len())[j as int] == hay@[i + j]);
            }
            return false;
        }
        j += 1;
    }
    proof {
        assert(hay@.subrange(i as int, i + needle@.len()) =~= needle@);
    }
    true
}

/// Position of the first occurrence of `needle` in `hay`, if any.
pub open spec fn find_seq(hay: Seq<char>, needle: Seq<char>) -> Option<int> {
    if contains_seq(hay, needle) {
        Some(choose|i: int| match_at(hay, needle, i) && forall|j: int|
            0 <= j < i ==> !match_at(hay, needle, j))
    } else {
        None
    }
}

proof fn lemma_first_match_exists(hay: Seq<char>, needle: Seq<char>)
    requires
        contains_seq(hay, needle),
    ensures
        exists|i: int|
            match_at(hay, needle, i) && (forall|j: int| 0 <= j < i ==> !match_at(hay, needle, j)),
{
    let w = choose|i: int| match_at(hay, needle, i);
    lemma_first_match_below(hay, needle, w);
}

proof fn lemma_first_match_below(hay: Seq<char>, needle: Seq<char>, w: int)
    requires
        match_at(hay, needle, w),
    ensures
        exists|i: int|
            match_at(hay, needle, i) && (forall|j: int| 0 <= j < i ==> !match_at(hay, needle, j)),
    decreases w,
{
    if exists|j: int| 0 <= j < w && match_at(hay, needle, j) {
        let w2 = choose|j: int| 0 <= j < w && match_at(hay, needle, j);
        lemma_first_match_below(hay, needle, w2);
    } else {
        assert(match_at(hay, needle, w) && (forall|j: int|
            0 <= j < w ==> !match_at(hay, needle, j)));
    }
}

/// Position of the first occurrence of `needle`, scanning left to right.
pub fn find_first(hay: &Vec<char>, needle: &Vec<char>) -> (r: Option<usize>)
    ensures
        match r {
            Some(i) => {
                &&& match_at(hay@, needle@, i as int)
                &&& forall|j: int| 0 <= j < i ==> !match_at(hay@, needle@, j)
                &&& find_seq(hay@, needle@) == Some(i as int)
            },
            None => !contains_seq(hay@, needle@) && find_seq(hay@, needle@) is None,
        },
{
    if needle.len() == 0 {
        proof {
            assert(hay@.subrange(0, 0) =~= needle@);
            assert(match_at(hay@, needle@, 0));
            lemma_first_match_exists(hay@, needle@);
        }
        return Some(0);
    }
    let mut i: usize = 0;
    while i < hay.len()
        invariant
            i <= hay@.len(),
            needle@.len() > 0,
            forall|j: int| 0 <= j < i ==> !match_at(hay@, needle@, j),
        decreases hay@.len() - i,
    {
        if matches_at(hay, needle, i) {
            proof {
                lemma_first_match_exists(hay@, needle@);
                let w = choose|k: int|
                    match_at(hay@, needle@, k) && (forall|j: int|
                        0 <= j < k ==> !match_at(hay@, needle@, j));
                assert(w == i as int);
            }
            return Some(i);
        }
        i += 1;
    }
    proof {
        assert(forall|j: int| match_at(hay@, needle@, j) ==> 0 <= j < i);
        assert(!contains_seq(hay@, needle@));
    }
    None
}

/// Whether `needle` occurs somewhere in `hay`.
pub fn contains_chars(hay: &Vec<char>, needle: &Vec<char>) -> (r: bool)
    ensures
        r == contains_seq(hay@, needle@),
{
    match find_first(hay, needle) {
        Some(_) => true,
        None => false,
    }
}

/// Whether `s` begins with `prefix`.
pub fn starts_with_chars(s: &Vec<char>, prefix: &Vec<char>) -> (r: bool)
    ensures
        r == starts_with_seq(s@, prefix@),
{
    matches_at(s, prefix, 0)
}

/// Append all of `src` to `dst`.
pub fn push_all(dst: &mut Vec<char>, src: &Vec<char>)
    ensures
        final(dst)@ == old(dst)@ + src@,
{
    let mut j: usize = 0;
    while j < src.len()
        invariant
            j <= src@.len(),
            dst@ == old(dst)@ + src@.subrange(0, j as int),
        decreases src@.len() - j,
    {
        dst.push(src[j]);
        proof {
            assert(old(dst)@ + src@.subrange(0, j as int) + seq![src@[j as int]] =~= old(dst)@
                + src@.subrange(0, j + 1));
        }
        j += 1;
    }
    proof {
        assert(old(dst)@ + src@.subrange(0, src@.len() as int) =~= old(dst)@ + src@);
    }
}

/// The characters of `s` from `lo` (inclusive) to `hi` (exclusive).
pub fn copy_range(s: &Vec<char>, lo: usize, hi: usize) -> (out: Vec<char>)
    requires
        lo <= hi <= s@.len(),
    ensures
        out@ == s@.subrange(lo as int, hi as int),
{
    let mut out: Vec<char> = Vec::new();
    let mut i: usize = lo;
    while i < hi
        invariant
            lo <= i <= hi <= s@.len(),
            out@ == s@.subrange(lo as int, i as int),
        decreases hi - i,
    {
        out.push(s[i]);
        proof {
            assert(s@.subrange(lo as int, i as int) + seq![s@[i as int]] =~= s@.subrange(
                lo as int,
                i + 1,
            ));
        }
        i += 1;
    }
    out
}

/// Whether two character vectors hold the same characters.
pub fn eq_chars(a: &Vec<char>, b: &Vec<char>) -> (r: bool)
    ensures
        r == (a@ == b@),
{
    if a.len() != b.len() {
        return false;
    }
    let mut i: usize = 0;
    while i < a.len()
        invariant
            a@.len() == b@.len(),
            i <= a@.len(),
            forall|k: int| 0 <= k < i ==> a@[k] == b@[k],
        decreases a@.len() - i,
    {
        if a[i] != b[i] {
            return false;
        }
        i += 1;
    }
    proof {
        assert(a@ =~= b@);
    }
    true
}

/// Whether `s` begins with `prefix`, as string slices.
pub fn str_starts_with(s: &str, prefix: &str) -> (r: bool)
    ensures
        r == starts_with_seq(s@, prefix@),
{
    let n = prefix.unicode_len();
    if s.unicode_len() < n {
        return false;
    }
    let mut i: usize = 0;
    while i < n
        invariant
            n == prefix@.len() <= s@.len(),
            i <= n,
            forall|k: int| 0 <= k < i ==> s@[k] == prefix@[k],
        decreases n - i,
    {
        if s.get_char(i) != prefix.get_char(i) {
            proof {
                assert(s@.subrange(0, prefix@.len() as int)[i as int] == s@[i as int]);
            }
            return false;
        }
        i += 1;
    }
    proof {
        assert(s@.subrange(0, prefix@.len() as int) =~= prefix@);
    }
    true
}

/// Whether two string slices hold the same characters.
pub fn str_eq(a: &str, b: &str) -> (r: bool)
    ensures
        r == (a@ == b@),
{
    let n = a.unicode_len();
    if n != b.unicode_len() {
        return false;
    }
    let mut i: usize = 0;
    while i < n
        invariant
            a@.len() == b@.len() == n,
            i <= n,
            forall|k: int| 0 <= k < i ==> a@[k] == b@[k],
        decreases n - i,
    {
        if a.get_char(i) != b.get_char(i) {
            return false;
        }
        i += 1;
    }
    proof {
        assert(a@ =~= b@);
    }
    true
}

/// `s` with every non-overlapping occurrence of `pat` replaced by `rep`,
/// scanning left to right; text already substituted is not rescanned.
pub open spec fn replace_seq(s: Seq<char>, pat: Seq<char>, rep: Seq<char>) -> Seq<char>
    decreases s.len(),
{
    if pat.len() == 0 || s.len() < pat.len() {
        s
    } else if starts_with_seq(s, pat) {
        rep + replace_seq(s.skip(pat.len() as int), pat, rep)
    } else {
        seq![s[0]] + replace_seq(s.skip(1), pat, rep)
    }
}

proof fn lemma_match_at_skip(s: Seq<char>, pat: Seq<char>, i: int)
    requires
        0 <= i <= s.len(),
    ensures
        match_at(s, pat, i) == starts_with_seq(s.skip(i), pat),
{
    if i + pat.len() <= s.len() {
        assert(s.skip(i).subrange(0, pat.len() as int) =~= s.subrange(i, i + pat.len()));
    }
}

/// `s` with every occurrence of `pat` replaced by `rep`.
pub fn replace_chars(s: &Vec<char>, pat: &Vec<char>, rep: &Vec<char>) -> (out: Vec<char>)
    requires
        pat@.len() > 0,
    ensures
        out@ == replace_seq(s@, pat@, rep@),
{
    let mut out: Vec<char> = Vec::new();
    let mut i: usize = 0;
    proof {
        assert(s@.skip(0) =~= s@);
    }
    while i < s.len()
        invariant
            i <= s@.len(),
            pat@.len() > 0,
            replace_seq(s@, pat@, rep@) == out@ + replace_seq(s@.skip(i as int), pat@, rep@),
        decreases s@.len() - i,
    {
        let ghost rest = s@.skip(i as int);
        if matches_at(s, pat, i) {
            proof {
                lemma_match_at_skip(s@, pat@, i as int);
                assert(rest.skip(pat@.len() as int) =~= s@.skip(i + pat@.len()));
            }
            push_all(&mut out, rep);
            i += pat.len();
        } else {
            proof {
                lemma_match_at_skip(s@, pat@, i as int);
                if rest.len() >= pat@.len() {
                    assert(replace_seq(rest, pat@, rep@) == seq![rest[0]] + replace_seq(
                        rest.skip(1),
                        pat@,
                        rep@,
                    ));
                } else {
                    assert(replace_seq(rest, pat@, rep@) == rest);
                    assert(rest.skip(1).len() < pat@.len());
                    assert(rest =~= seq![rest[0]] + rest.skip(1));
                }
                assert(rest[0] == s@[i as int]);
                assert(rest.skip(1) =~= s@.skip(i + 1));
            }
            out.push(s[i]);
            i += 1;
        }
    }
    proof {
        assert(s@.skip(s@.len() as int) =~= Seq::<char>::empty());
        assert(replace_seq(Seq::<char>::empty(), pat@, rep@) == Seq::<char>::empty());
        assert(out@ + Seq::<char>::empty() =~= out@);
    }
    out
}

/// The pieces of `s` between occurrences of `sep`: one piece more than there
/// are separators, empty pieces kept.
pub open spec fn split_seq(s: Seq<char>, sep: char) -> Seq<Seq<char>>
    decreases s.len(),
    via split_seq_decreases
{
    if !contains_seq(s, seq![sep]) {
        seq![s]
    } else {
        let i = choose|i: int|
            match_at(s, seq![sep], i) && (forall|j: int| 0 <= j < i ==> !match_at(s, seq![sep], j));
        seq![s.take(i)] + split_seq(s.skip(i + 1), sep)
    }
}

#[via_fn]
proof fn split_seq_decreases(s: Seq<char>, sep: char) {
    if contains_seq(s, seq![sep]) {
        lemma_first_match_exists(s, seq![sep]);
    }
}

proof fn lemma_match_single(s: Seq<char>, c: char, i: int)
    requires
        0 <= i < s.len(),
    ensures
        match_at(s, seq![c], i) == (s[i] == c),
{
    assert(s.subrange(i, i + 1) =~= seq![s[i]]);
    if s[i] == c {
        assert(s.subrange(i, i + 1) =~= seq![c]);
    } else {
        assert(s.subrange(i, i + 1)[0] == s[i]);
    }
}

proof fn lemma_split_step(s: Seq<char>, sep: char, j: int)
    requires
        0 <= j < s.len(),
        s[j] == sep,
        forall|k: int| 0 <= k < j ==> s[k] != sep,
    ensures
        split_seq(s, sep) == seq![s.take(j)] + split_seq(s.skip(j + 1), sep),
{
    assert forall|k: int| 0 <= k < j implies !match_at(s, seq![sep], k) by {
        lemma_match_single(s, sep, k);
    }
    lemma_match_single(s, sep, j);
    assert(match_at(s, seq![sep], j));
    lemma_first_match_exists(s, seq![sep]);
    let w = choose|i: int|
        match_at(s, seq![sep], i) && (forall|k: int| 0 <= k < i ==> !match_at(s, seq![sep], k));
    assert(w == j);
}

proof fn lemma_split_none(s: Seq<char>, sep: char)
    requires
        forall|k: int| 0 <= k < s.len() ==> s[k] != sep,
    ensures
        split_seq(s, sep) == seq![s],
{
    assert forall|k: int| !match_at(s, seq![sep], k) by {
        if 0 <= k < s.len() {
            lemma_match_single(s, sep, k);
        }
    }
    assert(!contains_seq(s, seq![sep]));
}

/// The pieces of `s` between occurrences of `sep`.
#[verifier::rlimit(100)]
pub fn split_chars(s: &Vec<char>, sep: char) -> (out: Vec<Vec<char>>)
    ensures
        out.deep_view() == split_seq(s@, sep),
{
    let mut out: Vec<Vec<char>> = Vec::new();
    let mut start: usize = 0;
    proof {
        assert(s@.skip(0) =~= s@);
        assert(out.deep_view() =~= Seq::<Seq<char>>::empty());
    }
    loop
        invariant_except_break
            start <= s@.len(),
            split_seq(s@, sep) == out.deep_view() + split_seq(s@.skip(start as int), sep),
        ensures
            out.deep_view() == split_seq(s@, sep),
        decreases s@.len() - start,
    {
        let ghost rest = s@.skip(start as int);
        let mut j: usize = start;
        while j < s.len() && s[j] != sep
            invariant
                start <= j <= s@.len(),
                forall|k: int| start <= k < j ==> s@[k] != sep,
            decreases s@.len() - j,
        {
            j += 1;
        }
        let piece = copy_range(s, start, j);
        let ghost old_dv = out.deep_view();
        out.push(piece);
        proof {
            assert(out.deep_view() =~~= old_dv + seq![piece@]);
            assert(piece@ =~= rest.take(j - start));
        }
        if j < s.len() {
            proof {
                assert forall|k: int| 0 <= k < j - start implies rest[k] != sep by {
                    assert(rest[k] == s@[start + k]);
                }
                assert(rest[j - start] == sep);
                lemma_split_step(rest, sep, j - start);
                assert(rest.skip(j - start + 1) =~= s@.skip(j + 1));
                assert(out.deep_view() + split_seq(s@.skip(j + 1), sep) =~= old_dv + split_seq(
                    rest,
                    sep,
                ));
            }
            start = j + 1;
        } else {
            proof {
                assert forall|k: int| 0 <= k < rest.len() implies rest[k] != sep by {
                    assert(rest[k] == s@[start + k]);
                }
                lemma_split_none(rest, sep);
                assert(piece@ =~= rest);
                assert(out.deep_view() =~= old_dv + seq![rest]);
            }
            break ;
        }
    }
    out
}

/// `s` without its leading whitespace.
pub open spec fn trim_start_seq(s: Seq<char>) -> Seq<char>
    decreases s.len(),
{
    if s.len() > 0 && is_wspace(s[0]) {
        trim_start_seq(s.skip(1))
    } else {
        s
    }
}

/// `s` without its trailing whitespace.
pub open spec fn trim_end_seq(s: Seq<char>) -> Seq<char>
    decreases s.len(),
{
    if s.len() > 0 && is_wspace(s[s.len() - 1]) {
        trim_end_seq(s.take(s.len() - 1))
    } else {
        s
    }
}

/// `s` without leading or trailing whitespace.
pub open spec fn trim_seq(s: Seq<char>) -> Seq<char> {
    trim_end_seq(trim_start_seq(s))
}

/// `s` with leading and trailing whitespace removed.
pub fn trim_chars(s: &Vec<char>) -> (out: Vec<char>)
    ensures
        out@ == trim_seq(s@),
{
    let mut lo: usize = 0;
    proof {
        assert(s@.skip(0) =~= s@);
    }
    while lo < s.len() && is_wspace_char(s[lo])
        invariant
            lo <= s@.len(),
            trim_start_seq(s@) == trim_start_seq(s@.skip(lo as int)),
        decreases s@.len() - lo,
    {
        proof {
            assert(s@.skip(lo as int).skip(1) =~= s@.skip(lo + 1));
        }
        lo += 1;
    }
    proof {
        if lo == s@.len() {
            assert(s@.skip(lo as int) =~= Seq::<char>::empty());
        }
        assert(trim_start_seq(s@) == s@.skip(lo as int));
    }
    let mut hi: usize = s.len();
    while hi > lo && is_wspace_char(s[hi - 1])
        invariant
            lo <= hi <= s@.len(),
            trim_start_seq(s@) == s@.skip(lo as int),
            trim_end_seq(s@.skip(lo as int)) == trim_end_seq(s@.subrange(lo as int, hi as int)),
        decreases hi,
    {
        proof {
            let cur = s@.subrange(lo as int, hi as int);
            assert(cur[cur.len() - 1] == s@[hi - 1]);
            assert(cur.take(cur.len() - 1) =~= s@.subrange(lo as int, hi - 1));
        }
        hi -= 1;
    }
    proof {
        let cur = s@.subrange(lo as int, hi as int);
        if hi == lo {
            assert(cur =~= Seq::<char>::empty());
        } else {
            assert(cur[cur.len() - 1] == s@[hi - 1]);
        }
        assert(trim_end_seq(cur) == cur);
        assert(s@.skip(lo as int) =~= s@.subrange(lo as int, s@.len() as int));
    }
    copy_range(s, lo, hi)
}

} // verus!
