//! Decimal rendering and parsing of integers, verified against recursive
//! specifications of the digit strings.

use vstd::prelude::*;

verus! {

/// The character for one decimal digit value.
pub open spec fn dec_digit(d: int) -> char
    recommends
        0 <= d <= 9,
{
    ((0x30 + d) as u8) as char
}

/// The decimal digit string of a natural number, most significant first.
pub open spec fn dec_digits(n: nat) -> Seq<char>
    decreases n,
{
    if n < 10 {
        seq![dec_digit(n as int)]
    } else {
        dec_digits(n / 10).push(dec_digit((n % 10) as int))
    }
}

/// The decimal text of an integer: a minus sign for negative values,
/// then the digits of the magnitude.
pub open spec fn int_dec(v: int) -> Seq<char> {
    if v < 0 {
        seq!['-'] + dec_digits((-v) as nat)
    } else {
        dec_digits(v as nat)
    }
}

/// The decimal digit string of `n`.
pub fn u64_dec_chars(n: u64) -> (out: Vec<char>)
    ensures
        out@ == dec_digits(n as nat),
{
    let mut rev: Vec<char> = Vec::new();
    let mut m: u64 = n;
    loop
        invariant
            if m > 0 {
                dec_digits(n as nat) == dec_digits(m as nat) + rev@.reverse()
            } else {
                n > 0 ==> dec_digits(n as nat) == rev@.reverse()
            },
            n == 0 ==> m == 0 && rev@.len() == 0,
        ensures
            m == 0,
            n > 0 ==> dec_digits(n as nat) == rev@.reverse(),
            n == 0 ==> rev@.len() == 0,
        decreases m,
    {
        if m == 0 {
            break ;
        }
        let d: u8 = (m % 10) as u8 + 0x30;
        let ghost old_rev = rev@;
        let ghost old_m = m as nat;
        rev.push(d as char);
        m = m / 10;
        proof {
            assert(rev@.reverse() =~= seq![dec_digit((old_m % 10) as int)] + old_rev.reverse());
            if old_m >= 10 {
                assert(dec_digits(old_m) == dec_digits(old_m / 10).push(
                    dec_digit((old_m % 10) as int),
                ));
                assert(dec_digits(old_m / 10).push(dec_digit((old_m % 10) as int)) + old_rev.reverse()
                    =~= dec_digits(old_m / 10) + (seq![dec_digit((old_m % 10) as int)]
                    + old_rev.reverse()));
            } else {
                assert(dec_digits(old_m) =~= seq![dec_digit((old_m % 10) as int)]);
                assert(dec_digits(old_m) + old_rev.reverse() =~= seq![dec_digit(
                    (old_m % 10) as int,
                )] + old_rev.reverse());
            }
        }
    }
    if n == 0 {
        let out: Vec<char> = vec!['0'];
        proof {
            assert(dec_digits(0) =~= seq![dec_digit(0)]);
            assert(out@ =~= dec_digits(0));
        }
        return out;
    }
    let mut out: Vec<char> = Vec::new();
    let mut i: usize = rev.len();
    while i > 0
        invariant
            i <= rev@.len(),
            out@.len() == rev@.len() - i,
            forall|k: int| 0 <= k < out@.len() ==> out@[k] == rev@[rev@.len() - 1 - k],
        decreases i,
    {
        i -= 1;
        out.push(rev[i]);
    }
    proof {
        assert(out@ =~= rev@.reverse());
    }
    out
}

/// The decimal text of `v`, minus sign included.
pub fn i64_dec_chars(v: i64) -> (out: Vec<char>)
    ensures
        out@ == int_dec(v as int),
{
    if v >= 0 {
        u64_dec_chars(v as u64)
    } else {
        let mag: u64 = ((-(v + 1)) as u64) + 1;
        proof {
            assert(mag as int == -(v as int));
        }
        let mut out: Vec<char> = vec!['-'];
        let digits = u64_dec_chars(mag);
        crate::text::push_all(&mut out, &digits);
        proof {
            assert(out@ =~= seq!['-'] + dec_digits((-(v as int)) as nat));
        }
        out
    }
}

/// The digit string of a number is made of digits and evaluates back to it.
pub proof fn lemma_dec_digits_val(n: nat)
    ensures
        all_digits(dec_digits(n)),
        dec_val(dec_digits(n)) == n,
    decreases n,
{
    if n < 10 {
        let s = dec_digits(n);
        assert(s == seq![dec_digit(n as int)]);
        assert((dec_digit(n as int) as u32) == 0x30 + n);
        assert(s.take(0) =~= Seq::<char>::empty());
        assert(dec_val(Seq::<char>::empty()) == 0);
        assert(dec_val(s) == dec_val(s.take(0)) * 10 + digit_val(s[0]));
    } else {
        lemma_dec_digits_val(n / 10);
        let s = dec_digits(n / 10);
        let c = dec_digit((n % 10) as int);
        assert((c as u32) == 0x30 + n % 10);
        assert(dec_digits(n) == s.push(c));
        assert(s.push(c).take(s.push(c).len() - 1) =~= s);
        assert(s.push(c)[s.push(c).len() - 1] == c);
        assert(dec_val(s.push(c)) == dec_val(s) * 10 + digit_val(c));
        assert(forall|i: int|
            0 <= i < s.push(c).len() ==> is_dec_digit(#[trigger] s.push(c)[i]));
    }
}

/// Distinct numbers have distinct digit strings.
pub proof fn lemma_dec_digits_injective(a: nat, b: nat)
    requires
        dec_digits(a) == dec_digits(b),
    ensures
        a == b,
{
    lemma_dec_digits_val(a);
    lemma_dec_digits_val(b);
}

/// Decimal digit test.
pub open spec fn is_dec_digit(c: char) -> bool {
    0x30 <= (c as u32) <= 0x39
}

/// The numeric value of one digit character.
pub open spec fn digit_val(c: char) -> int {
    (c as u32) - 0x30
}

/// Every character of `s` is a decimal digit.
pub open spec fn all_digits(s: Seq<char>) -> bool {
    forall|i: int| 0 <= i < s.len() ==> is_dec_digit(s[i])
}

/// The numeric value of a digit string.
pub open spec fn dec_val(s: Seq<char>) -> int
    decreases s.len(),
{
    if s.len() == 0 {
        0
    } else {
        dec_val(s.take(s.len() - 1)) * 10 + digit_val(s[s.len() - 1])
    }
}

/// The value a string parses to as an unsigned 32-bit integer: an optional
/// leading plus sign, then one or more digits whose value fits.
pub open spec fn parse_u32_seq(s: Seq<char>) -> Option<u32> {
    let body = if s.len() > 0 && s[0] == '+' {
        s.skip(1)
    } else {
        s
    };
    if body.len() > 0 && all_digits(body) && dec_val(body) <= u32::MAX {
        Some(dec_val(body) as u32)
    } else {
        None
    }
}

proof fn lemma_dec_val_nonneg(s: Seq<char>)
    requires
        all_digits(s),
    ensures
        dec_val(s) >= 0,
    decreases s.len(),
{
    if s.len() > 0 {
        assert(all_digits(s.take(s.len() - 1)));
        lemma_dec_val_nonneg(s.take(s.len() - 1));
    }
}

proof fn lemma_dec_val_prefix_le(s: Seq<char>, k: int)
    requires
        all_digits(s),
        0 <= k <= s.len(),
    ensures
        dec_val(s.take(k)) <= dec_val(s),
    decreases s.len() - k,
{
    if k < s.len() {
        lemma_dec_val_prefix_le(s, k + 1);
        let t = s.take(k + 1);
        assert(t.take(t.len() - 1) =~= s.take(k));
        assert(dec_val(t) == dec_val(s.take(k)) * 10 + digit_val(s[k]));
        assert(all_digits(s.take(k)));
        lemma_dec_val_nonneg(s.take(k));
    } else {
        assert(s.take(k) =~= s);
    }
}

/// Parse a decimal string as `u32`, as `str::parse::<u32>` accepts it.
pub fn parse_u32_chars(s: &Vec<char>) -> (r: Option<u32>)
    ensures
        r == parse_u32_seq(s@),
{
    let start: usize = if s.len() > 0 && s[0] == '+' {
        1
    } else {
        0
    };
    let ghost body = if s@.len() > 0 && s@[0] == '+' {
        s@.skip(1)
    } else {
        s@
    };
    proof {
        assert(body =~= s@.subrange(start as int, s@.len() as int));
    }
    if s.len() == start {
        proof {
            assert(body.len() == 0);
        }
        return None;
    }
    let mut acc: u64 = 0;
    let mut i: usize = start;
    while i < s.len()
        invariant
            start <= i <= s@.len(),
            start < s@.len(),
            body == s@.subrange(start as int, s@.len() as int),
            body == (if s@.len() > 0 && s@[0] == '+' {
                s@.skip(1)
            } else {
                s@
            }),
            all_digits(body.take(i - start)),
            acc <= u32::MAX,
            acc as int == dec_val(body.take(i - start)),
        decreases s@.len() - i,
    {
        let c = s[i];
        let u = c as u32;
        if !(0x30 <= u && u <= 0x39) {
            proof {
                assert(body[i - start] == c);
                assert(!is_dec_digit(body[i - start]));
                assert(!all_digits(body));
                assert(parse_u32_seq(s@) is None);
            }
            return None;
        }
        let d: u64 = (u - 0x30) as u64;
        let next: u64 = acc * 10 + d;
        proof {
            let t = body.take(i - start + 1);
            assert(t.take(t.len() - 1) =~= body.take(i - start));
            assert(t[t.len() - 1] == body[i - start]);
            assert(body[i - start] == c);
            assert(dec_val(t) == acc as int * 10 + digit_val(c));
        }
        if next > 0xffff_ffff {
            proof {
                if all_digits(body) {
                    lemma_dec_val_prefix_le(body, i - start + 1);
                    assert(dec_val(body) >= dec_val(body.take(i - start + 1)));
                    assert(dec_val(body) > u32::MAX);
                }
                assert(parse_u32_seq(s@) is None);
            }
            return None;
        }
        acc = next;
        i += 1;
    }
    proof {
        assert(body.take(s@.len() - start) =~= body);
    }
    Some(acc as u32)
}

} // verus!
