//! Byte-level text helpers: decimal rendering and parsing, the wait
//! endpoint's confirmation message, and the `%20`-to-space replacement of
//! the diagnostic echo endpoint. Text is handled as bytes, the way it
//! arrives on the wire; the surrounding program converts to and from
//! `String` at the edge.

use vstd::prelude::*;

verus! {

/// The byte for one decimal digit.
pub open spec fn digit_byte(d: int) -> u8 {
    (48 + d) as u8
}

/// The decimal rendering of `n`, most significant digit first, without
/// leading zeros.
pub open spec fn dec_digits(n: int) -> Seq<u8>
    decreases n,
{
    if n < 10 {
        seq![digit_byte(n)]
    } else {
        dec_digits(n / 10) + seq![digit_byte(n % 10)]
    }
}

/// Appends the decimal rendering of `n` to `out`.
pub fn push_decimal(out: &mut Vec<u8>, n: u64)
    ensures
        final(out)@ == old(out)@ + dec_digits(n as int),
{
    let mut rev: Vec<u8> = Vec::new();
    let mut m: u64 = n;
    proof {
        assert(dec_digits(n as int) =~= dec_digits(m as int) + rev@.reverse());
    }
    while m >= 10
        invariant
            dec_digits(n as int) == dec_digits(m as int) + rev@.reverse(),
        decreases m,
    {
        let d: u8 = (m % 10) as u8;
        let ghost prev = rev@;
        rev.push(48 + d);
        m = m / 10;
        proof {
            assert(rev@.reverse() =~= seq![(48 + d) as u8] + prev.reverse());
            assert(dec_digits(n as int) =~= dec_digits(m as int) + rev@.reverse());
        }
    }
    let ghost prev = rev@;
    rev.push(48 + (m as u8));
    proof {
        assert(rev@.reverse() =~= seq![(48 + m) as u8] + prev.reverse());
        assert(dec_digits(n as int) =~= rev@.reverse());
    }
    let mut k: usize = rev.len();
    while k > 0
        invariant
            k <= rev.len(),
            dec_digits(n as int) == rev@.reverse(),
            out@ == old(out)@ + rev@.reverse().take(rev@.len() - k),
        decreases k,
    {
        k = k - 1;
        let ghost before = out@;
        out.push(rev[k]);
        proof {
            assert(rev@.reverse()[rev@.len() - k - 1] == rev@[k as int]);
            assert(out@ =~= old(out)@ + rev@.reverse().take(rev@.len() - k));
        }
    }
    proof {
        assert(rev@.reverse().take(rev@.len() as int) =~= rev@.reverse());
    }
}

/// The bytes of `"I waited "`.
pub open spec fn wait_prefix() -> Seq<u8> {
    seq![73u8, 32u8, 119u8, 97u8, 105u8, 116u8, 101u8, 100u8, 32u8]
}

/// The bytes of `" seconds!"`.
pub open spec fn wait_suffix() -> Seq<u8> {
    seq![32u8, 115u8, 101u8, 99u8, 111u8, 110u8, 100u8, 115u8, 33u8]
}

/// The wait endpoint's confirmation message for a delay of `n` seconds.
pub open spec fn spec_wait_message(n: int) -> Seq<u8> {
    wait_prefix() + dec_digits(n) + wait_suffix()
}

/// Builds `"I waited {seconds} seconds!"` as bytes.
pub fn wait_message(seconds: u8) -> (r: Vec<u8>)
    ensures
        r@ == spec_wait_message(seconds as int),
{
    let mut out: Vec<u8> = Vec::new();
    out.push(73);
    out.push(32);
    out.push(119);
    out.push(97);
    out.push(105);
    out.push(116);
    out.push(101);
    out.push(100);
    out.push(32);
    proof {
        assert(out@ =~= wait_prefix());
    }
    push_decimal(&mut out, seconds as u64);
    out.push(32);
    out.push(115);
    out.push(101);
    out.push(99);
    out.push(111);
    out.push(110);
    out.push(100);
    out.push(115);
    out.push(33);
    proof {
        assert(out@ =~= spec_wait_message(seconds as int));
    }
    out
}

/// `s` with each literal `%20` replaced by a single space, scanning left to
/// right without overlap, exactly as the echo endpoint promises.
pub open spec fn spec_replace_escapes(s: Seq<u8>) -> Seq<u8>
    decreases s.len(),
{
    if s.len() >= 3 && s[0] == 37u8 && s[1] == 50u8 && s[2] == 48u8 {
        seq![32u8] + spec_replace_escapes(s.skip(3))
    } else if s.len() == 0 {
        seq![]
    } else {
        seq![s[0]] + spec_replace_escapes(s.skip(1))
    }
}

/// Replaces every `%20` in `s` by a space.
pub fn replace_escapes(s: &Vec<u8>) -> (r: Vec<u8>)
    ensures
        r@ == spec_replace_escapes(s@),
{
    let mut out: Vec<u8> = Vec::new();
    let mut i: usize = 0;
    proof {
        assert(s@.skip(0) =~= s@);
    }
    while i < s.len()
        invariant
            i <= s.len(),
            spec_replace_escapes(s@) == out@ + spec_replace_escapes(s@.skip(i as int)),
        decreases s.len() - i,
    {
        let ghost rest = s@.skip(i as int);
        if s.len() - i > 2 && s[i] == 37 && s[i + 1] == 50 && s[i + 2] == 48 {
            out.push(32);
            i = i + 3;
            proof {
                assert(rest.skip(3) =~= s@.skip(i as int));
                assert(spec_replace_escapes(s@) =~= out@ + spec_replace_escapes(
                    s@.skip(i as int),
                ));
            }
        } else {
            out.push(s[i]);
            i = i + 1;
            proof {
                assert(rest.skip(1) =~= s@.skip(i as int));
                assert(spec_replace_escapes(s@) =~= out@ + spec_replace_escapes(
                    s@.skip(i as int),
                ));
            }
        }
    }
    proof {
        assert(s@.skip(s@.len() as int) =~= Seq::<u8>::empty());
        assert(spec_replace_escapes(s@) =~= out@);
    }
    out
}

/// Law: a string with no `%20` in it comes back from the replacement
/// unchanged.
pub proof fn lemma_replace_escapes_absent(s: Seq<u8>)
    requires
        forall|i: int|
            0 <= i && i + 3 <= s.len() ==> !((#[trigger] s[i]) == 37u8 && s[i + 1] == 50u8 && s[i
                + 2] == 48u8),
    ensures
        spec_replace_escapes(s) == s,
    decreases s.len(),
{
    if s.len() == 0 {
        assert(spec_replace_escapes(s) =~= s);
    } else {
        assert(!(s.len() >= 3 && s[0] == 37u8 && s[1] == 50u8 && s[2] == 48u8));
        assert forall|i: int|
            0 <= i && i + 3 <= s.skip(1).len() implies !((#[trigger] s.skip(1)[i]) == 37u8 && s.skip(
            1,
        )[i + 1] == 50u8 && s.skip(1)[i + 2] == 48u8) by {
            assert(s.skip(1)[i] == s[i + 1]);
            assert(s.skip(1)[i + 1] == s[i + 2]);
            assert(s.skip(1)[i + 2] == s[i + 3]);
        }
        lemma_replace_escapes_absent(s.skip(1));
        assert(spec_replace_escapes(s) =~= s);
    }
}

/// Every byte of `s` is a decimal digit.
pub open spec fn all_digits(s: Seq<u8>) -> bool {
    forall|i: int| 0 <= i < s.len() ==> 48 <= #[trigger] s[i] <= 57
}

/// The numeric value of a digit string, most significant digit first.
pub open spec fn dec_value(s: Seq<u8>) -> int
    decreases s.len(),
{
    if s.len() == 0 {
        0
    } else {
        dec_value(s.drop_last()) * 10 + (s.last() - 48)
    }
}

/// A digit string's value only grows as more digits are appended.
proof fn lemma_dec_value_prefix(s: Seq<u8>, i: int)
    requires
        all_digits(s),
        0 <= i <= s.len(),
    ensures
        0 <= dec_value(s.take(i)) <= dec_value(s),
    decreases s.len() - i,
{
    if i == s.len() {
        assert(s.take(i) =~= s);
        lemma_dec_value_nonneg(s);
    } else {
        lemma_dec_value_prefix(s, i + 1);
        assert(s.take(i + 1).drop_last() =~= s.take(i));
        assert(s.take(i + 1).last() == s[i]);
        lemma_dec_value_nonneg(s.take(i));
    }
}

/// A digit string's value is never negative.
proof fn lemma_dec_value_nonneg(s: Seq<u8>)
    requires
        all_digits(s),
    ensures
        0 <= dec_value(s),
    decreases s.len(),
{
    if s.len() > 0 {
        assert(all_digits(s.drop_last()));
        lemma_dec_value_nonneg(s.drop_last());
    }
}

/// How the wait route reads its one path segment: a non-empty run of
/// decimal digits whose value fits a `u8` (leading zeros allowed); anything
/// else does not match the route.
pub open spec fn spec_parse_seconds(s: Seq<u8>) -> Option<u8> {
    if s.len() > 0 && all_digits(s) && dec_value(s) <= 255 {
        Some(dec_value(s) as u8)
    } else {
        None
    }
}

/// Parses a path segment as a delay in seconds.
pub fn parse_seconds(seg: &Vec<u8>) -> (r: Option<u8>)
    ensures
        r == spec_parse_seconds(seg@),
{
    if seg.len() == 0 {
        return None;
    }
    let mut v: u32 = 0;
    let mut i: usize = 0;
    proof {
        assert(seg@.take(0) =~= Seq::<u8>::empty());
    }
    while i < seg.len()
        invariant
            i <= seg.len(),
            v <= 255,
            all_digits(seg@.take(i as int)),
            v == dec_value(seg@.take(i as int)),
        decreases seg.len() - i,
    {
        let b = seg[i];
        if b < 48 || b > 57 {
            proof {
                assert(!all_digits(seg@));
            }
            return None;
        }
        v = v * 10 + (b - 48) as u32;
        i = i + 1;
        proof {
            assert(seg@.take(i as int).drop_last() =~= seg@.take(i as int - 1));
            assert(seg@.take(i as int).last() == seg@[i as int - 1]);
        }
        if v > 255 {
            proof {
                if all_digits(seg@) {
                    lemma_dec_value_prefix(seg@, i as int);
                }
            }
            return None;
        }
    }
    proof {
        assert(seg@.take(i as int) =~= seg@);
    }
    Some(v as u8)
}

} // verus!
