use vstd::prelude::*;

use crate::ascii::{D0, D9};

verus! {

// Decimal text for byte-oriented strings: formatting of unsigned numbers
// and parsing of digit runs.

pub open spec fn is_digit(b: u8) -> bool {
    D0 <= b && b <= D9
}

pub open spec fn all_digits(s: Seq<u8>) -> bool {
    forall|i: int| 0 <= i < s.len() ==> is_digit(#[trigger] s[i])
}

/// The decimal digits of `n`, most significant first, with no sign and no
/// leading zeros (a single `0` for zero).
pub open spec fn spec_dec(n: int) -> Seq<u8>
    decreases n,
{
    if n < 10 {
        seq![(D0 + if n < 0 { 0int } else { n }) as u8]
    } else {
        spec_dec(n / 10) + seq![(D0 + n % 10) as u8]
    }
}

/// The numeric value of a digit string (0 for the empty string).
pub open spec fn dec_value(s: Seq<u8>) -> int
    decreases s.len(),
{
    if s.len() == 0 {
        0
    } else {
        dec_value(s.drop_last()) * 10 + (s.last() - D0)
    }
}

/// Format `n` in decimal.
pub fn u64_dec(n: u64) -> (r: Vec<u8>)
    ensures
        r@ == spec_dec(n as int),
{
    let mut rev: Vec<u8> = Vec::new();
    let mut m = n;
    while m >= 10
        invariant
            spec_dec(n as int) =~= spec_dec(m as int) + rev@.reverse(),
        decreases m,
    {
        let d = (m % 10) as u8;
        rev.push(D0 + d);
        proof {
            assert(rev@.reverse() =~= seq![(D0 + (m as int) % 10) as u8]
                + rev@.drop_last().reverse());
        }
        m = m / 10;
    }
    rev.push(D0 + (m as u8));
    proof {
        assert(rev@.reverse() =~= seq![(D0 + m as int) as u8] + rev@.drop_last().reverse());
    }
    let k = rev.len();
    let mut out: Vec<u8> = Vec::new();
    let mut i: usize = 0;
    while i < k
        invariant
            i <= k == rev@.len(),
            out@ =~= rev@.reverse().take(i as int),
        decreases k - i,
    {
        out.push(rev[k - 1 - i]);
        i += 1;
        assert(out@ =~= rev@.reverse().take(i as int));
    }
    assert(out@ =~= rev@.reverse());
    out
}

/// Parse an unsigned decimal digit string. Fails on an empty string, on any
/// non-digit byte, and on values that do not fit in 32 bits.
pub fn parse_u32(s: &Vec<u8>) -> (r: Option<u32>)
    ensures
        match r {
            Some(v) => s@.len() > 0 && all_digits(s@) && v == dec_value(s@),
            None => s@.len() == 0 || !all_digits(s@) || dec_value(s@) > u32::MAX,
        },
{
    let n = s.len();
    if n == 0 {
        return None;
    }
    let mut acc: u64 = 0;
    let mut big = false;
    let mut i: usize = 0;
    while i < n
        invariant
            i <= n == s@.len(),
            all_digits(s@.take(i as int)),
            !big ==> acc == dec_value(s@.take(i as int)) && acc <= u32::MAX,
            big ==> dec_value(s@.take(i as int)) > u32::MAX,
        decreases n - i,
    {
        let b = s[i];
        if !(D0 <= b && b <= D9) {
            assert(!all_digits(s@)) by {
                assert(!is_digit(s@[i as int]));
            };
            return None;
        }
        proof {
            assert(s@.take(i + 1 as int).drop_last() =~= s@.take(i as int));
            assert(all_digits(s@.take(i + 1 as int)));
        }
        if !big {
            let d = (b - D0) as u64;
            let next = acc * 10 + d;
            if next > 0xFFFF_FFFF {
                big = true;
            } else {
                acc = next;
            }
        }
        i += 1;
    }
    proof {
        assert(s@.take(n as int) =~= s@);
    }
    if big {
        None
    } else {
        Some(acc as u32)
    }
}

} // verus!
