use vstd::prelude::*;
use vstd::string::StrSliceExecFns;
use vstd::string::StringSliceAdditionalSpecFns;

use crate::ascii::{DOT, LX};
use crate::num::{all_digits, dec_value, parse_u32};
use crate::srt::first_idx;
use crate::text::{bytes_eq, copy_range, find_byte_from, spec_lower, to_lower_copy};

verus! {

// Decisions about media files that do not touch the media itself: the
// vertical canvas geometry and file-name classification for the batch
// driver and the music pool.

/// The vertical canvas for a source of height `h`: nine sixteenths of the
/// height (rounded to nearest) by the height, both snapped down to even
/// values as the encoder requires.
pub fn vertical_canvas(h: i32) -> (r: (i32, i32))
    requires
        0 < h,
    ensures
        r.0 == (9 * h + 8) / 16 - ((9 * h + 8) / 16) % 2,
        r.1 == h - (h as int) % 2,
        r.0 % 2 == 0 && r.1 % 2 == 0,
        0 <= r.0 <= h && 0 <= r.1 <= h,
{
    let h64 = h as i64;
    let w64 = (9 * h64 + 8) / 16;
    proof {
        assert(0 < w64 <= h as int) by (nonlinear_arith)
            requires
                0 < h as int <= 0x7FFF_FFFF && w64 == (9 * (h as int) + 8) / 16,
        ;
    }
    let out_w = (w64 - w64 % 2) as i32;
    let out_h = h - h % 2;
    (out_w, out_h)
}

/// The file's extension (what follows the last dot, when a dot follows the
/// first byte), lower-cased, equals `ext`.
pub open spec fn has_ext_lower(name: Seq<u8>, ext: Seq<u8>) -> bool {
    exists|j: int|
        0 < j < name.len() && #[trigger] name[j] == DOT && (forall|k: int|
            j < k < name.len() ==> name[k] != DOT) && spec_lower(name.skip(j + 1)) == ext
}

/// Does the file name carry this (lower-cased) extension?
pub fn has_extension(name: &Vec<u8>, ext: &Vec<u8>) -> (r: bool)
    ensures
        r == has_ext_lower(name@, ext@),
{
    let n = name.len();
    if n <= 1 {
        proof {
            assert(!has_ext_lower(name@, ext@));
        }
        return false;
    }
    let mut dot: usize = 0;
    let mut k: usize = 1;
    while k < n
        invariant
            1 <= k <= n == name@.len(),
            dot == 0 || (0 < dot < k && name@[dot as int] == DOT),
            forall|t: int| dot < t < k ==> name@[t] != DOT,
            (dot == 0 ==> forall|t: int| 0 < t < k ==> name@[t] != DOT),
        decreases n - k,
    {
        if name[k] == DOT {
            dot = k;
        }
        k += 1;
    }
    if dot == 0 {
        proof {
            assert(!has_ext_lower(name@, ext@));
        }
        return false;
    }
    let mut tail: Vec<u8> = Vec::new();
    let mut t = dot + 1;
    while t < n
        invariant
            dot + 1 <= t <= n == name@.len(),
            tail@ =~= name@.skip(dot + 1).take(t - dot - 1),
        decreases n - t,
    {
        tail.push(name[t]);
        t += 1;
        assert(tail@ =~= name@.skip(dot + 1).take(t - dot - 1));
    }
    assert(tail@ =~= name@.skip(dot + 1));
    let lower = to_lower_copy(&tail);
    let r = bytes_eq(&lower, ext);
    proof {
        if r {
            assert(has_ext_lower(name@, ext@)) by {
                assert(0 < dot < name@.len() && name@[dot as int] == DOT && (forall|k: int|
                    dot < k < name@.len() ==> name@[k] != DOT) && spec_lower(name@.skip(dot + 1))
                    == ext@);
            };
        } else {
            if has_ext_lower(name@, ext@) {
                let j = choose|j: int|
                    0 < j < name@.len() && #[trigger] name@[j] == DOT && (forall|k: int|
                        j < k < name@.len() ==> name@[k] != DOT) && spec_lower(name@.skip(j + 1))
                        == ext@;
                assert(j == dot);
            }
        }
    }
    r
}

/// The batch driver takes a file as a source movie when its extension is
/// `mp4`, ignoring case.
pub fn is_mp4_name(name: &Vec<u8>) -> (r: bool)
    ensures
        r == has_ext_lower(name@, "mp4".spec_bytes()),
{
    let ext = ("mp4").as_bytes_vec();
    has_extension(name, &ext)
}

/// The music pool takes files whose extension is `mp3` or `m4a`, ignoring
/// case.
pub fn is_music_name(name: &Vec<u8>) -> (r: bool)
    ensures
        r == (has_ext_lower(name@, "mp3".spec_bytes()) || has_ext_lower(
            name@,
            "m4a".spec_bytes(),
        )),
{
    let mp3 = ("mp3").as_bytes_vec();
    let m4a = ("m4a").as_bytes_vec();
    has_extension(name, &mp3) || has_extension(name, &m4a)
}

/// The fewest clips a plan is asked for.
pub const MIN_NUM_CLIPS: u32 = 20;

/// The most clips a plan is asked for.
pub const MAX_NUM_CLIPS: u32 = 30;

/// The intended overall output length, in seconds. These bounds are soft
/// guidance for the planner prompt's shape; no pipeline stage enforces
/// them as a hard gate.
pub const MIN_TOTAL_DURATION_S: u64 = 150;

pub const MAX_TOTAL_DURATION_S: u64 = 270;

/// How many clips to ask the planner for: the draw (normally random) lands
/// uniformly in the inclusive clip-count range.
pub fn pick_num_clips(draw: u64) -> (r: u32)
    ensures
        r == MIN_NUM_CLIPS + draw % 11,
        MIN_NUM_CLIPS <= r <= MAX_NUM_CLIPS,
{
    MIN_NUM_CLIPS + (draw % 11) as u32
}

/// Whether a finished output's duration lands in the intended overall
/// range. Soft guidance only: callers may report on it, and none aborts.
pub fn validate_duration_range(duration_s: u64) -> (r: bool)
    ensures
        r == (MIN_TOTAL_DURATION_S <= duration_s && duration_s <= MAX_TOTAL_DURATION_S),
{
    MIN_TOTAL_DURATION_S <= duration_s && duration_s <= MAX_TOTAL_DURATION_S
}

/// The numeric value of one probed dimension field: its decimal value when
/// it is a plain digit run fitting a signed 32-bit value, and 0 (which is
/// rejected) otherwise.
pub open spec fn dim_value(s: Seq<u8>) -> int {
    if s.len() > 0 && all_digits(s) && dec_value(s) <= 0x7FFF_FFFF {
        dec_value(s)
    } else {
        0
    }
}

/// The probe prints `WIDTHxHEIGHT`; both sides of the first `x` must be
/// positive decimal numbers.
pub open spec fn spec_parse_dimensions(s: Seq<u8>) -> Option<(int, int)> {
    let i = first_idx(s, |b: u8| b == LX);
    if i >= s.len() {
        None
    } else {
        let w = dim_value(s.take(i as int));
        let h = dim_value(s.skip(i + 1 as int));
        if w <= 0 || h <= 0 {
            None
        } else {
            Some((w, h))
        }
    }
}

/// Parse the probe's `WIDTHxHEIGHT` line.
pub fn parse_dimensions(text: &Vec<u8>) -> (r: Option<(u32, u32)>)
    ensures
        match r {
            Some(p) => spec_parse_dimensions(text@) == Some((p.0 as int, p.1 as int)),
            None => spec_parse_dimensions(text@) is None,
        },
{
    let n = text.len();
    let i = match find_byte_from(text, 0, LX) {
        Some(i) => i,
        None => {
            proof {
                crate::html::lemma_first_nonmatch(text@, |b: u8| b == LX, n as int);
            }
            return None;
        },
    };
    proof {
        crate::html::lemma_first_nonmatch(text@, |b: u8| b == LX, i as int);
    }
    let a = copy_range(text, 0, i);
    let b = copy_range(text, i + 1, n);
    proof {
        assert(a@ =~= text@.take(i as int));
        assert(b@ =~= text@.skip(i + 1 as int));
    }
    let w = match parse_u32(&a) {
        Some(v) => if v <= 0x7FFF_FFFF {
            v
        } else {
            0
        },
        None => 0,
    };
    let h = match parse_u32(&b) {
        Some(v) => if v <= 0x7FFF_FFFF {
            v
        } else {
            0
        },
        None => 0,
    };
    if w == 0 || h == 0 {
        return None;
    }
    Some((w, h))
}

/// The probe's duration line as whole milliseconds: a decimal number with
/// an optional fraction (extra fractional digits truncated), rejected when
/// it is a tenth of a second or less, as an unusable probe.
pub open spec fn spec_frac_ms(frac: Seq<u8>) -> int {
    let d1: int = if frac.len() >= 1 {
        100 * (frac[0] - 48)
    } else {
        0
    };
    let d2: int = if frac.len() >= 2 {
        10 * (frac[1] - 48)
    } else {
        0
    };
    let d3: int = if frac.len() >= 3 {
        (frac[2] - 48) as int
    } else {
        0
    };
    d1 + d2 + d3
}

pub open spec fn spec_parse_probed_duration_ms(s: Seq<u8>) -> Option<int> {
    let i = first_idx(s, |b: u8| b == DOT);
    let whole = s.take(if i >= s.len() {
        s.len() as int
    } else {
        i as int
    });
    let frac = if i >= s.len() {
        Seq::<u8>::empty()
    } else {
        s.skip(i + 1 as int)
    };
    if !(all_digits(whole) && all_digits(frac)) {
        None
    } else if whole.len() == 0 && frac.len() == 0 {
        None
    } else if dec_value(whole) > 0xFFFF_FFFF {
        None
    } else {
        let ms = 1000 * dec_value(whole) + spec_frac_ms(frac);
        if ms <= 100 {
            None
        } else {
            Some(ms)
        }
    }
}

/// Parse the probe's duration output into milliseconds; fails on anything
/// that is not a plain decimal, on absurdly long durations, and on
/// durations of at most a tenth of a second.
pub fn parse_probed_duration_ms(text: &Vec<u8>) -> (r: Option<u64>)
    ensures
        match r {
            Some(v) => spec_parse_probed_duration_ms(text@) == Some(v as int),
            None => spec_parse_probed_duration_ms(text@) is None,
        },
{
    let n = text.len();
    let dot = find_byte_from(text, 0, DOT);
    proof {
        match dot {
            Some(i) => crate::html::lemma_first_nonmatch(text@, |b: u8| b == DOT, i as int),
            None => crate::html::lemma_first_nonmatch(text@, |b: u8| b == DOT, n as int),
        }
    }
    let cut = match dot {
        Some(i) => i,
        None => n,
    };
    let whole = copy_range(text, 0, cut);
    let frac = if cut < n {
        copy_range(text, cut + 1, n)
    } else {
        Vec::new()
    };
    proof {
        assert(whole@ =~= text@.take(cut as int));
        if cut < n {
            assert(frac@ =~= text@.skip(cut + 1 as int));
        } else {
            assert(frac@ =~= Seq::<u8>::empty());
        }
    }
    if !digits_only(&whole) || !digits_only(&frac) {
        return None;
    }
    if whole.len() == 0 && frac.len() == 0 {
        return None;
    }
    let secs = if whole.len() == 0 {
        0u64
    } else {
        match parse_u32(&whole) {
            Some(v) => v as u64,
            None => {
                return None;
            },
        }
    };
    let mut ms = 1000 * secs;
    if frac.len() >= 1 {
        ms = ms + 100 * ((frac[0] - 48) as u64);
    }
    if frac.len() >= 2 {
        ms = ms + 10 * ((frac[1] - 48) as u64);
    }
    if frac.len() >= 3 {
        ms = ms + ((frac[2] - 48) as u64);
    }
    if ms <= 100 {
        return None;
    }
    Some(ms)
}

fn digits_only(s: &Vec<u8>) -> (r: bool)
    ensures
        r == all_digits(s@),
{
    let n = s.len();
    let mut i: usize = 0;
    while i < n
        invariant
            i <= n == s@.len(),
            forall|t: int| 0 <= t < i ==> crate::num::is_digit(#[trigger] s@[t]),
        decreases n - i,
    {
        if !(48 <= s[i] && s[i] <= 57) {
            assert(!crate::num::is_digit(s@[i as int]));
            return false;
        }
        i += 1;
    }
    true
}

} // verus!
