use vstd::prelude::*;
use vstd::string::StrSliceExecFns;
use vstd::string::StringSliceAdditionalSpecFns;

use crate::ascii::{APOSTROPHE, D0, D2, D3, D4, D9, DASH, DOT, LA, LI, LPAREN, LV, LZ, PERCENT, RPAREN, SPACE, UA, UNDERSCORE, UZ};

verus! {

// Text handled by the library is carried as UTF-8 bytes. All the transforms
// here are ASCII-oriented: bytes outside the ASCII range pass through
// unchanged, which keeps every function exact on multi-byte characters.

/// Lower-case an ASCII letter; leave every other byte unchanged.
pub open spec fn ascii_lower_byte(b: u8) -> u8 {
    if UA <= b && b <= UZ {
        (b + 32) as u8
    } else {
        b
    }
}

pub open spec fn spec_lower(s: Seq<u8>) -> Seq<u8> {
    s.map_values(|b: u8| ascii_lower_byte(b))
}

/// ASCII-lower-case every byte of the input.
pub fn to_lower_copy(s: &Vec<u8>) -> (r: Vec<u8>)
    ensures
        r@ == spec_lower(s@),
{
    let n = s.len();
    let mut out: Vec<u8> = Vec::new();
    let mut i: usize = 0;
    while i < n
        invariant
            i <= n == s@.len(),
            out@ =~= spec_lower(s@.take(i as int)),
        decreases n - i,
    {
        let b = s[i];
        if UA <= b && b <= UZ {
            out.push(b + 32);
        } else {
            out.push(b);
        }
        i += 1;
        assert(out@ =~= spec_lower(s@.take(i as int)));
    }
    assert(s@.take(n as int) =~= s@);
    out
}

pub open spec fn is_ascii_alnum(b: u8) -> bool {
    (D0 <= b && b <= D9) || (LA <= b && b <= LZ) || (UA <= b && b <= UZ)
}

pub open spec fn strip_paren_byte(b: u8) -> Option<u8> {
    if b == LPAREN || b == RPAREN {
        None
    } else {
        Some(b)
    }
}

pub open spec fn spec_strip_parens(s: Seq<u8>) -> Seq<u8> {
    s.filter_map(|x: u8| strip_paren_byte(x))
}

/// Drop every parenthesis from the input; keep everything else.
pub fn strip_parens(s: &Vec<u8>) -> (r: Vec<u8>)
    ensures
        r@ == spec_strip_parens(s@),
{
    broadcast use Seq::lemma_filter_map_take_succ;

    let n = s.len();
    let mut out: Vec<u8> = Vec::new();
    let mut i: usize = 0;
    while i < n
        invariant
            i <= n == s@.len(),
            out@ =~= spec_strip_parens(s@.take(i as int)),
        decreases n - i,
    {
        let b = s[i];
        proof {
            s@.lemma_filter_map_take_succ(|x: u8| strip_paren_byte(x), i as int);
        }
        if !(b == LPAREN || b == RPAREN) {
            out.push(b);
        }
        i += 1;
        assert(out@ =~= spec_strip_parens(s@.take(i as int)));
    }
    assert(s@.take(n as int) =~= s@);
    out
}

pub open spec fn slug_byte(b: u8) -> Option<u8> {
    if b == APOSTROPHE || b == LPAREN || b == RPAREN {
        None
    } else if b == SPACE {
        Some(DASH)
    } else {
        Some(ascii_lower_byte(b))
    }
}

pub open spec fn spec_slug_core(s: Seq<u8>) -> Seq<u8> {
    s.filter_map(|x: u8| slug_byte(x))
}

/// The slug used to look a movie title up on the subtitle site, with the
/// sequel suffixes the site expects after a trailing roman numeral.
pub open spec fn spec_movie_title_slug(s: Seq<u8>) -> Seq<u8> {
    let base = spec_slug_core(s);
    let o1 = if base.len() >= 2 && base[base.len() - 2] == LI && base[base.len() - 1] == LI {
        base + seq![DASH, D2]
    } else {
        base
    };
    let o2 = if o1.len() >= 3 && o1[o1.len() - 3] == LI && o1[o1.len() - 2] == LI && o1[o1.len()
        - 1] == LI {
        o1 + seq![DASH, D3]
    } else {
        o1
    };
    if o2.len() >= 2 && o2[o2.len() - 2] == LI && o2[o2.len() - 1] == LV {
        o2 + seq![DASH, D4]
    } else {
        o2
    }
}

/// Turn a movie title into the subtitle site's URL slug: drop quotes and
/// parentheses, spaces become dashes, letters are lower-cased, and a title
/// ending in a roman numeral gets the matching "-2"/"-3"/"-4" suffix.
pub fn parse_movie_title_slug(title: &Vec<u8>) -> (r: Vec<u8>)
    ensures
        r@ == spec_movie_title_slug(title@),
{
    broadcast use Seq::lemma_filter_map_take_succ;

    let n = title.len();
    let mut out: Vec<u8> = Vec::new();
    let mut i: usize = 0;
    while i < n
        invariant
            i <= n == title@.len(),
            out@ =~= spec_slug_core(title@.take(i as int)),
        decreases n - i,
    {
        let b = title[i];
        proof {
            title@.lemma_filter_map_take_succ(|x: u8| slug_byte(x), i as int);
        }
        if b == APOSTROPHE || b == LPAREN || b == RPAREN {
        } else if b == SPACE {
            out.push(DASH);
        } else if UA <= b && b <= UZ {
            out.push(b + 32);
        } else {
            out.push(b);
        }
        i += 1;
        assert(out@ =~= spec_slug_core(title@.take(i as int)));
    }
    assert(title@.take(n as int) =~= title@);
    let m = out.len();
    if m >= 2 && out[m - 2] == LI && out[m - 1] == LI {
        out.push(DASH);
        out.push(D2);
    }
    let m = out.len();
    if m >= 3 && out[m - 3] == LI && out[m - 2] == LI && out[m - 1] == LI {
        out.push(DASH);
        out.push(D3);
    }
    let m = out.len();
    if m >= 2 && out[m - 2] == LI && out[m - 1] == LV {
        out.push(DASH);
        out.push(D4);
    }
    assert(out@ =~= spec_movie_title_slug(title@));
    out
}

pub open spec fn loose_title_byte(b: u8) -> Option<u8> {
    if b == LPAREN || b == RPAREN || b == APOSTROPHE {
        None
    } else {
        let c = if b == SPACE {
            DASH
        } else {
            b
        };
        if is_ascii_alnum(c) || c == DASH || c == UNDERSCORE {
            Some(c)
        } else {
            None
        }
    }
}

pub open spec fn spec_imsdb_title_loose(s: Seq<u8>) -> Seq<u8> {
    s.filter_map(|x: u8| loose_title_byte(x))
}

/// The loose script-site title form: spaces become dashes and only ASCII
/// letters, digits, dashes and underscores survive.
pub fn imsdb_format_title_loose(title: &Vec<u8>) -> (r: Vec<u8>)
    ensures
        r@ == spec_imsdb_title_loose(title@),
{
    broadcast use Seq::lemma_filter_map_take_succ;

    let n = title.len();
    let mut out: Vec<u8> = Vec::new();
    let mut i: usize = 0;
    while i < n
        invariant
            i <= n == title@.len(),
            out@ =~= spec_imsdb_title_loose(title@.take(i as int)),
        decreases n - i,
    {
        let b = title[i];
        proof {
            title@.lemma_filter_map_take_succ(|x: u8| loose_title_byte(x), i as int);
        }
        if b == LPAREN || b == RPAREN || b == APOSTROPHE {
        } else {
            let c = if b == SPACE {
                DASH
            } else {
                b
            };
            if (D0 <= c && c <= D9) || (LA <= c && c <= LZ) || (UA <= c && c <= UZ) || c
                == DASH || c == UNDERSCORE {
                out.push(c);
            }
        }
        i += 1;
        assert(out@ =~= spec_imsdb_title_loose(title@.take(i as int)));
    }
    assert(title@.take(n as int) =~= title@);
    out
}

/// One hexadecimal digit, upper case.
pub open spec fn hex_digit(n: int) -> u8 {
    if n < 10 {
        (D0 + n) as u8
    } else {
        (UA + (n - 10)) as u8
    }
}

pub open spec fn is_url_plain(b: u8) -> bool {
    is_ascii_alnum(b) || b == DASH || b == UNDERSCORE || b == DOT
}

pub open spec fn url_enc_byte(b: u8) -> Seq<u8> {
    if is_url_plain(b) {
        seq![b]
    } else if b == SPACE {
        seq![PERCENT, D2, D0]
    } else {
        seq![PERCENT, hex_digit(b as int / 16), hex_digit(b as int % 16)]
    }
}

pub open spec fn spec_url_encode(s: Seq<u8>) -> Seq<u8>
    decreases s.len(),
{
    if s.len() == 0 {
        Seq::empty()
    } else {
        spec_url_encode(s.drop_last()) + url_enc_byte(s.last())
    }
}

/// Percent-encode a URL component: ASCII letters, digits, `-`, `_` and `.`
/// pass through, a space becomes `%20`, and every other byte becomes `%XX`
/// with upper-case hex digits.
pub fn url_encode_component(s: &Vec<u8>) -> (r: Vec<u8>)
    ensures
        r@ == spec_url_encode(s@),
{
    let n = s.len();
    let mut out: Vec<u8> = Vec::new();
    let mut i: usize = 0;
    while i < n
        invariant
            i <= n == s@.len(),
            out@ =~= spec_url_encode(s@.take(i as int)),
        decreases n - i,
    {
        let b = s[i];
        proof {
            assert(s@.take(i + 1 as int).drop_last() =~= s@.take(i as int));
            assert(s@.take(i + 1 as int).last() == s@[i as int]);
        }
        if (D0 <= b && b <= D9) || (LA <= b && b <= LZ) || (UA <= b && b <= UZ) || b
            == DASH || b == UNDERSCORE || b == DOT {
            out.push(b);
        } else if b == SPACE {
            out.push(PERCENT);
            out.push(D2);
            out.push(D0);
        } else {
            let hi = b / 16;
            let lo = b % 16;
            out.push(PERCENT);
            out.push(if hi < 10 { D0 + hi } else { UA + (hi - 10) });
            out.push(if lo < 10 { D0 + lo } else { UA + (lo - 10) });
        }
        i += 1;
        assert(out@ =~= spec_url_encode(s@.take(i as int)));
    }
    assert(s@.take(n as int) =~= s@);
    out
}

/// A UTF-8 continuation byte (second or later byte of a multi-byte
/// character).
pub open spec fn is_continuation(b: u8) -> bool {
    0x80 <= b && b < 0xC0
}

/// Relies on String::from_utf8_lossy: invalid UTF-8 sequences become the
/// replacement character, and valid input comes back unchanged.
#[verifier::external_body]
pub fn sanitize_utf8_lossy(s: &Vec<u8>) -> (r: Vec<u8>)
    ensures
        vstd::utf8::valid_utf8(s@) ==> r@ == s@,
        vstd::utf8::valid_utf8(r@),
{
    String::from_utf8_lossy(s).into_owned().into_bytes()
}

/// The largest index at or below `c` that does not land on a continuation
/// byte (index 0 counts as a boundary).
pub open spec fn boundary_cut(s: Seq<u8>, c: int) -> int
    decreases c,
{
    if c <= 0 {
        0
    } else if !is_continuation(s[c]) {
        c
    } else {
        boundary_cut(s, c - 1)
    }
}

/// The text cut down to at most `max` bytes without splitting a multi-byte
/// character.
pub open spec fn spec_trim_utf8(s: Seq<u8>, max: int) -> Seq<u8> {
    if s.len() <= max {
        s
    } else {
        s.take(boundary_cut(s, max))
    }
}

/// Cut the text down to at most `max_bytes` bytes without splitting a
/// multi-byte character: the cut point backs up to the nearest byte that does
/// not continue an earlier character.
pub fn trim_copy_utf8_safe(s: &Vec<u8>, max_bytes: usize) -> (r: Vec<u8>)
    ensures
        r@ == spec_trim_utf8(s@, max_bytes as int),
        s@.len() <= max_bytes ==> r@ == s@,
        s@.len() > max_bytes ==> {
            &&& r@.len() <= max_bytes
            &&& r@ == s@.take(r@.len() as int)
            &&& (r@.len() == 0 || !is_continuation(s@[r@.len() as int]))
            &&& forall|c: int|
                r@.len() < c <= max_bytes ==> is_continuation(s@[c])
        },
{
    if s.len() <= max_bytes {
        return s.clone();
    }
    let mut cut = max_bytes;
    while cut > 0 && is_cont_byte(s[cut])
        invariant
            cut <= max_bytes < s@.len(),
            boundary_cut(s@, max_bytes as int) == boundary_cut(s@, cut as int),
            forall|c: int| cut < c <= max_bytes ==> is_continuation(s@[c]),
        decreases cut,
    {
        cut = cut - 1;
    }
    assert(boundary_cut(s@, cut as int) == cut);
    let mut r = s.clone();
    r.truncate(cut);
    assert(r@ =~= s@.take(cut as int));
    r
}

fn is_cont_byte(b: u8) -> (r: bool)
    ensures
        r == is_continuation(b),
{
    0x80 <= b && b < 0xC0
}

/// The index just after the last `.` that starts an extension, or the whole
/// length when the name has none (no dot, or only a leading dot).
pub open spec fn spec_stem_len(s: Seq<u8>) -> int {
    if exists|j: int| 0 < j < s.len() && s[j] == DOT {
        choose|j: int|
            0 < j < s.len() && s[j] == DOT && (forall|k: int| j < k < s.len() ==> s[k] != DOT)
    } else {
        s.len() as int
    }
}

/// The file name with its final extension removed, as `Path::file_stem`
/// computes it for a bare file name: everything before the last dot, except
/// that a lone leading dot is kept.
pub fn strip_ext(name: &Vec<u8>) -> (r: Vec<u8>)
    ensures
        r@ == name@.take(r@.len() as int),
        r@.len() <= name@.len(),
        (r@.len() < name@.len() ==> r@.len() > 0 && name@[r@.len() as int] == DOT),
        forall|k: int| r@.len() < k < name@.len() ==> name@[k] != DOT,
        (r@.len() == name@.len() ==> forall|j: int| 0 < j < name@.len() ==> name@[j] != DOT),
{
    let n = name.len();
    if n <= 1 {
        let r = name.clone();
        assert(r@ =~= name@.take(n as int));
        return r;
    }
    let mut dot: usize = 0;
    let mut k: usize = 1;
    while k < n
        invariant
            1 <= k <= n == name@.len(),
            dot == 0 || (0 < dot < k && name@[dot as int] == DOT),
            forall|t: int| dot < t < k ==> name@[t] != DOT,
            (dot == 0 ==> forall|t: int| 0 < t < k ==> name@[t] != DOT),
        decreases n - k,
    {
        if name[k] == DOT {
            dot = k;
        }
        k += 1;
    }
    if dot == 0 {
        let r = name.clone();
        assert(r@ =~= name@.take(n as int));
        r
    } else {
        let mut r = name.clone();
        r.truncate(dot);
        assert(r@ =~= name@.take(dot as int));
        r
    }
}

/// True when `needle` occurs in `s` starting at index `i`.
pub open spec fn match_at(s: Seq<u8>, needle: Seq<u8>, i: int) -> bool {
    &&& 0 <= i
    &&& i + needle.len() <= s.len()
    &&& forall|k: int| 0 <= k < needle.len() ==> s[i + k] == needle[k]
}

/// Does `pat` occur in `s` exactly at position `i`?
pub fn match_at_pos(s: &Vec<u8>, pat: &Vec<u8>, i: usize) -> (r: bool)
    requires
        i <= s@.len(),
    ensures
        r == match_at(s@, pat@, i as int),
{
    let m = pat.len();
    let n = s.len();
    if m > n - i {
        assert(!match_at(s@, pat@, i as int));
        return false;
    }
    let mut k: usize = 0;
    while k < m
        invariant
            k <= m == pat@.len(),
            i + m <= n == s@.len(),
            forall|t: int| 0 <= t < k ==> s@[i + t] == pat@[t],
        decreases m - k,
    {
        if s[i + k] != pat[k] {
            return false;
        }
        k = k + 1;
    }
    true
}

/// First occurrence of `needle` in `s`, byte for byte. An empty needle
/// matches at the start.
pub fn find_sub(s: &Vec<u8>, needle: &Vec<u8>) -> (r: Option<usize>)
    ensures
        match r {
            Some(i) => match_at(s@, needle@, i as int) && forall|j: int|
                0 <= j < i ==> !match_at(s@, needle@, j),
            None => forall|j: int| !match_at(s@, needle@, j),
        },
{
    if needle.len() == 0 {
        return Some(0);
    }
    let n = s.len();
    let m = needle.len();
    let mut i: usize = 0;
    while i < n
        invariant
            i <= n == s@.len(),
            m == needle@.len(),
            m > 0,
            forall|j: int| 0 <= j < i ==> !match_at(s@, needle@, j),
        decreases n - i,
    {
        let mut k: usize = 0;
        while k < m && n - i > k && s[i + k] == needle[k]
            invariant
                i < n == s@.len(),
                m == needle@.len(),
                k <= m,
                i + k <= n,
                forall|t: int| 0 <= t < k ==> s@[i + t] == needle@[t],
            decreases m - k,
        {
            k = k + 1;
        }
        if k == m {
            return Some(i);
        }
        proof {
            if match_at(s@, needle@, i as int) {
                assert(s@[i + k] == needle@[k as int]);
            }
        }
        i += 1;
    }
    proof {
        assert forall|j: int| !match_at(s@, needle@, j) by {
            if j >= i {
                assert(j + needle@.len() > s@.len());
            }
        }
    }
    None
}

/// Append a string literal's bytes to a buffer.
pub fn push_bytes(out: &mut Vec<u8>, s: &str)
    ensures
        final(out)@ == old(out)@ + s.spec_bytes(),
{
    let mut v = s.as_bytes_vec();
    out.append(&mut v);
}

/// Append a copy of another buffer.
pub fn push_vec(out: &mut Vec<u8>, other: &Vec<u8>)
    ensures
        final(out)@ == old(out)@ + other@,
{
    let mut v = other.clone();
    out.append(&mut v);
}

/// First occurrence of byte `b` at or after `from`.
pub fn find_byte_from(s: &Vec<u8>, from: usize, b: u8) -> (r: Option<usize>)
    requires
        from <= s@.len(),
    ensures
        match r {
            Some(i) => from <= i < s@.len() && s@[i as int] == b && forall|t: int|
                from <= t < i ==> s@[t] != b,
            None => forall|t: int| from <= t < s@.len() ==> s@[t] != b,
        },
{
    let n = s.len();
    let mut i = from;
    while i < n
        invariant
            from <= i <= n == s@.len(),
            forall|t: int| from <= t < i ==> s@[t] != b,
        decreases n - i,
    {
        if s[i] == b {
            return Some(i);
        }
        i += 1;
    }
    None
}

/// A copy of `s[from..to]`.
pub fn copy_range(s: &Vec<u8>, from: usize, to: usize) -> (r: Vec<u8>)
    requires
        from <= to <= s@.len(),
    ensures
        r@ == s@.subrange(from as int, to as int),
{
    let mut out: Vec<u8> = Vec::new();
    let mut i = from;
    while i < to
        invariant
            from <= i <= to <= s@.len(),
            out@ =~= s@.subrange(from as int, i as int),
        decreases to - i,
    {
        out.push(s[i]);
        i += 1;
        assert(out@ =~= s@.subrange(from as int, i as int));
    }
    out
}

/// True when `pat` occurs somewhere in `s`.
pub open spec fn contains_seq(s: Seq<u8>, pat: Seq<u8>) -> bool {
    exists|i: int| match_at(s, pat, i)
}

/// Byte-for-byte equality of two buffers.
pub fn bytes_eq(a: &Vec<u8>, b: &Vec<u8>) -> (r: bool)
    ensures
        r == (a@ == b@),
{
    let n = a.len();
    if n != b.len() {
        assert(a@ != b@);
        return false;
    }
    let mut k: usize = 0;
    while k < n
        invariant
            k <= n == a@.len() && n == b@.len(),
            forall|t: int| 0 <= t < k ==> a@[t] == b@[t],
        decreases n - k,
    {
        if a[k] != b[k] {
            return false;
        }
        k += 1;
    }
    assert(a@ =~= b@);
    true
}

/// True when `needle` occurs anywhere in `s`.
pub fn contains_sub(s: &Vec<u8>, needle: &Vec<u8>) -> (r: bool)
    ensures
        r == contains_seq(s@, needle@),
{
    match find_sub(s, needle) {
        Some(i) => {
            proof {
                assert(match_at(s@, needle@, i as int));
            }
            true
        },
        None => false,
    }
}

/// Case-insensitive (ASCII) first occurrence of `needle` in `haystack`.
pub fn strcasestr_local(haystack: &Vec<u8>, needle: &Vec<u8>) -> (r: Option<usize>)
    ensures
        match r {
            Some(i) => match_at(spec_lower(haystack@), spec_lower(needle@), i as int)
                && forall|j: int| 0 <= j < i ==> !match_at(spec_lower(haystack@), spec_lower(needle@), j),
            None => forall|j: int| !match_at(spec_lower(haystack@), spec_lower(needle@), j),
        },
{
    let h = to_lower_copy(haystack);
    let n = to_lower_copy(needle);
    find_sub(&h, &n)
}

/// True when `prefix` starts `s`.
pub fn starts_with(s: &Vec<u8>, prefix: &Vec<u8>) -> (r: bool)
    ensures
        r == prefix@.is_prefix_of(s@),
{
    let m = prefix.len();
    if m > s.len() {
        assert(!prefix@.is_prefix_of(s@));
        return false;
    }
    let mut k: usize = 0;
    while k < m
        invariant
            k <= m == prefix@.len(),
            m <= s@.len(),
            forall|t: int| 0 <= t < k ==> s@[t] == prefix@[t],
        decreases m - k,
    {
        if s[k] != prefix[k] {
            assert(!prefix@.is_prefix_of(s@)) by {
                assert(s@.subrange(0, m as int)[k as int] != prefix@[k as int]);
            };
            return false;
        }
        k = k + 1;
    }
    assert(prefix@.is_prefix_of(s@)) by {
        assert(s@.subrange(0, m as int) =~= prefix@);
    };
    true
}

/// True when `suffix` ends `s`.
pub fn str_ends_with(s: &Vec<u8>, suffix: &Vec<u8>) -> (r: bool)
    ensures
        r == suffix@.is_suffix_of(s@),
{
    let m = suffix.len();
    let n = s.len();
    if m > n {
        assert(!suffix@.is_suffix_of(s@));
        return false;
    }
    let off = n - m;
    let mut k: usize = 0;
    while k < m
        invariant
            k <= m == suffix@.len(),
            off == n - m,
            m <= n == s@.len(),
            forall|t: int| 0 <= t < k ==> s@[off + t] == suffix@[t],
        decreases m - k,
    {
        if s[off + k] != suffix[k] {
            assert(!suffix@.is_suffix_of(s@)) by {
                assert(s@.subrange((n - m) as int, n as int)[k as int] != suffix@[k as int]);
            };
            return false;
        }
        k = k + 1;
    }
    assert(suffix@.is_suffix_of(s@)) by {
        assert(s@.subrange((n - m) as int, n as int) =~= suffix@);
    };
    true
}

} // verus!
