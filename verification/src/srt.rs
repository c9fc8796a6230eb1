use vstd::prelude::*;
use vstd::string::StrSliceExecFns;
use vstd::string::StringSliceAdditionalSpecFns;

use crate::ascii::{COLON, COMMA, CR, LF};
use crate::num::{all_digits, dec_value, parse_u32, spec_dec, u64_dec};
use crate::text::{contains_seq, contains_sub, find_sub, match_at, push_bytes};

verus! {

// Subtitle normalization: every `HH:MM:SS,mmm --> HH:MM:SS,mmm` cue line
// becomes `S --> S` in whole seconds (milliseconds dropped by truncation),
// and italics markup is stripped. Everything else passes through unchanged.

pub open spec fn is_ts_sep(b: u8) -> bool {
    b == COLON || b == COMMA
}

/// Index of the first byte satisfying `f`, or the length when none does.
pub open spec fn first_idx(s: Seq<u8>, f: spec_fn(u8) -> bool) -> nat
    decreases s.len(),
{
    if s.len() == 0 {
        0
    } else if f(s[0]) {
        0
    } else {
        1 + first_idx(s.drop_first(), f)
    }
}

/// Split at every byte satisfying `f`; a trailing separator yields a final
/// empty part, and the empty input is one empty part.
pub open spec fn spec_split(s: Seq<u8>, f: spec_fn(u8) -> bool) -> Seq<Seq<u8>>
    decreases s.len(),
{
    let k = first_idx(s, f);
    if k >= s.len() {
        seq![s]
    } else {
        seq![s.take(k as int)] + spec_split(s.skip(k + 1 as int), f)
    }
}

proof fn lemma_first_idx_le(s: Seq<u8>, f: spec_fn(u8) -> bool)
    ensures
        first_idx(s, f) <= s.len(),
        first_idx(s, f) < s.len() ==> f(s[first_idx(s, f) as int]),
        forall|t: int| 0 <= t < first_idx(s, f) ==> !f(s[t]),
    decreases s.len(),
{
    if s.len() == 0 {
    } else if f(s[0]) {
    } else {
        lemma_first_idx_le(s.drop_first(), f);
        assert forall|t: int| 0 <= t < first_idx(s, f) implies !f(s[t]) by {
            if t > 0 {
                assert(s.drop_first()[t - 1] == s[t]);
            }
        }
    }
}

/// Split a timestamp on its colon and comma separators.
fn split_by_ts_seps(s: &Vec<u8>) -> (r: Vec<Vec<u8>>)
    ensures
        r@.map_values(|v: Vec<u8>| v@) == spec_split(s@, |b: u8| is_ts_sep(b)),
{
    let ghost f = |b: u8| is_ts_sep(b);
    let n = s.len();
    let mut parts: Vec<Vec<u8>> = Vec::new();
    let mut cur: Vec<u8> = Vec::new();
    let mut i: usize = 0;
    proof {
        assert(s@.skip(0) =~= s@);
        assert(spec_split(s@, f).len() >= 1);
        assert(Seq::<u8>::empty() + spec_split(s@, f)[0] =~= spec_split(s@, f)[0]);
        assert(glue(Seq::<u8>::empty(), spec_split(s@, f)) =~~= spec_split(s@, f));
    }
    while i < n
        invariant
            f == (|b: u8| is_ts_sep(b)),
            i <= n == s@.len(),
            spec_split(s@, f) =~~= parts@.map_values(|v: Vec<u8>| v@) + glue(
                cur@,
                spec_split(s@.skip(i as int), f),
            ),
            forall|t: int| 0 <= t < cur@.len() ==> !f(cur@[t]),
        decreases n - i,
    {
        let b = s[i];
        let ghost curg = cur@;
        let ghost partsg = parts@.map_values(|v: Vec<u8>| v@);
        proof {
            split_step(s@, f, i as int, cur@);
        }
        if b == COLON || b == COMMA {
            parts.push(cur);
            cur = Vec::new();
        } else {
            cur.push(b);
        }
        i += 1;
        proof {
            let g = |v: Vec<u8>| v@;
            let rest_new = spec_split(s@.skip(i as int), f);
            if f(s@[i - 1]) {
                assert(spec_split(s@, f) == partsg + (seq![curg] + glue(
                    Seq::<u8>::empty(),
                    rest_new,
                )));
                assert(partsg + (seq![curg] + glue(Seq::<u8>::empty(), rest_new)) =~~= partsg.push(
                    curg,
                ) + glue(Seq::<u8>::empty(), rest_new));
                assert(parts@.map_values(g) =~~= partsg.push(curg));
                assert(cur@ =~= Seq::<u8>::empty());
                assert(parts@.map_values(g) + glue(cur@, rest_new) =~~= partsg.push(curg) + glue(
                    Seq::<u8>::empty(),
                    rest_new,
                ));
                assert(spec_split(s@, f) =~~= parts@.map_values(g) + glue(cur@, rest_new));
            } else {
                assert(cur@ == curg.push(s@[i - 1]));
                assert(spec_split(s@, f) == partsg + glue(curg.push(s@[i - 1]), rest_new));
                assert(parts@.map_values(g) == partsg);
                assert(spec_split(s@, f) =~~= parts@.map_values(g) + glue(cur@, rest_new));
            }
            assert(spec_split(s@, f) =~~= parts@.map_values(|v: Vec<u8>| v@) + glue(
                cur@,
                spec_split(s@.skip(i as int), f),
            ));
        }
    }
    let ghost partsg = parts@.map_values(|v: Vec<u8>| v@);
    let ghost curg = cur@;
    parts.push(cur);
    proof {
        assert(s@.skip(n as int) =~= Seq::<u8>::empty());
        split_final(s@, f, partsg, curg);
        assert(parts@.map_values(|v: Vec<u8>| v@) =~~= partsg.push(curg));
        assert(parts@.map_values(|v: Vec<u8>| v@) =~~= spec_split(s@, f));
    }
    parts
}

/// Prepend a pending partial segment onto a split of the remaining input.
pub open spec fn glue(cur: Seq<u8>, rest: Seq<Seq<u8>>) -> Seq<Seq<u8>> {
    seq![cur + rest[0]] + rest.drop_first()
}

proof fn split_step(s: Seq<u8>, f: spec_fn(u8) -> bool, i: int, cur: Seq<u8>)
    requires
        0 <= i < s.len(),
        forall|t: int| 0 <= t < cur.len() ==> !f(cur[t]),
    ensures
        f(s[i]) ==> glue(cur, spec_split(s.skip(i), f)) =~~= seq![cur] + glue(
            Seq::<u8>::empty(),
            spec_split(s.skip(i + 1), f),
        ),
        !f(s[i]) ==> glue(cur, spec_split(s.skip(i), f)) =~~= glue(
            cur.push(s[i]),
            spec_split(s.skip(i + 1), f),
        ),
{
    let rem = s.skip(i);
    let rem1 = s.skip(i + 1);
    assert(rem.len() == s.len() - i);
    assert(rem[0] == s[i]);
    assert(rem.skip(1) =~= rem1);
    lemma_first_idx_le(rem, f);
    lemma_first_idx_le(rem1, f);
    if f(s[i]) {
        assert(first_idx(rem, f) == 0);
        assert(rem.take(0) =~= Seq::<u8>::empty());
        assert(spec_split(rem, f) == seq![Seq::<u8>::empty()] + spec_split(rem1, f));
        assert(spec_split(rem1, f).len() >= 1);
        assert(glue(cur, spec_split(rem, f)) =~~= seq![cur] + glue(
            Seq::<u8>::empty(),
            spec_split(rem1, f),
        ));
    } else {
        assert(rem.drop_first() =~= rem1);
        assert(first_idx(rem, f) == 1 + first_idx(rem1, f));
        let k1 = first_idx(rem1, f);
        if k1 >= rem1.len() {
            assert(spec_split(rem1, f) == seq![rem1]);
            assert(first_idx(rem, f) >= rem.len());
            assert(spec_split(rem, f) == seq![rem]);
            assert(cur + rem =~= cur.push(s[i]) + rem1);
            assert(glue(cur, spec_split(rem, f)) =~~= glue(cur.push(s[i]), spec_split(rem1, f)));
        } else {
            let k = 1 + k1;
            assert(first_idx(rem, f) == k < rem.len());
            assert(rem.skip(k + 1 as int) =~= rem1.skip(k1 + 1 as int));
            assert(spec_split(rem, f) == seq![rem.take(k as int)] + spec_split(rem.skip(k + 1 as int), f));
            assert(spec_split(rem1, f) == seq![rem1.take(k1 as int)] + spec_split(
                rem1.skip(k1 + 1 as int),
                f,
            ));
            assert(cur + rem.take(k as int) =~= cur.push(s[i]) + rem1.take(k1 as int));
            assert(glue(cur, spec_split(rem, f)) =~~= glue(cur.push(s[i]), spec_split(rem1, f)));
        }
    }
}

proof fn split_final(s: Seq<u8>, f: spec_fn(u8) -> bool, done: Seq<Seq<u8>>, cur: Seq<u8>)
    requires
        spec_split(s, f) =~~= done + glue(cur, spec_split(Seq::<u8>::empty(), f)),
    ensures
        spec_split(s, f) =~~= done.push(cur),
{
    assert(first_idx(Seq::<u8>::empty(), f) == 0);
    assert(spec_split(Seq::<u8>::empty(), f) == seq![Seq::<u8>::empty()]);
    assert(cur + Seq::<u8>::empty() =~= cur);
    assert(glue(cur, seq![Seq::<u8>::empty()]) =~~= seq![cur]);
    assert(done + seq![cur] =~~= done.push(cur));
}

/// Split on line feeds.
fn split_lines(s: &Vec<u8>) -> (r: Vec<Vec<u8>>)
    ensures
        r@.map_values(|v: Vec<u8>| v@) == spec_split(s@, |b: u8| b == LF),
{
    let ghost f = |b: u8| b == LF;
    let n = s.len();
    let mut parts: Vec<Vec<u8>> = Vec::new();
    let mut cur: Vec<u8> = Vec::new();
    let mut i: usize = 0;
    proof {
        assert(s@.skip(0) =~= s@);
        assert(spec_split(s@, f).len() >= 1);
        assert(Seq::<u8>::empty() + spec_split(s@, f)[0] =~= spec_split(s@, f)[0]);
        assert(glue(Seq::<u8>::empty(), spec_split(s@, f)) =~~= spec_split(s@, f));
    }
    while i < n
        invariant
            f == (|b: u8| b == LF),
            i <= n == s@.len(),
            spec_split(s@, f) =~~= parts@.map_values(|v: Vec<u8>| v@) + glue(
                cur@,
                spec_split(s@.skip(i as int), f),
            ),
            forall|t: int| 0 <= t < cur@.len() ==> !f(cur@[t]),
        decreases n - i,
    {
        let b = s[i];
        let ghost curg = cur@;
        let ghost partsg = parts@.map_values(|v: Vec<u8>| v@);
        proof {
            split_step(s@, f, i as int, cur@);
        }
        if b == LF {
            parts.push(cur);
            cur = Vec::new();
        } else {
            cur.push(b);
        }
        i += 1;
        proof {
            let g = |v: Vec<u8>| v@;
            let rest_new = spec_split(s@.skip(i as int), f);
            if f(s@[i - 1]) {
                assert(spec_split(s@, f) == partsg + (seq![curg] + glue(
                    Seq::<u8>::empty(),
                    rest_new,
                )));
                assert(partsg + (seq![curg] + glue(Seq::<u8>::empty(), rest_new)) =~~= partsg.push(
                    curg,
                ) + glue(Seq::<u8>::empty(), rest_new));
                assert(parts@.map_values(g) =~~= partsg.push(curg));
                assert(cur@ =~= Seq::<u8>::empty());
                assert(parts@.map_values(g) + glue(cur@, rest_new) =~~= partsg.push(curg) + glue(
                    Seq::<u8>::empty(),
                    rest_new,
                ));
                assert(spec_split(s@, f) =~~= parts@.map_values(g) + glue(cur@, rest_new));
            } else {
                assert(cur@ == curg.push(s@[i - 1]));
                assert(spec_split(s@, f) == partsg + glue(curg.push(s@[i - 1]), rest_new));
                assert(parts@.map_values(g) == partsg);
                assert(spec_split(s@, f) =~~= parts@.map_values(g) + glue(cur@, rest_new));
            }
            assert(spec_split(s@, f) =~~= parts@.map_values(|v: Vec<u8>| v@) + glue(
                cur@,
                spec_split(s@.skip(i as int), f),
            ));
        }
    }
    let ghost partsg = parts@.map_values(|v: Vec<u8>| v@);
    let ghost curg = cur@;
    parts.push(cur);
    proof {
        assert(s@.skip(n as int) =~= Seq::<u8>::empty());
        split_final(s@, f, partsg, curg);
        assert(parts@.map_values(|v: Vec<u8>| v@) =~~= partsg.push(curg));
        assert(parts@.map_values(|v: Vec<u8>| v@) =~~= spec_split(s@, f));
    }
    parts
}

/// The display timestamp's value in whole seconds: exactly four
/// colon/comma-separated fields, each a decimal number no larger than a
/// signed 32-bit value, read as HH, MM, SS (milliseconds dropped).
pub open spec fn spec_timestamp_seconds(s: Seq<u8>) -> Option<int> {
    let ps = spec_split(s, |b: u8| is_ts_sep(b));
    if ps.len() == 4 && (forall|j: int|
        0 <= j < 4 ==> #[trigger] ps[j].len() > 0 && all_digits(ps[j]) && dec_value(ps[j])
            <= 0x7FFF_FFFF) {
        Some(dec_value(ps[0]) * 3600 + dec_value(ps[1]) * 60 + dec_value(ps[2]))
    } else {
        None
    }
}

/// Parse a display timestamp `HH:MM:SS,mmm` into whole seconds.
pub fn timestamp_to_seconds(ts: &Vec<u8>) -> (r: Option<u64>)
    ensures
        match r {
            Some(v) => spec_timestamp_seconds(ts@) == Some(v as int),
            None => spec_timestamp_seconds(ts@) is None,
        },
{
    let parts = split_by_ts_seps(ts);
    let ghost ps = spec_split(ts@, |b: u8| is_ts_sep(b));
    proof {
        assert(ps.len() == parts@.len());
    }
    if parts.len() != 4 {
        return None;
    }
    proof {
        assert(ps[0] == parts@.map_values(|v: Vec<u8>| v@)[0]);
        assert(ps[1] == parts@.map_values(|v: Vec<u8>| v@)[1]);
        assert(ps[2] == parts@.map_values(|v: Vec<u8>| v@)[2]);
        assert(ps[3] == parts@.map_values(|v: Vec<u8>| v@)[3]);
    }
    let hh = match parse_u32(&parts[0]) {
        Some(v) => v,
        None => {
            return None;
        },
    };
    let mm = match parse_u32(&parts[1]) {
        Some(v) => v,
        None => {
            return None;
        },
    };
    let ss = match parse_u32(&parts[2]) {
        Some(v) => v,
        None => {
            return None;
        },
    };
    let ms = match parse_u32(&parts[3]) {
        Some(v) => v,
        None => {
            return None;
        },
    };
    if hh > 0x7FFF_FFFF || mm > 0x7FFF_FFFF || ss > 0x7FFF_FFFF || ms > 0x7FFF_FFFF {
        return None;
    }
    Some((hh as u64) * 3600 + (mm as u64) * 60 + (ss as u64))
}

/// Remove every occurrence of `pat`, scanning left to right without
/// overlap; an empty pattern removes nothing.
pub open spec fn spec_remove_all(s: Seq<u8>, pat: Seq<u8>) -> Seq<u8>
    decreases s.len(),
{
    if pat.len() == 0 {
        s
    } else if s.len() < pat.len() {
        s
    } else if match_at(s, pat, 0) {
        spec_remove_all(s.skip(pat.len() as int), pat)
    } else {
        seq![s[0]] + spec_remove_all(s.drop_first(), pat)
    }
}

/// Remove every occurrence of `pat` from `s`.
pub fn remove_all(s: &Vec<u8>, pat: &Vec<u8>) -> (r: Vec<u8>)
    ensures
        r@ == spec_remove_all(s@, pat@),
{
    let m = pat.len();
    if m == 0 {
        return s.clone();
    }
    let n = s.len();
    let mut out: Vec<u8> = Vec::new();
    let mut i: usize = 0;
    proof {
        assert(s@.skip(0) =~= s@);
        assert(Seq::<u8>::empty() + spec_remove_all(s@, pat@) =~= spec_remove_all(s@, pat@));
    }
    while i < n
        invariant
            i <= n == s@.len(),
            m == pat@.len(),
            m > 0,
            spec_remove_all(s@, pat@) =~= out@ + spec_remove_all(s@.skip(i as int), pat@),
        decreases n - i,
    {
        let ghost rem = s@.skip(i as int);
        let mut k: usize = 0;
        while k < m && n - i > k && s[i + k] == pat[k]
            invariant
                i < n == s@.len(),
                m == pat@.len(),
                k <= m,
                i + k <= n,
                forall|t: int| 0 <= t < k ==> s@[i + t] == pat@[t],
            decreases m - k,
        {
            k = k + 1;
        }
        if k == m {
            proof {
                assert(match_at(rem, pat@, 0)) by {
                    assert(forall|t: int| 0 <= t < m ==> rem[t] == s@[i + t]);
                };
                assert(rem.skip(m as int) =~= s@.skip(i + m));
            }
            i += m;
        } else {
            proof {
                assert(rem.len() >= 1);
                if rem.len() >= m {
                    assert(!match_at(rem, pat@, 0)) by {
                        assert(rem[k as int] == s@[i + k]);
                    };
                }
                assert(rem.drop_first() =~= s@.skip(i + 1));
                assert(rem[0] == s@[i as int]);
            }
            out.push(s[i]);
            i += 1;
        }
        proof {
            assert(spec_remove_all(s@, pat@) =~= out@ + spec_remove_all(
                s@.skip(i as int),
                pat@,
            ));
        }
    }
    proof {
        assert(s@.skip(n as int) =~= Seq::<u8>::empty());
        assert(spec_remove_all(Seq::<u8>::empty(), pat@) =~= Seq::<u8>::empty());
        assert(out@ + Seq::<u8>::empty() =~= out@);
    }
    out
}

/// A line with one trailing carriage return removed, as a line reader
/// yields it.
pub open spec fn spec_strip_cr(l: Seq<u8>) -> Seq<u8> {
    if l.len() > 0 && l.last() == CR {
        l.drop_last()
    } else {
        l
    }
}

/// One subtitle line, normalized: italics tags removed; then, when the line
/// is exactly `A --> B` with both sides holding a colon and parsing as
/// display timestamps, it becomes the two whole-second values around the
/// arrow; otherwise the de-italicized line stands as it is.
#[verifier::opaque]
pub open spec fn spec_convert_line(line: Seq<u8>) -> Seq<u8> {
    let l = spec_remove_all(
        spec_remove_all(line, "<i>".spec_bytes()),
        "</i>".spec_bytes(),
    );
    let arrow = " --> ".spec_bytes();
    if !contains_seq(l, arrow) {
        l
    } else {
        let i = choose|i: int|
            match_at(l, arrow, i) && (forall|j: int| 0 <= j < i ==> !match_at(l, arrow, j));
        let a = l.take(i);
        let b = l.skip(i + arrow.len());
        if contains_seq(b, arrow) {
            l
        } else if contains_seq(a, seq![COLON]) && contains_seq(b, seq![COLON])
            && spec_timestamp_seconds(a) is Some && spec_timestamp_seconds(b) is Some {
            spec_dec(spec_timestamp_seconds(a)->0) + arrow + spec_dec(spec_timestamp_seconds(b)->0)
        } else {
            l
        }
    }
}

/// Normalize one subtitle line.
#[verifier::rlimit(100)]
pub fn convert_srt_line(line: &Vec<u8>) -> (r: Vec<u8>)
    ensures
        r@ == spec_convert_line(line@),
{
    proof {
        reveal(spec_convert_line);
    }
    let itag = ("<i>").as_bytes_vec();
    let ctag = ("</i>").as_bytes_vec();
    let arrow = (" --> ").as_bytes_vec();
    let l0 = remove_all(line, &itag);
    let l = remove_all(&l0, &ctag);
    let i = match find_sub(&l, &arrow) {
        Some(i) => i,
        None => {
            return l;
        },
    };
    let ghost iw = choose|iw: int|
        match_at(l@, arrow@, iw) && (forall|j: int| 0 <= j < iw ==> !match_at(l@, arrow@, j));
    proof {
        assert(match_at(l@, arrow@, i as int) && (forall|j: int|
            0 <= j < i ==> !match_at(l@, arrow@, j)));
        if iw < i {
            assert(!match_at(l@, arrow@, iw));
        }
        if i < iw {
            assert(!match_at(l@, arrow@, i as int));
        }
        assert(iw == i);
    }
    let mut a: Vec<u8> = Vec::new();
    let mut k: usize = 0;
    while k < i
        invariant
            k <= i,
            i + arrow@.len() <= l@.len(),
            a@ =~= l@.take(i as int).take(k as int),
        decreases i - k,
    {
        a.push(l[k]);
        k += 1;
        assert(a@ =~= l@.take(i as int).take(k as int));
    }
    assert(a@ =~= l@.take(i as int));
    let mut b: Vec<u8> = Vec::new();
    let ln = l.len();
    assert(i + arrow@.len() <= ln);
    let mut k2 = i + arrow.len();
    let ghost bstart = k2 as int;
    while k2 < l.len()
        invariant
            bstart <= k2 <= l@.len(),
            bstart == i + arrow@.len(),
            b@ =~= l@.skip(bstart).take(k2 - bstart),
        decreases l@.len() - k2,
    {
        b.push(l[k2]);
        k2 += 1;
        assert(b@ =~= l@.skip(bstart).take(k2 - bstart));
    }
    assert(b@ =~= l@.skip(bstart));
    if contains_sub(&b, &arrow) {
        return l;
    }
    let colon = {
        let mut c: Vec<u8> = Vec::new();
        c.push(COLON);
        c
    };
    assert(colon@ =~= seq![COLON]);
    if !contains_sub(&a, &colon) || !contains_sub(&b, &colon) {
        return l;
    }
    let s1 = match timestamp_to_seconds(&a) {
        Some(v) => v,
        None => {
            return l;
        },
    };
    let s2 = match timestamp_to_seconds(&b) {
        Some(v) => v,
        None => {
            return l;
        },
    };
    let mut out = u64_dec(s1);
    push_bytes(&mut out, " --> ");
    let mut d2 = u64_dec(s2);
    out.append(&mut d2);
    assert(out@ =~= spec_dec(s1 as int) + " --> ".spec_bytes() + spec_dec(s2 as int));
    out
}

/// The whole normalized subtitle text: each line (line feeds and a final
/// carriage return stripped, a trailing final empty line dropped) converted
/// and ended with a line feed.
pub open spec fn spec_join_lines(parts: Seq<Seq<u8>>) -> Seq<u8>
    decreases parts.len(),
{
    if parts.len() == 0 {
        Seq::empty()
    } else {
        spec_join_lines(parts.drop_last()) + parts.last() + seq![LF]
    }
}

pub open spec fn spec_convert_srt(s: Seq<u8>) -> Seq<u8> {
    let ls = spec_split(s, |b: u8| b == LF);
    let ls2 = if ls.len() > 0 && ls.last().len() == 0 {
        ls.drop_last()
    } else {
        ls
    };
    spec_join_lines(ls2.map_values(|l: Seq<u8>| spec_convert_line(spec_strip_cr(l))))
}

/// Normalize a whole subtitle file's text: every cue timestamp pair becomes
/// whole seconds, italics markup goes away, and line endings come out as
/// single line feeds.
#[verifier::rlimit(100)]
pub fn convert_srt_timestamps_to_seconds(input: &Vec<u8>) -> (r: Vec<u8>)
    ensures
        r@ == spec_convert_srt(input@),
{
    let mut lines = split_lines(input);
    let ghost ls = spec_split(input@, |b: u8| b == LF);
    if lines.len() > 0 {
        let last = &lines[lines.len() - 1];
        if last.len() == 0 {
            lines.pop();
            proof {
                assert(lines@.map_values(|v: Vec<u8>| v@) =~= ls.drop_last());
            }
        }
    }
    let ghost ls2 = lines@.map_values(|v: Vec<u8>| v@);
    let n = lines.len();
    let mut out: Vec<u8> = Vec::new();
    let mut i: usize = 0;
    while i < n
        invariant
            i <= n == lines@.len(),
            ls2 == lines@.map_values(|v: Vec<u8>| v@),
            out@ =~= spec_join_lines(
                ls2.take(i as int).map_values(|l: Seq<u8>| spec_convert_line(spec_strip_cr(l))),
            ),
        decreases n - i,
    {
        let mut line = lines[i].clone();
        if line.len() > 0 && line[line.len() - 1] == CR {
            line.pop();
        }
        assert(line@ =~= spec_strip_cr(ls2[i as int]));
        let mut conv = convert_srt_line(&line);
        out.append(&mut conv);
        out.push(LF);
        i += 1;
        proof {
            let f = |l: Seq<u8>| spec_convert_line(spec_strip_cr(l));
            assert(ls2.take(i as int).map_values(f).drop_last() =~= ls2.take(
                i - 1 as int,
            ).map_values(f));
            assert(out@ =~= spec_join_lines(ls2.take(i as int).map_values(f)));
        }
    }
    proof {
        assert(ls2.take(n as int) =~= ls2);
    }
    out
}

} // verus!
