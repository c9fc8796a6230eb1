use vstd::prelude::*;
use vstd::string::StrSliceExecFns;
use vstd::string::StringSliceAdditionalSpecFns;

use crate::ascii::{APOSTROPHE, DASH, DQUOTE, EQ, GT, SPACE};
use crate::ascii::{LA, LC, LD, LE, LI, LL, LP, LR, LS, LT, LT_LETTER, LV, LX, SLASH};
use crate::srt::first_idx;
use crate::subtitle::is_re_ws;
use crate::text::{find_byte_from, imsdb_format_title_loose, match_at, push_bytes, push_vec,
    spec_imsdb_title_loose, spec_lower, spec_strip_parens, spec_url_encode, strcasestr_local,
    strip_parens, to_lower_copy, url_encode_component};

verus! {

// The script site is tried with a fixed, ordered list of URL spellings of
// the movie title; the first page that yields a big enough script wins.
// Fetching is the driver's business.

/// Extracted script text is kept only when it reaches this many bytes.
pub const MIN_SCRIPT_TEXT_BYTES: usize = 1000;

/// The title with spaces turned into dashes and nothing else changed.
pub open spec fn spec_dashed_title(s: Seq<u8>) -> Seq<u8> {
    s.map_values(|b: u8| if b == SPACE { DASH } else { b })
}

fn dashed_title(title: &Vec<u8>) -> (r: Vec<u8>)
    ensures
        r@ == spec_dashed_title(title@),
{
    let n = title.len();
    let mut out: Vec<u8> = Vec::new();
    let mut i: usize = 0;
    while i < n
        invariant
            i <= n == title@.len(),
            out@ =~= spec_dashed_title(title@.take(i as int)),
        decreases n - i,
    {
        let b = title[i];
        if b == SPACE {
            out.push(DASH);
        } else {
            out.push(b);
        }
        i += 1;
        assert(out@ =~= spec_dashed_title(title@.take(i as int)));
    }
    assert(title@.take(n as int) =~= title@);
    out
}

/// One `/scripts/<name>.html` attempt URL.
pub open spec fn spec_imsdb_script_url(name: Seq<u8>) -> Seq<u8> {
    "https://imsdb.com/scripts/".spec_bytes() + name + ".html".spec_bytes()
}

fn imsdb_script_url(name: &Vec<u8>) -> (r: Vec<u8>)
    ensures
        r@ == spec_imsdb_script_url(name@),
{
    let mut out: Vec<u8> = Vec::new();
    push_bytes(&mut out, "https://imsdb.com/scripts/");
    push_vec(&mut out, name);
    push_bytes(&mut out, ".html");
    assert(out@ =~= spec_imsdb_script_url(name@));
    out
}

/// The ordered script-site attempts for a title: dashed, dashed without
/// parentheses, and the loose form, each as written and lower-cased, then
/// the encoded `Movie Scripts` page.
pub fn imsdb_attempt_urls(title: &Vec<u8>) -> (r: Vec<Vec<u8>>)
    ensures
        r@.len() == 7,
        r@[0]@ == spec_imsdb_script_url(spec_dashed_title(title@)),
        r@[1]@ == spec_imsdb_script_url(spec_strip_parens(spec_dashed_title(title@))),
        r@[2]@ == spec_imsdb_script_url(spec_imsdb_title_loose(title@)),
        r@[3]@ == spec_imsdb_script_url(spec_lower(spec_dashed_title(title@))),
        r@[4]@ == spec_imsdb_script_url(spec_lower(spec_strip_parens(spec_dashed_title(title@)))),
        r@[5]@ == spec_imsdb_script_url(spec_lower(spec_imsdb_title_loose(title@))),
        r@[6]@ == "https://imsdb.com/Movie%20Scripts/".spec_bytes() + spec_url_encode(title@)
            + "%20Script.html".spec_bytes(),
{
    let a = dashed_title(title);
    let b = strip_parens(&a);
    let c = imsdb_format_title_loose(title);
    let a_lo = to_lower_copy(&a);
    let b_lo = to_lower_copy(&b);
    let c_lo = to_lower_copy(&c);
    let enc = url_encode_component(title);
    let mut out: Vec<Vec<u8>> = Vec::new();
    out.push(imsdb_script_url(&a));
    out.push(imsdb_script_url(&b));
    out.push(imsdb_script_url(&c));
    out.push(imsdb_script_url(&a_lo));
    out.push(imsdb_script_url(&b_lo));
    out.push(imsdb_script_url(&c_lo));
    let mut last: Vec<u8> = Vec::new();
    push_bytes(&mut last, "https://imsdb.com/Movie%20Scripts/");
    push_vec(&mut last, &enc);
    push_bytes(&mut last, "%20Script.html");
    assert(last@ =~= "https://imsdb.com/Movie%20Scripts/".spec_bytes() + spec_url_encode(title@)
        + "%20Script.html".spec_bytes());
    out.push(last);
    out
}

/// Extracted script text counts as a script only at a thousand bytes or
/// more; anything shorter is treated as a failed attempt.
pub fn script_text_ok(text: &Vec<u8>) -> (r: bool)
    ensures
        r == (text@.len() >= MIN_SCRIPT_TEXT_BYTES),
{
    text.len() >= MIN_SCRIPT_TEXT_BYTES
}

pub open spec fn kw_class() -> Seq<u8> {
    seq![LC, LL, LA, LS, LS]
}

pub open spec fn kw_scrtext() -> Seq<u8> {
    seq![LS, LC, LR, LT_LETTER, LE, LX, LT_LETTER]
}

/// The page declares the `scrtext` class at position `i`: `class` (any
/// case), optional whitespace around `=`, a quote, `scrtext` (any case),
/// and the same quote again.
#[verifier::opaque]
pub open spec fn class_at(s: Seq<u8>, i: int) -> bool {
    let ls = spec_lower(s);
    &&& 0 <= i
    &&& match_at(ls, kw_class(), i)
    &&& {
        let j1 = i + 5 + first_idx(s.skip(i + 5), |b: u8| !is_re_ws(b));
        &&& j1 < s.len()
        &&& s[j1] == EQ
        &&& {
            let j2 = j1 + 1 + first_idx(s.skip(j1 + 1), |b: u8| !is_re_ws(b));
            &&& j2 < s.len()
            &&& (s[j2] == APOSTROPHE || s[j2] == DQUOTE)
            &&& match_at(ls, kw_scrtext(), j2 + 1)
            &&& j2 + 8 < s.len()
            &&& s[j2 + 8] == s[j2]
        }
    }
}

/// Case-insensitive check of the lower-cased pattern at `i`.
fn imatch_at(s: &Vec<u8>, pat_lower: &Vec<u8>, i: usize) -> (r: bool)
    requires
        i <= s@.len(),
    ensures
        r == match_at(spec_lower(s@), pat_lower@, i as int),
{
    let m = pat_lower.len();
    let n = s.len();
    if m > n - i {
        assert(!match_at(spec_lower(s@), pat_lower@, i as int));
        return false;
    }
    let mut k: usize = 0;
    while k < m
        invariant
            k <= m == pat_lower@.len(),
            i + m <= n == s@.len(),
            forall|t: int| 0 <= t < k ==> spec_lower(s@)[i + t] == pat_lower@[t],
        decreases m - k,
    {
        let b = s[i + k];
        let lb = if 65 <= b && b <= 90 {
            b + 32
        } else {
            b
        };
        if lb != pat_lower[k] {
            assert(spec_lower(s@)[i + k] != pat_lower@[k as int]);
            return false;
        }
        k += 1;
    }
    true
}

/// The first place the page declares the `scrtext` class, if it does at
/// all.
#[verifier::rlimit(100)]
pub fn find_class_scrtext(page: &Vec<u8>) -> (r: Option<usize>)
    ensures
        match r {
            Some(i) => i < page@.len() && class_at(page@, i as int) && forall|t: int|
                0 <= t < i ==> !class_at(page@, t),
            None => forall|t: int| !class_at(page@, t),
        },
{
    let n = page.len();
    let mut cls: Vec<u8> = Vec::new();
    cls.push(LC);
    cls.push(LL);
    cls.push(LA);
    cls.push(LS);
    cls.push(LS);
    assert(cls@ =~= kw_class());
    let mut scr: Vec<u8> = Vec::new();
    scr.push(LS);
    scr.push(LC);
    scr.push(LR);
    scr.push(LT_LETTER);
    scr.push(LE);
    scr.push(LX);
    scr.push(LT_LETTER);
    assert(scr@ =~= kw_scrtext());
    let mut i: usize = 0;
    while i < n
        invariant
            i <= n == page@.len(),
            cls@ == kw_class() && scr@ == kw_scrtext(),
            forall|t: int| 0 <= t < i ==> !class_at(page@, t),
        decreases n - i,
    {
        proof {
            reveal(class_at);
        }
        let mut here = false;
        if imatch_at(page, &cls, i) {
            let mut j = i + 5;
            while j < n && is_re_ws_b(page[j])
                invariant
                    i + 5 <= j <= n == page@.len(),
                    forall|t: int| i + 5 <= t < j ==> is_re_ws(page@[t]),
                decreases n - j,
            {
                j += 1;
            }
            proof {
                let f = |b: u8| !is_re_ws(b);
                assert forall|t: int| 0 <= t < j - i - 5 implies !f(
                    #[trigger] page@.skip(i + 5)[t],
                ) by {
                    assert(page@.skip(i + 5)[t] == page@[i + 5 + t]);
                }
                assert(j - i - 5 < page@.skip(i + 5).len() ==> f(page@.skip(i + 5)[j - i - 5]));
                crate::html::lemma_first_nonmatch(page@.skip(i + 5), f, j - i - 5);
            }
            if j < n && page[j] == EQ {
                let mut j2 = j + 1;
                while j2 < n && is_re_ws_b(page[j2])
                    invariant
                        j + 1 <= j2 <= n == page@.len(),
                        forall|t: int| j + 1 <= t < j2 ==> is_re_ws(page@[t]),
                    decreases n - j2,
                {
                    j2 += 1;
                }
                proof {
                    let f = |b: u8| !is_re_ws(b);
                    assert forall|t: int| 0 <= t < j2 - j - 1 implies !f(
                        #[trigger] page@.skip(j + 1)[t],
                    ) by {
                        assert(page@.skip(j + 1)[t] == page@[j + 1 + t]);
                    }
                    assert(j2 - j - 1 < page@.skip(j + 1).len() ==> f(page@.skip(j + 1)[j2 - j
                        - 1]));
                    crate::html::lemma_first_nonmatch(page@.skip(j + 1), f, j2 - j - 1);
                }
                if j2 < n && (page[j2] == APOSTROPHE || page[j2] == DQUOTE) {
                    if imatch_at(page, &scr, j2 + 1) {
                        if n - j2 > 8 && page[j2 + 8] == page[j2] {
                            here = true;
                        }
                    }
                }
            }
        }
        if here {
            assert(class_at(page@, i as int));
            return Some(i);
        }
        assert(!class_at(page@, i as int));
        i += 1;
    }
    proof {
        reveal(class_at);
        assert forall|t: int| !class_at(page@, t) by {
            if t < 0 || t >= n {
                assert(!class_at(page@, t));
            }
        }
    }
    None
}

fn is_re_ws_b(b: u8) -> (r: bool)
    ensures
        r == is_re_ws(b),
{
    b == SPACE || (9 <= b && b <= 13)
}

pub open spec fn kw_pre_open() -> Seq<u8> {
    seq![LT, LP, LR, LE]
}

pub open spec fn kw_pre_close() -> Seq<u8> {
    seq![LT, SLASH, LP, LR, LE, GT]
}

pub open spec fn kw_td_close() -> Seq<u8> {
    seq![LT, SLASH, LT_LETTER, LD, GT]
}

pub open spec fn kw_div_close() -> Seq<u8> {
    seq![LT, SLASH, LD, LI, LV, GT]
}

/// First case-insensitive occurrence of the (lower-cased) pattern in `s`.
pub open spec fn ci_first(s: Seq<u8>, pat: Seq<u8>) -> Option<int> {
    if exists|i: int| match_at(spec_lower(s), pat, i) {
        Some(
            choose|i: int|
                match_at(spec_lower(s), pat, i) && (forall|j: int|
                    0 <= j < i ==> !match_at(spec_lower(s), pat, j)),
        )
    } else {
        None
    }
}

/// Index of the first occurrence of `b`, or the length when none.
pub open spec fn first_byte_idx(s: Seq<u8>, b: u8) -> nat
    decreases s.len(),
{
    if s.len() == 0 {
        0
    } else if s[0] == b {
        0
    } else {
        1 + first_byte_idx(s.drop_first(), b)
    }
}

/// First occurrence of byte `b` in `s` at or after `from`.
pub open spec fn byte_first_from(s: Seq<u8>, from: int, b: u8) -> Option<int> {
    let k = first_byte_idx(s.skip(from), b);
    if from + k >= s.len() {
        None
    } else {
        Some(from + k)
    }
}

/// First position where the page declares the `scrtext` class.
pub open spec fn first_scrtext(s: Seq<u8>) -> Option<int> {
    if exists|i: int| class_at(s, i) {
        Some(
            choose|i: int|
                class_at(s, i) && (forall|j: int| 0 <= j < i ==> !class_at(s, j)),
        )
    } else {
        None
    }
}

/// The fallback region: the content of the first `scrtext` declaration,
/// from after its next `>` up to the nearest following `</td>` or
/// `</div>`.
pub open spec fn spec_scrtext_region(page: Seq<u8>) -> Option<(int, int)> {
    match first_scrtext(page) {
        Some(ci) => match byte_first_from(page, ci, GT) {
            Some(g) => {
                let tail = page.skip(g + 1);
                let td = ci_first(tail, kw_td_close());
                let dv = ci_first(tail, kw_div_close());
                match (td, dv) {
                    (Some(a), Some(b)) => Some(
                        (g + 1, g + 1 + (if a < b {
                            a
                        } else {
                            b
                        })),
                    ),
                    (Some(a), None) => Some((g + 1, g + 1 + a)),
                    (None, Some(b)) => Some((g + 1, g + 1 + b)),
                    (None, None) => None,
                }
            },
            None => None,
        },
        None => None,
    }
}

/// Where the script's body text sits, exactly as the locator chooses it:
/// the interior of the first case-insensitive `<pre` tag, from after its
/// `>` up to the first `</pre>` beyond it, when all three parts exist;
/// otherwise the `scrtext` fallback region; nothing when neither pattern
/// completes.
pub open spec fn spec_locate_script_region(page: Seq<u8>) -> Option<(int, int)> {
    let pre = match ci_first(page, kw_pre_open()) {
        Some(p0) => match byte_first_from(page, p0, GT) {
            Some(g) => match ci_first(page.skip(g + 1), kw_pre_close()) {
                Some(e) => Some((g + 1, g + 1 + e)),
                None => None,
            },
            None => None,
        },
        None => None,
    };
    if pre is Some {
        pre
    } else {
        spec_scrtext_region(page)
    }
}

proof fn lemma_ci_first_some(s: Seq<u8>, pat: Seq<u8>, i: int)
    requires
        match_at(spec_lower(s), pat, i),
        forall|j: int| 0 <= j < i ==> !match_at(spec_lower(s), pat, j),
    ensures
        ci_first(s, pat) == Some(i),
{
    assert(exists|k: int|
        match_at(spec_lower(s), pat, k) && (forall|j: int|
            0 <= j < k ==> !match_at(spec_lower(s), pat, j))) by {
        assert(match_at(spec_lower(s), pat, i) && (forall|j: int|
            0 <= j < i ==> !match_at(spec_lower(s), pat, j)));
    };
    let iw = choose|k: int|
        match_at(spec_lower(s), pat, k) && (forall|j: int|
            0 <= j < k ==> !match_at(spec_lower(s), pat, j));
    if iw < i {
        assert(!match_at(spec_lower(s), pat, iw));
    }
    if i < iw {
        assert(!match_at(spec_lower(s), pat, i));
    }
    assert(iw == i);
}

proof fn lemma_ci_first_none_holds(s: Seq<u8>, pat: Seq<u8>)
    requires
        forall|j: int| !match_at(spec_lower(s), pat, j),
    ensures
        ci_first(s, pat) is None,
{
}

proof fn lemma_class_at_nonneg(s: Seq<u8>, i: int)
    requires
        class_at(s, i),
    ensures
        0 <= i,
{
    reveal(class_at);
}

proof fn lemma_first_scrtext_some(s: Seq<u8>, i: int)
    requires
        class_at(s, i),
        forall|j: int| 0 <= j < i ==> !class_at(s, j),
    ensures
        first_scrtext(s) == Some(i),
{
    lemma_class_at_nonneg(s, i);
    assert(exists|k: int|
        class_at(s, k) && (forall|j: int| 0 <= j < k ==> !class_at(s, j))) by {
        assert(class_at(s, i) && (forall|j: int| 0 <= j < i ==> !class_at(s, j)));
    };
    let iw = choose|k: int| class_at(s, k) && (forall|j: int| 0 <= j < k ==> !class_at(s, j));
    lemma_class_at_nonneg(s, iw);
    if iw < i {
        assert(!class_at(s, iw));
    }
    if i < iw {
        assert(!class_at(s, i));
    }
    assert(iw == i);
}

proof fn lemma_first_byte_idx(s: Seq<u8>, b: u8, j: int)
    requires
        0 <= j <= s.len(),
        forall|t: int| 0 <= t < j ==> s[t] != b,
        j < s.len() ==> s[j] == b,
    ensures
        first_byte_idx(s, b) == j,
    decreases j,
{
    if j == 0 {
    } else {
        assert(s[0] != b);
        assert forall|t: int| 0 <= t < j - 1 implies #[trigger] s.drop_first()[t] != b by {
            assert(s.drop_first()[t] == s[t + 1]);
        }
        assert(j - 1 < s.drop_first().len() ==> s.drop_first()[j - 1] == b);
        lemma_first_byte_idx(s.drop_first(), b, j - 1);
    }
}

/// Tie an exec byte scan's outcome to `byte_first_from`.
proof fn lemma_byte_first(s: Seq<u8>, from: int, b: u8, g: int)
    requires
        0 <= from <= g <= s.len(),
        forall|t: int| from <= t < g ==> s[t] != b,
        g < s.len() ==> s[g] == b,
    ensures
        g < s.len() ==> byte_first_from(s, from, b) == Some(g),
        g == s.len() ==> byte_first_from(s, from, b) is None,
{
    assert forall|t: int| 0 <= t < g - from implies #[trigger] s.skip(from)[t] != b by {
        assert(s.skip(from)[t] == s[from + t]);
    }
    assert(g - from < s.skip(from).len() ==> s.skip(from)[g - from] == b);
    lemma_first_byte_idx(s.skip(from), b, g - from);
}

/// The `scrtext` fallback of the locator, exactly as
/// `spec_scrtext_region` lays it out.
#[verifier::rlimit(100)]
fn locate_scrtext_region(page: &Vec<u8>) -> (r: Option<(usize, usize)>)
    ensures
        r matches Some(p) ==> p.0 <= p.1 <= page@.len() && spec_scrtext_region(page@) == Some(
            (p.0 as int, p.1 as int),
        ),
        r is None ==> spec_scrtext_region(page@) is None,
{
    let n = page.len();
    let mut td_close: Vec<u8> = Vec::new();
    td_close.push(LT);
    td_close.push(SLASH);
    td_close.push(LT_LETTER);
    td_close.push(LD);
    td_close.push(GT);
    assert(td_close@ =~= kw_td_close());
    let mut div_close: Vec<u8> = Vec::new();
    div_close.push(LT);
    div_close.push(SLASH);
    div_close.push(LD);
    div_close.push(LI);
    div_close.push(LV);
    div_close.push(GT);
    assert(div_close@ =~= kw_div_close());
    proof {
        assert(spec_lower(kw_td_close()) =~= kw_td_close());
        assert(spec_lower(kw_div_close()) =~= kw_div_close());
    }
    let ci = match find_class_scrtext(page) {
        Some(ci) => {
            proof {
                lemma_first_scrtext_some(page@, ci as int);
            }
            ci
        },
        None => {
            proof {
                assert(first_scrtext(page@) is None);
            }
            return None;
        },
    };
    let gt = match find_byte_from(page, ci, GT) {
        Some(g) => {
            proof {
                lemma_byte_first(page@, ci as int, GT, g as int);
            }
            g
        },
        None => {
            proof {
                lemma_byte_first(page@, ci as int, GT, n as int);
            }
            return None;
        },
    };
    let content = gt + 1;
    let rest = crate::text::copy_range(page, content, n);
    proof {
        assert(rest@ =~= page@.skip(content as int));
    }
    let td = strcasestr_local(&rest, &td_close);
    let dv = strcasestr_local(&rest, &div_close);
    proof {
        match td {
            Some(a) => lemma_ci_first_some(rest@, kw_td_close(), a as int),
            None => lemma_ci_first_none_holds(rest@, kw_td_close()),
        }
        match dv {
            Some(b) => lemma_ci_first_some(rest@, kw_div_close(), b as int),
            None => lemma_ci_first_none_holds(rest@, kw_div_close()),
        }
    }
    let best = match (td, dv) {
        (Some(a), Some(b)) => Some(if a < b { a } else { b }),
        (Some(a), None) => Some(a),
        (None, Some(b)) => Some(b),
        (None, None) => None,
    };
    match best {
        Some(e) => {
            proof {
                assert(e + 5 <= rest@.len());
            }
            Some((content, content + e))
        },
        None => None,
    }
}

/// Where the script's body text sits in the page: the inside of the first
/// `<pre>` block when one closes properly, else the content of the
/// `scrtext` element up to its nearest closing `</td>` or `</div>`,
/// exactly as `spec_locate_script_region` lays it out.
#[verifier::rlimit(100)]
pub fn locate_script_region(page: &Vec<u8>) -> (r: Option<(usize, usize)>)
    ensures
        r matches Some(p) ==> p.0 <= p.1 <= page@.len() && spec_locate_script_region(page@)
            == Some((p.0 as int, p.1 as int)),
        r is None ==> spec_locate_script_region(page@) is None,
{
    let n = page.len();
    let mut pre_open: Vec<u8> = Vec::new();
    pre_open.push(LT);
    pre_open.push(LP);
    pre_open.push(LR);
    pre_open.push(LE);
    assert(pre_open@ =~= kw_pre_open());
    let mut pre_close: Vec<u8> = Vec::new();
    pre_close.push(LT);
    pre_close.push(SLASH);
    pre_close.push(LP);
    pre_close.push(LR);
    pre_close.push(LE);
    pre_close.push(GT);
    assert(pre_close@ =~= kw_pre_close());
    proof {
        assert(spec_lower(kw_pre_open()) =~= kw_pre_open());
        assert(spec_lower(kw_pre_close()) =~= kw_pre_close());
    }
    match strcasestr_local(page, &pre_open) {
        Some(p0) => {
            proof {
                lemma_ci_first_some(page@, kw_pre_open(), p0 as int);
                assert(p0 + kw_pre_open().len() <= page@.len());
            }
            match find_byte_from(page, p0, GT) {
                Some(gt) => {
                    proof {
                        lemma_byte_first(page@, p0 as int, GT, gt as int);
                    }
                    let content = gt + 1;
                    let rest = crate::text::copy_range(page, content, n);
                    proof {
                        assert(rest@ =~= page@.skip(content as int));
                    }
                    match strcasestr_local(&rest, &pre_close) {
                        Some(e) => {
                            proof {
                                lemma_ci_first_some(rest@, kw_pre_close(), e as int);
                                assert(e + kw_pre_close().len() <= rest@.len());
                            }
                            return Some((content, content + e));
                        },
                        None => {
                            proof {
                                lemma_ci_first_none_holds(rest@, kw_pre_close());
                            }
                        },
                    }
                },
                None => {
                    proof {
                        lemma_byte_first(page@, p0 as int, GT, n as int);
                    }
                },
            }
        },
        None => {
            proof {
                assert(ci_first(page@, kw_pre_open()) is None);
            }
        },
    }
    locate_scrtext_region(page)
}

} // verus!
