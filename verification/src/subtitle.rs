use vstd::prelude::*;
use vstd::string::StrSliceExecFns;
use vstd::string::StringSliceAdditionalSpecFns;

use crate::ascii::{APOSTROPHE, DQUOTE, EQ, LE, LF, LF_LETTER, LH, LR, SPACE};
use crate::srt::first_idx;
use crate::text::{ascii_lower_byte, contains_seq, contains_sub, copy_range, push_bytes, push_vec,
    spec_lower, starts_with, str_ends_with, to_lower_copy};

verus! {

// Choosing which links to follow on the subtitle site. Fetching pages is
// the driver's business; every decision about what was fetched is made
// here.

/// Fetched non-matching uploader profiles are abandoned after this many.
pub const MAX_PROFILE_TRIES: usize = 12;

/// The listing page for a movie slug.
pub fn subf2m_list_url(slug: &Vec<u8>) -> (r: Vec<u8>)
    ensures
        r@ == "https://subf2m.co/subtitles/".spec_bytes() + slug@ + "/english".spec_bytes(),
{
    let mut out: Vec<u8> = Vec::new();
    push_bytes(&mut out, "https://subf2m.co/subtitles/");
    push_vec(&mut out, slug);
    push_bytes(&mut out, "/english");
    assert(out@ =~= "https://subf2m.co/subtitles/".spec_bytes() + slug@
        + "/english".spec_bytes());
    out
}

/// A detail-page link must start with this to belong to the movie.
pub fn subf2m_subpage_prefix(slug: &Vec<u8>) -> (r: Vec<u8>)
    ensures
        r@ == "/subtitles/".spec_bytes() + slug@ + "/english/".spec_bytes(),
{
    let mut out: Vec<u8> = Vec::new();
    push_bytes(&mut out, "/subtitles/");
    push_vec(&mut out, slug);
    push_bytes(&mut out, "/english/");
    assert(out@ =~= "/subtitles/".spec_bytes() + slug@ + "/english/".spec_bytes());
    out
}

/// A site-relative link made absolute.
pub fn subf2m_full_url(href: &Vec<u8>) -> (r: Vec<u8>)
    ensures
        r@ == "https://subf2m.co".spec_bytes() + href@,
{
    let mut out: Vec<u8> = Vec::new();
    push_bytes(&mut out, "https://subf2m.co");
    push_vec(&mut out, href);
    assert(out@ =~= "https://subf2m.co".spec_bytes() + href@);
    out
}

/// A link leads to the movie's subtitle detail page when it carries the
/// movie's prefix and is not the english-german mixed listing.
pub open spec fn good_subpage(href: Seq<u8>, prefix: Seq<u8>) -> bool {
    prefix.is_prefix_of(href) && !contains_seq(href, "english-german".spec_bytes())
}

/// The first link on the listing that leads to the movie's detail page.
pub fn select_subpage(hrefs: &Vec<Vec<u8>>, prefix: &Vec<u8>) -> (r: Option<usize>)
    ensures
        match r {
            Some(i) => i < hrefs@.len() && good_subpage(hrefs@[i as int]@, prefix@) && (forall|
                j: int,
            | 0 <= j < i ==> !good_subpage(hrefs@[j]@, prefix@)),
            None => forall|j: int| 0 <= j < hrefs@.len() ==> !good_subpage(hrefs@[j]@, prefix@),
        },
{
    let n = hrefs.len();
    let marker = ("english-german").as_bytes_vec();
    let mut i: usize = 0;
    while i < n
        invariant
            i <= n == hrefs@.len(),
            marker@ == "english-german".spec_bytes(),
            forall|j: int| 0 <= j < i ==> !good_subpage(hrefs@[j]@, prefix@),
        decreases n - i,
    {
        let h = &hrefs[i];
        if starts_with(h, prefix) && !contains_sub(h, &marker) {
            return Some(i);
        }
        i += 1;
    }
    None
}

/// A link starting `/u/` leads to an uploader profile.
pub open spec fn is_profile_link(href: Seq<u8>) -> bool {
    "/u/".spec_bytes().is_prefix_of(href)
}

/// The uploader-profile links on a listing page, in page order.
pub fn profile_links(hrefs: &Vec<Vec<u8>>) -> (r: Vec<Vec<u8>>)
    ensures
        r@.map_values(|v: Vec<u8>| v@) == hrefs@.map_values(|v: Vec<u8>| v@).filter_map(
            |h: Seq<u8>|
                if is_profile_link(h) {
                    Some(h)
                } else {
                    None
                },
        ),
{
    broadcast use Seq::lemma_filter_map_take_succ;

    let ghost f = |h: Seq<u8>|
        if is_profile_link(h) {
            Some(h)
        } else {
            None
        };
    let ghost hs = hrefs@.map_values(|v: Vec<u8>| v@);
    let pre = ("/u/").as_bytes_vec();
    let n = hrefs.len();
    let mut out: Vec<Vec<u8>> = Vec::new();
    let mut i: usize = 0;
    while i < n
        invariant
            f == (|h: Seq<u8>|
                if is_profile_link(h) {
                    Some(h)
                } else {
                    None
                }),
            hs == hrefs@.map_values(|v: Vec<u8>| v@),
            pre@ == "/u/".spec_bytes(),
            i <= n == hrefs@.len(),
            out@.map_values(|v: Vec<u8>| v@) =~~= hs.take(i as int).filter_map(f),
        decreases n - i,
    {
        let h = &hrefs[i];
        proof {
            hs.lemma_filter_map_take_succ(f, i as int);
            assert(hs[i as int] == hrefs@[i as int]@);
        }
        if starts_with(h, &pre) {
            out.push(h.clone());
        }
        i += 1;
        proof {
            assert(out@.map_values(|v: Vec<u8>| v@) =~~= hs.take(i as int).filter_map(f));
        }
    }
    proof {
        assert(hs.take(n as int) =~= hs);
    }
    out
}

/// The first link on a detail page that ends in `download`.
pub fn select_download(hrefs: &Vec<Vec<u8>>) -> (r: Option<usize>)
    ensures
        match r {
            Some(i) => i < hrefs@.len() && "download".spec_bytes().is_suffix_of(hrefs@[i as int]@)
                && (forall|j: int|
                0 <= j < i ==> !"download".spec_bytes().is_suffix_of(hrefs@[j]@)),
            None => forall|j: int|
                0 <= j < hrefs@.len() ==> !"download".spec_bytes().is_suffix_of(hrefs@[j]@),
        },
{
    let n = hrefs.len();
    let suffix = ("download").as_bytes_vec();
    let mut i: usize = 0;
    while i < n
        invariant
            i <= n == hrefs@.len(),
            suffix@ == "download".spec_bytes(),
            forall|j: int| 0 <= j < i ==> !"download".spec_bytes().is_suffix_of(hrefs@[j]@),
        decreases n - i,
    {
        if str_ends_with(&hrefs[i], &suffix) {
            return Some(i);
        }
        i += 1;
    }
    None
}

/// An archive entry holds subtitles when its lower-cased name ends in
/// `.srt`.
pub fn is_srt_entry_name(name: &Vec<u8>) -> (r: bool)
    ensures
        r == ".srt".spec_bytes().is_suffix_of(spec_lower(name@)),
{
    let lower = to_lower_copy(name);
    let suffix = (".srt").as_bytes_vec();
    str_ends_with(&lower, &suffix)
}

/// The temporary archive the subtitle download lands in.
pub fn subtitle_zip_path(title: &Vec<u8>) -> (r: Vec<u8>)
    ensures
        r@ == "scripts/srt_files/".spec_bytes() + title@ + "_tmp.zip".spec_bytes(),
{
    let mut out: Vec<u8> = Vec::new();
    push_bytes(&mut out, "scripts/srt_files/");
    push_vec(&mut out, title);
    push_bytes(&mut out, "_tmp.zip");
    assert(out@ =~= "scripts/srt_files/".spec_bytes() + title@ + "_tmp.zip".spec_bytes());
    out
}

/// The whitespace bytes the link scanner skips around `=`.
pub open spec fn is_re_ws(b: u8) -> bool {
    b == SPACE || (9 <= b && b <= 13)
}

/// A link attribute at the very front of `s`: `href`, any amount of
/// whitespace around `=`, a quote, then the value up to the matching quote
/// on the same line. Yields the value and how many bytes the whole
/// attribute takes.
pub open spec fn href_at(s: Seq<u8>) -> Option<(Seq<u8>, int)> {
    if s.len() < 4 {
        None
    } else if !(ascii_lower_byte(s[0]) == LH && ascii_lower_byte(s[1]) == LR && ascii_lower_byte(
        s[2],
    ) == LE && ascii_lower_byte(s[3]) == LF_LETTER) {
        None
    } else {
        let j1 = 4 + first_idx(s.skip(4), |b: u8| !is_re_ws(b));
        if j1 >= s.len() || s[j1 as int] != EQ {
            None
        } else {
            let j2 = j1 + 1 + first_idx(s.skip(j1 + 1 as int), |b: u8| !is_re_ws(b));
            if j2 >= s.len() || !(s[j2 as int] == APOSTROPHE || s[j2 as int] == DQUOTE) {
                None
            } else {
                let quote = s[j2 as int];
                let q = j2 + 1 + first_idx(s.skip(j2 + 1 as int), |b: u8| b == quote || b == LF);
                if q >= s.len() || s[q as int] != quote {
                    None
                } else {
                    Some((s.subrange(j2 + 1 as int, q as int), (q + 1) as int))
                }
            }
        }
    }
}

/// Every link value in the page, in order: the scanner takes the leftmost
/// attribute match, then continues after it.
pub open spec fn spec_hrefs(s: Seq<u8>) -> Seq<Seq<u8>>
    decreases s.len(),
{
    if s.len() == 0 {
        Seq::empty()
    } else {
        match href_at(s) {
            Some(t) => seq![t.0] + spec_hrefs(s.skip(t.1)),
            None => spec_hrefs(s.drop_first()),
        }
    }
}

fn is_re_ws_byte(b: u8) -> (r: bool)
    ensures
        r == is_re_ws(b),
{
    b == SPACE || (9 <= b && b <= 13)
}

/// Collect every link value in a page, exactly as `spec_hrefs` lays them
/// out.
#[verifier::rlimit(100)]
pub fn extract_hrefs(html: &Vec<u8>) -> (r: Vec<Vec<u8>>)
    ensures
        r@.map_values(|v: Vec<u8>| v@) == spec_hrefs(html@),
{
    let n = html.len();
    let mut out: Vec<Vec<u8>> = Vec::new();
    let mut i: usize = 0;
    proof {
        assert(html@.skip(0) =~= html@);
        assert(Seq::<Seq<u8>>::empty() + spec_hrefs(html@) =~~= spec_hrefs(html@));
    }
    while i < n
        invariant
            i <= n == html@.len(),
            spec_hrefs(html@) =~~= out@.map_values(|v: Vec<u8>| v@) + spec_hrefs(
                html@.skip(i as int),
            ),
        decreases n - i,
    {
        let ghost rem = html@.skip(i as int);
        let ghost outg = out@.map_values(|v: Vec<u8>| v@);
        proof {
            assert(forall|t: int| 0 <= t < rem.len() ==> rem[t] == html@[i + t]);
        }
        let mut advanced = false;
        if n - i >= 4 && lower_b(html[i]) == LH && lower_b(html[i + 1]) == LR && lower_b(
            html[i + 2],
        ) == LE && lower_b(html[i + 3]) == LF_LETTER {
            let mut j = i + 4;
            while j < n && is_re_ws_byte(html[j])
                invariant
                    i + 4 <= j <= n == html@.len(),
                    forall|t: int| i + 4 <= t < j ==> is_re_ws(html@[t]),
                decreases n - j,
            {
                j += 1;
            }
            proof {
                let f = |b: u8| !is_re_ws(b);
                assert forall|t: int| 0 <= t < j - i - 4 implies !f(
                    #[trigger] html@.skip(i + 4)[t],
                ) by {
                    assert(html@.skip(i + 4)[t] == html@[i + 4 + t]);
                }
                assert(j - i - 4 < html@.skip(i + 4).len() ==> f(html@.skip(i + 4)[j - i - 4]));
                crate::html::lemma_first_nonmatch(html@.skip(i + 4), f, j - i - 4);
                assert(rem.skip(4) =~= html@.skip(i + 4));
            }
            if j < n && html[j] == EQ {
                let mut j2 = j + 1;
                while j2 < n && is_re_ws_byte(html[j2])
                    invariant
                        j + 1 <= j2 <= n == html@.len(),
                        forall|t: int| j + 1 <= t < j2 ==> is_re_ws(html@[t]),
                    decreases n - j2,
                {
                    j2 += 1;
                }
                proof {
                    let f = |b: u8| !is_re_ws(b);
                    assert forall|t: int| 0 <= t < j2 - j - 1 implies !f(
                        #[trigger] html@.skip(j + 1)[t],
                    ) by {
                        assert(html@.skip(j + 1)[t] == html@[j + 1 + t]);
                    }
                    assert(j2 - j - 1 < html@.skip(j + 1).len() ==> f(html@.skip(j + 1)[j2 - j
                        - 1]));
                    crate::html::lemma_first_nonmatch(html@.skip(j + 1), f, j2 - j - 1);
                    assert(rem.skip(j - i + 1) =~= html@.skip(j + 1));
                }
                if j2 < n && (html[j2] == APOSTROPHE || html[j2] == DQUOTE) {
                    let quote = html[j2];
                    let mut q = j2 + 1;
                    while q < n && html[q] != quote && html[q] != LF
                        invariant
                            j2 + 1 <= q <= n == html@.len(),
                            forall|t: int|
                                j2 + 1 <= t < q ==> html@[t] != quote && html@[t] != LF,
                        decreases n - q,
                    {
                        q += 1;
                    }
                    proof {
                        let f = |b: u8| b == quote || b == LF;
                        assert forall|t: int| 0 <= t < q - j2 - 1 implies !f(
                            #[trigger] html@.skip(j2 + 1)[t],
                        ) by {
                            assert(html@.skip(j2 + 1)[t] == html@[j2 + 1 + t]);
                        }
                        assert(q - j2 - 1 < html@.skip(j2 + 1).len() ==> f(html@.skip(j2 + 1)[q
                            - j2 - 1]));
                        crate::html::lemma_first_nonmatch(html@.skip(j2 + 1), f, q - j2 - 1);
                        assert(rem.skip(j2 - i + 1) =~= html@.skip(j2 + 1));
                    }
                    if q < n && html[q] == quote {
                        let content = copy_range(html, j2 + 1, q);
                        proof {
                            assert(href_at(rem) == Some(
                                (rem.subrange(j2 - i + 1, q - i), q - i + 1),
                            ));
                            assert(rem.subrange(j2 - i + 1, q - i) =~= html@.subrange(
                                j2 + 1,
                                q as int,
                            ));
                            assert(rem.skip(q - i + 1) =~= html@.skip(q + 1));
                        }
                        out.push(content);
                        proof {
                            assert(out@.map_values(|v: Vec<u8>| v@) =~~= outg.push(
                                html@.subrange(j2 + 1, q as int),
                            ));
                        }
                        i = q + 1;
                        advanced = true;
                    } else {
                        proof {
                            assert(href_at(rem) is None);
                        }
                    }
                } else {
                    proof {
                        assert(href_at(rem) is None);
                    }
                }
            } else {
                proof {
                    assert(href_at(rem) is None);
                }
            }
        } else {
            proof {
                assert(rem.len() < 4 || !(ascii_lower_byte(rem[0]) == LH && ascii_lower_byte(
                    rem[1],
                ) == LR && ascii_lower_byte(rem[2]) == LE && ascii_lower_byte(rem[3])
                    == LF_LETTER));
                assert(href_at(rem) is None);
            }
        }
        if !advanced {
            proof {
                assert(href_at(rem) is None);
                assert(rem.drop_first() =~= html@.skip(i + 1));
            }
            i += 1;
        }
        proof {
            assert(spec_hrefs(html@) =~~= out@.map_values(|v: Vec<u8>| v@) + spec_hrefs(
                html@.skip(i as int),
            ));
        }
    }
    proof {
        assert(html@.skip(n as int) =~= Seq::<u8>::empty());
    }
    out
}

fn lower_b(b: u8) -> (r: u8)
    ensures
        r == ascii_lower_byte(b),
{
    if 65 <= b && b <= 90 {
        b + 32
    } else {
        b
    }
}

} // verus!
