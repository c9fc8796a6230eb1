use vstd::prelude::*;

use crate::ascii::{AMP, GT, LB, LF, LG, LM, LN, LR, LT, SEMI, SPACE};
use crate::ascii::{LA, LL, LP, LS, LT_LETTER};
use crate::srt::first_idx;
use crate::text::{ascii_lower_byte, match_at, match_at_pos};

verus! {

// Best-effort extraction of readable text from scraped HTML: tags go away
// (a <br ...> becomes a line break), the four common entities are decoded,
// and every other byte passes through.

/// The ASCII whitespace bytes, as `u8::is_ascii_whitespace` counts them.
pub open spec fn is_html_ws(b: u8) -> bool {
    b == SPACE || b == 9 || b == 10 || b == 12 || b == 13
}

pub open spec fn ent_nbsp() -> Seq<u8> {
    seq![AMP, LN, LB, LS, LP, SEMI]
}

pub open spec fn ent_amp() -> Seq<u8> {
    seq![AMP, LA, LM, LP, SEMI]
}

pub open spec fn ent_lt() -> Seq<u8> {
    seq![AMP, LL, LT_LETTER, SEMI]
}

pub open spec fn ent_gt() -> Seq<u8> {
    seq![AMP, LG, LT_LETTER, SEMI]
}

/// The plain text of an HTML fragment, from the front: on `<`, look past
/// any whitespace for `br` (emit a line break if found), then drop
/// everything through the next `>`; on a known entity, emit its character;
/// otherwise keep the byte.
pub open spec fn spec_html_text(s: Seq<u8>) -> Seq<u8>
    decreases s.len(),
{
    if s.len() == 0 {
        Seq::empty()
    } else if s[0] == LT {
        let j = 1 + first_idx(s.skip(1), |b: u8| !is_html_ws(b));
        let br = j + 1 < s.len() && ascii_lower_byte(s[j as int]) == LB && ascii_lower_byte(
            s[j + 1 as int],
        ) == LR;
        let head: Seq<u8> = if br {
            seq![LF]
        } else {
            Seq::empty()
        };
        let g = first_idx(s, |b: u8| b == GT);
        if g >= s.len() {
            head
        } else {
            head + spec_html_text(s.skip(g + 1 as int))
        }
    } else if match_at(s, ent_nbsp(), 0) {
        seq![SPACE] + spec_html_text(s.skip(6))
    } else if match_at(s, ent_amp(), 0) {
        seq![AMP] + spec_html_text(s.skip(5))
    } else if match_at(s, ent_lt(), 0) {
        seq![LT] + spec_html_text(s.skip(4))
    } else if match_at(s, ent_gt(), 0) {
        seq![GT] + spec_html_text(s.skip(4))
    } else {
        seq![s[0]] + spec_html_text(s.drop_first())
    }
}

pub proof fn lemma_first_nonmatch(s: Seq<u8>, f: spec_fn(u8) -> bool, j: int)
    requires
        0 <= j <= s.len(),
        forall|t: int| 0 <= t < j ==> !f(s[t]),
        j < s.len() ==> f(s[j]),
    ensures
        first_idx(s, f) == j,
    decreases j,
{
    if j == 0 {
    } else {
        assert(!f(s[0]));
        assert forall|t: int| 0 <= t < j - 1 implies !f(#[trigger] s.drop_first()[t]) by {
            assert(s.drop_first()[t] == s[t + 1]);
        }
        assert(j - 1 < s.drop_first().len() ==> f(s.drop_first()[j - 1]));
        lemma_first_nonmatch(s.drop_first(), f, j - 1);
    }
}

/// `pat` occurs at `i` in `s` exactly when it occurs at the front of the
/// rest of `s` from `i` on.
proof fn lemma_match_shift(s: Seq<u8>, pat: Seq<u8>, i: int)
    requires
        0 <= i <= s.len(),
    ensures
        match_at(s, pat, i) == match_at(s.skip(i), pat, 0),
{
    if match_at(s, pat, i) {
        assert forall|k: int| 0 <= k < pat.len() implies #[trigger] s.skip(i)[k] == pat[k] by {
            assert(s.skip(i)[k] == s[i + k]);
        }
    }
    if match_at(s.skip(i), pat, 0) {
        assert forall|k: int| 0 <= k < pat.len() implies #[trigger] s[i + k] == pat[k] by {
            assert(s.skip(i)[k] == s[i + k]);
        }
    }
}

/// Strip an HTML fragment to plain text, exactly as `spec_html_text` lays
/// it out.
#[verifier::rlimit(100)]
pub fn html_to_text_basic(html: &Vec<u8>) -> (r: Vec<u8>)
    ensures
        r@ == spec_html_text(html@),
{
    let n = html.len();
    let mut nbsp: Vec<u8> = Vec::new();
    nbsp.push(AMP);
    nbsp.push(LN);
    nbsp.push(LB);
    nbsp.push(LS);
    nbsp.push(LP);
    nbsp.push(SEMI);
    assert(nbsp@ =~= ent_nbsp());
    let mut eamp: Vec<u8> = Vec::new();
    eamp.push(AMP);
    eamp.push(LA);
    eamp.push(LM);
    eamp.push(LP);
    eamp.push(SEMI);
    assert(eamp@ =~= ent_amp());
    let mut elt: Vec<u8> = Vec::new();
    elt.push(AMP);
    elt.push(LL);
    elt.push(LT_LETTER);
    elt.push(SEMI);
    assert(elt@ =~= ent_lt());
    let mut egt: Vec<u8> = Vec::new();
    egt.push(AMP);
    egt.push(LG);
    egt.push(LT_LETTER);
    egt.push(SEMI);
    assert(egt@ =~= ent_gt());
    let mut out: Vec<u8> = Vec::new();
    let mut i: usize = 0;
    proof {
        assert(html@.skip(0) =~= html@);
        assert(Seq::<u8>::empty() + spec_html_text(html@) =~= spec_html_text(html@));
    }
    while i < n
        invariant
            i <= n == html@.len(),
            nbsp@ == ent_nbsp() && eamp@ == ent_amp() && elt@ == ent_lt() && egt@ == ent_gt(),
            spec_html_text(html@) =~= out@ + spec_html_text(html@.skip(i as int)),
        decreases n - i,
    {
        let ghost rem = html@.skip(i as int);
        let b = html[i];
        proof {
            assert(rem[0] == html@[i as int]);
            lemma_match_shift(html@, ent_nbsp(), i as int);
            lemma_match_shift(html@, ent_amp(), i as int);
            lemma_match_shift(html@, ent_lt(), i as int);
            lemma_match_shift(html@, ent_gt(), i as int);
        }
        if b == LT {
            let mut j = i + 1;
            while j < n && is_ws_byte(html[j])
                invariant
                    i + 1 <= j <= n == html@.len(),
                    forall|t: int| i + 1 <= t < j ==> is_html_ws(html@[t]),
                decreases n - j,
            {
                j += 1;
            }
            proof {
                let f = |b: u8| !is_html_ws(b);
                assert forall|t: int| 0 <= t < j - i - 1 implies !f(
                    #[trigger] html@.skip(i + 1)[t],
                ) by {
                    assert(html@.skip(i + 1)[t] == html@[i + 1 + t]);
                }
                assert(j - i - 1 < html@.skip(i + 1).len() ==> f(html@.skip(i + 1)[j - i - 1]));
                lemma_first_nonmatch(html@.skip(i + 1), f, j - i - 1);
                assert(rem.skip(1) =~= html@.skip(i + 1));
                assert(1 + first_idx(rem.skip(1), f) == j - i);
            }
            let br = n - j > 1 && lower_byte(html[j]) == LB && lower_byte(html[j + 1]) == LR;
            proof {
                assert(n - j > 1 ==> rem[j - i] == html@[j as int] && rem[j - i + 1] == html@[j
                    + 1]);
                assert(br == (j - i + 1 < rem.len() && ascii_lower_byte(rem[j - i]) == LB
                    && ascii_lower_byte(rem[j - i + 1]) == LR));
            }
            if br {
                out.push(LF);
            }
            let mut k = i;
            while k < n && html[k] != GT
                invariant
                    i <= k <= n == html@.len(),
                    forall|t: int| i <= t < k ==> html@[t] != GT,
                decreases n - k,
            {
                k += 1;
            }
            proof {
                let f = |b: u8| b == GT;
                assert forall|t: int| 0 <= t < k - i implies !f(#[trigger] rem[t]) by {
                    assert(rem[t] == html@[i + t]);
                }
                assert(k - i < rem.len() ==> f(rem[k - i]));
                lemma_first_nonmatch(rem, f, k - i);
            }
            if k < n {
                proof {
                    assert(rem.skip(k - i + 1) =~= html@.skip(k + 1));
                }
                i = k + 1;
            } else {
                i = n;
                proof {
                    assert(first_idx(rem, |b: u8| b == GT) >= rem.len());
                }
            }
        } else if b == AMP && match_at_pos(html, &nbsp, i) {
            proof {
                assert(rem.skip(6) =~= html@.skip(i + 6));
            }
            out.push(SPACE);
            i += 6;
        } else if b == AMP && match_at_pos(html, &eamp, i) {
            proof {
                assert(rem.skip(5) =~= html@.skip(i + 5));
            }
            out.push(AMP);
            i += 5;
        } else if b == AMP && match_at_pos(html, &elt, i) {
            proof {
                assert(rem.skip(4) =~= html@.skip(i + 4));
            }
            out.push(LT);
            i += 4;
        } else if b == AMP && match_at_pos(html, &egt, i) {
            proof {
                assert(rem.skip(4) =~= html@.skip(i + 4));
            }
            out.push(GT);
            i += 4;
        } else {
            proof {
                if b != AMP {
                    assert(!match_at(rem, ent_nbsp(), 0)) by {
                        if match_at(rem, ent_nbsp(), 0) {
                            assert(rem[0] == ent_nbsp()[0]);
                        }
                    };
                    assert(!match_at(rem, ent_amp(), 0)) by {
                        if match_at(rem, ent_amp(), 0) {
                            assert(rem[0] == ent_amp()[0]);
                        }
                    };
                    assert(!match_at(rem, ent_lt(), 0)) by {
                        if match_at(rem, ent_lt(), 0) {
                            assert(rem[0] == ent_lt()[0]);
                        }
                    };
                    assert(!match_at(rem, ent_gt(), 0)) by {
                        if match_at(rem, ent_gt(), 0) {
                            assert(rem[0] == ent_gt()[0]);
                        }
                    };
                }
                assert(rem.drop_first() =~= html@.skip(i + 1));
            }
            out.push(b);
            i += 1;
        }
        proof {
            assert(spec_html_text(html@) =~= out@ + spec_html_text(html@.skip(i as int)));
        }
    }
    proof {
        assert(html@.skip(n as int) =~= Seq::<u8>::empty());
    }
    out
}

fn is_ws_byte(b: u8) -> (r: bool)
    ensures
        r == is_html_ws(b),
{
    b == SPACE || b == 9 || b == 10 || b == 12 || b == 13
}

fn lower_byte(b: u8) -> (r: u8)
    ensures
        r == ascii_lower_byte(b),
{
    if 65 <= b && b <= 90 {
        b + 32
    } else {
        b
    }
}

} // verus!
