use vstd::prelude::*;

verus! {

/// How one source segment is played back so that it lasts exactly as long as
/// its narration: the possibly shrunk source window, in whole seconds of the
/// movie, and the playback speed as an exact ratio `speed_num / speed_den`.
#[derive(Clone, Copy, Debug, PartialEq, Eq, Structural)]
pub struct RetimePlan {
    pub use_start: u32,
    pub use_end: u32,
    pub speed_num: u64,
    pub speed_den: u64,
}

// The speed-up cap is 7/4 (= 1.75); the hard speed bounds are 1/20 (= 0.05)
// and 20. All internal arithmetic is exact, in units of 1/8000 second
// ("q8"): fine enough to hold 7/4 of a millisecond count and midpoints of
// whole-second windows without remainders.

/// Hard defensive bounds on the final speed: clamp into [1/20, 20].
pub open spec fn spec_clamp_speed(num: int, den: int) -> (int, int) {
    if 20 * num < den {
        (1int, 20int)
    } else if num > 20 * den {
        (20int, 1int)
    } else {
        (num, den)
    }
}

/// The shrunk source window chosen when the naive speed exceeds the cap:
/// 7/4 of the narration duration, centred on the original window's midpoint,
/// shifted and clamped back inside it, then rounded to whole seconds.
pub open spec fn spec_capped_window(start: int, end: int, d: int) -> (int, int) {
    let s8 = 8000 * start;
    let e8 = 8000 * end;
    let w0 = if 14 * d < 8000 * (end - start) {
        14 * d
    } else {
        8000 * (end - start)
    };
    let w = if w0 < 8000 {
        8000int
    } else {
        w0
    };
    let c = 4000 * (start + end);
    let half = w / 2;
    let ns0 = c - half;
    let ne0 = c + half;
    let ns1 = if ns0 < s8 { s8 } else { ns0 };
    let ne1 = if ns0 < s8 { s8 + w } else { ne0 };
    let ns2 = if ne1 > e8 { e8 - w } else { ns1 };
    let ne2 = if ne1 > e8 { e8 } else { ne1 };
    let ns3 = if ns2 < s8 { s8 } else { ns2 };
    let ne3 = if ne2 > e8 { e8 } else { ne2 };
    let us = (ns3 + 4000) / 8000;
    let ue = (ne3 + 4000) / 8000;
    if ue <= us {
        (us, us + 1)
    } else {
        (us, ue)
    }
}

/// The whole retiming computation, as (use_start, use_end, speed_num,
/// speed_den), for a segment [start, end] in whole seconds and a narration
/// duration of d milliseconds.
pub open spec fn spec_retime(start: int, end: int, d: int) -> (int, int, int, int) {
    let seg_ms = 1000 * (end - start);
    if 4 * seg_ms <= 7 * d {
        let (num, den) = spec_clamp_speed(seg_ms, d);
        (start, end, num, den)
    } else {
        let (us, ue) = spec_capped_window(start, end, d);
        let new_ms = 1000 * (ue - us);
        let n0 = if 4 * new_ms > 7 * d { 7int } else { new_ms };
        let d0 = if 4 * new_ms > 7 * d { 4int } else { d };
        let (num, den) = spec_clamp_speed(n0, d0);
        (us, ue, num, den)
    }
}

/// Compute the playback speed and the source window for one segment, given
/// its original bounds in whole seconds and the narration duration in
/// milliseconds. Fails exactly when there is nothing to retime: an empty
/// segment or a narration of a tenth of a second or less.
pub fn plan_retime(start: u32, end: u32, narration_ms: u32) -> (r: Option<RetimePlan>)
    ensures
        r is Some <==> (start < end && narration_ms > 100),
        (r matches Some(p) ==> {
            let (us, ue, num, den) = spec_retime(start as int, end as int, narration_ms as int);
            &&& p.use_start == us
            &&& p.use_end == ue
            &&& p.speed_num == num
            &&& p.speed_den == den
            &&& start <= p.use_start < p.use_end <= end
            &&& 0 < p.speed_den
            &&& 20 * p.speed_num >= p.speed_den
            &&& p.speed_num <= 20 * p.speed_den
            &&& (4 * (1000 * (end - start)) <= 7 * narration_ms ==> p.use_start == start
                && p.use_end == end)
        }),
{
    if !(start < end) || narration_ms <= 100 {
        return None;
    }
    let d = narration_ms as u64;
    let seg_s = (end - start) as u64;
    let seg_ms = 1000 * seg_s;
    let mut use_start = start;
    let mut use_end = end;
    let mut num: u64;
    let mut den: u64;
    if 4 * seg_ms <= 7 * d {
        num = seg_ms;
        den = d;
    } else {
        let s8 = 8000 * (start as u64);
        let e8 = 8000 * (end as u64);
        let w0 = if 14 * d < 8000 * seg_s {
            14 * d
        } else {
            8000 * seg_s
        };
        let w = if w0 < 8000 {
            8000u64
        } else {
            w0
        };
        assert(w <= 8000 * seg_s);
        assert(w % 2 == 0);
        let c = 4000 * (start as u64 + end as u64);
        let half = w / 2;
        assert(2 * half == w);
        assert(c - s8 == 4000 * seg_s && e8 - c == 4000 * seg_s);
        assert(half <= 4000 * seg_s);
        let mut ns = c - half;
        let mut ne = c + half;
        if ns < s8 {
            ns = s8;
            ne = s8 + w;
        }
        if ne > e8 {
            ne = e8;
            ns = e8 - w;
        }
        if ns < s8 {
            ns = s8;
        }
        if ne > e8 {
            ne = e8;
        }
        assert(s8 <= ns && ne <= e8 && ne - ns == w);
        let us64 = (ns + 4000) / 8000;
        let ue64 = (ne + 4000) / 8000;
        assert(start <= us64 && ue64 <= end && us64 + 1 <= ue64) by {
            lemma_round_q8_bounds(start as int, end as int, ns as int, ne as int, w as int);
        };
        use_start = us64 as u32;
        use_end = ue64 as u32;
        if use_end <= use_start {
            use_end = use_start + 1;
        }
        let new_ms = 1000 * ((use_end - use_start) as u64);
        if 4 * new_ms > 7 * d {
            num = 7;
            den = 4;
        } else {
            num = new_ms;
            den = d;
        }
    }
    if 20 * num < den {
        num = 1;
        den = 20;
    } else if num > 20 * den {
        num = 20;
        den = 1;
    }
    Some(RetimePlan { use_start, use_end, speed_num: num, speed_den: den })
}

/// Rounding the clamped q8 window bounds to whole seconds stays inside
/// [start, end] and keeps the window at least one second wide.
proof fn lemma_round_q8_bounds(start: int, end: int, ns: int, ne: int, w: int)
    requires
        0 <= start < end,
        8000 * start <= ns,
        ne <= 8000 * end,
        ne - ns == w,
        8000 <= w,
    ensures
        start <= (ns + 4000) / 8000,
        (ne + 4000) / 8000 <= end,
        (ns + 4000) / 8000 + 1 <= (ne + 4000) / 8000,
{
    let us = (ns + 4000) / 8000;
    let ue = (ne + 4000) / 8000;
    assert(us >= start) by {
        vstd::arithmetic::div_mod::lemma_div_is_ordered(8000 * start + 4000, ns + 4000, 8000);
        assert((8000 * start + 4000) / 8000 == start) by (nonlinear_arith);
    };
    assert(ue <= end) by {
        vstd::arithmetic::div_mod::lemma_div_is_ordered(ne + 4000, 8000 * end + 4000, 8000);
        assert((8000 * end + 4000) / 8000 == end) by (nonlinear_arith);
    };
    assert(ue >= us + 1) by {
        assert(ne + 4000 >= (ns + 4000) + 8000);
        vstd::arithmetic::div_mod::lemma_div_is_ordered((ns + 4000) + 8000, ne + 4000, 8000);
        assert(((ns + 4000) + 8000) / 8000 == (ns + 4000) / 8000 + 1) by (nonlinear_arith);
    };
}

impl RetimePlan {
    /// The presentation-timestamp scale factor to apply to the video stream:
    /// 1/speed, again as an exact ratio.
    pub fn pts_scale(&self) -> (r: (u64, u64))
        ensures
            r.0 == self.speed_den,
            r.1 == self.speed_num,
    {
        (self.speed_den, self.speed_num)
    }
}

/// Feeding the engine's own output window and narration duration back in,
/// when the speed cap did not apply, reproduces exactly the same plan.
pub proof fn lemma_retime_idempotent(start: u32, end: u32, d: u32)
    requires
        start < end,
        d > 100,
        4 * (1000 * (end - start)) <= 7 * d,
    ensures
        ({
            let (us, ue, num, den) = spec_retime(start as int, end as int, d as int);
            spec_retime(us, ue, d as int) == (us, ue, num, den)
        }),
{
}

} // verus!
