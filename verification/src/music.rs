use vstd::prelude::*;

verus! {

// The background-music bed is assembled from a pool of songs of unknown
// length: songs are probed one at a time (in the caller's order, normally a
// random one) and trimmed into fragments until the fragments cover the
// target duration, up to a hard ceiling on the number of fragments.

/// Songs this long or shorter are rejected outright (likely unusable).
pub const MIN_SONG_MS: u64 = 60000;

/// Every fragment starts this far into its song, skipping intros.
pub const SKIP_OFFSET_MS: u64 = 40000;

/// The target counts as covered once the shortfall is at most this.
pub const COVER_EPSILON_MS: u64 = 10;

/// Hard ceiling on the number of fragments, so assembly always terminates.
pub const MAX_FRAGMENTS: usize = 200;

/// One trimmed piece of a pooled song: `take_ms` milliseconds starting
/// `offset_ms` into song number `song` of the pool.
#[derive(Clone, Copy, Debug, PartialEq, Eq, Structural)]
pub struct Fragment {
    pub song: usize,
    pub offset_ms: u64,
    pub take_ms: u64,
}

/// Total duration of a fragment list, in milliseconds.
pub open spec fn frag_total(fs: Seq<Fragment>) -> int
    decreases fs.len(),
{
    if fs.len() == 0 {
        0
    } else {
        frag_total(fs.drop_last()) + fs.last().take_ms
    }
}

/// The growing music bed for one target duration: the ordered fragment
/// manifest and how much of the target it covers so far.
pub struct MusicAssembly {
    pub target_ms: u64,
    pub covered_ms: u64,
    pub fragments: Vec<Fragment>,
}

impl MusicAssembly {
    /// The covered duration is exactly the fragments' total, never exceeds
    /// the target, and the manifest never exceeds the fragment ceiling.
    pub open spec fn wf(&self) -> bool {
        &&& self.covered_ms <= self.target_ms
        &&& frag_total(self.fragments@) == self.covered_ms
        &&& self.fragments@.len() <= MAX_FRAGMENTS
    }

    pub fn new(target_ms: u64) -> (r: Self)
        ensures
            r.wf(),
            r.target_ms == target_ms,
            r.covered_ms == 0,
            r.fragments@.len() == 0,
    {
        MusicAssembly { target_ms, covered_ms: 0, fragments: Vec::new() }
    }

    /// More music is still needed: the bed is more than the epsilon short of
    /// the target and the fragment ceiling has not been reached.
    pub fn needs_more(&self) -> (r: bool)
        ensures
            r == (self.covered_ms + COVER_EPSILON_MS < self.target_ms && self.fragments@.len()
                < MAX_FRAGMENTS),
    {
        self.covered_ms < self.target_ms && self.target_ms - self.covered_ms > COVER_EPSILON_MS
            && self.fragments.len() < MAX_FRAGMENTS
    }

    /// Decide what to take from a song of the probed duration: the song is
    /// rejected when it is 60 seconds or shorter, or when less than a second
    /// remains past the 40-second skip-in; otherwise the fragment starts at
    /// the skip-in offset and takes the lesser of what the song has left and
    /// what the target still needs.
    pub fn offer_song(&self, song_duration_ms: u64) -> (r: Option<(u64, u64)>)
        requires
            self.covered_ms < self.target_ms,
        ensures
            match r {
                None => song_duration_ms <= MIN_SONG_MS || song_duration_ms - SKIP_OFFSET_MS
                    <= 1000,
                Some((offset, take)) => {
                    let avail = song_duration_ms - SKIP_OFFSET_MS;
                    let need = self.target_ms - self.covered_ms;
                    &&& song_duration_ms > MIN_SONG_MS
                    &&& avail > 1000
                    &&& offset == SKIP_OFFSET_MS
                    &&& take == if avail < need { avail } else { need }
                    &&& 0 < take <= need
                },
            },
    {
        if song_duration_ms <= MIN_SONG_MS {
            return None;
        }
        let avail = song_duration_ms - SKIP_OFFSET_MS;
        if avail <= 1000 {
            return None;
        }
        let need = self.target_ms - self.covered_ms;
        let take = if avail < need {
            avail
        } else {
            need
        };
        Some((SKIP_OFFSET_MS, take))
    }

    /// Record one successfully trimmed fragment: append it to the manifest
    /// and advance the covered duration by what it takes.
    pub fn commit_fragment(&mut self, song: usize, offset_ms: u64, take_ms: u64)
        requires
            old(self).wf(),
            old(self).fragments@.len() < MAX_FRAGMENTS,
            take_ms <= old(self).target_ms - old(self).covered_ms,
        ensures
            final(self).wf(),
            final(self).target_ms == old(self).target_ms,
            final(self).covered_ms == old(self).covered_ms + take_ms,
            final(self).fragments@ == old(self).fragments@.push(
                Fragment { song, offset_ms, take_ms },
            ),
    {
        let f = Fragment { song, offset_ms, take_ms };
        self.fragments.push(f);
        self.covered_ms = self.covered_ms + take_ms;
        proof {
            assert(self.fragments@.drop_last() =~= old(self).fragments@);
            assert(frag_total(self.fragments@) == frag_total(old(self).fragments@) + take_ms);
        }
    }
}

/// Every pick indexes the pool and every pooled song picked is longer than a
/// minute: under these, assembly can never get stuck.
pub open spec fn all_picks_usable(durations: Seq<u64>, picks: Seq<usize>) -> bool {
    forall|i: int|
        0 <= i < picks.len() ==> (picks[i] < durations.len() && durations[picks[i] as int]
            > MIN_SONG_MS)
}

/// Each fragment takes exactly the lesser of what its song offers past the
/// skip-in and what the target still needed when the fragment was
/// committed.
pub open spec fn fragments_take_greedily(
    fs: Seq<Fragment>,
    durations: Seq<u64>,
    target: int,
) -> bool {
    forall|k: int|
        0 <= k < fs.len() ==> {
            let f = #[trigger] fs[k];
            let avail = durations[f.song as int] - SKIP_OFFSET_MS;
            let need = target - frag_total(fs.take(k));
            f.take_ms == if avail < need {
                avail
            } else {
                need
            }
        }
}

/// Assemble a music bed for `target_ms` from the pool of probed song
/// durations, trying the picked songs in order. Every fragment in the result
/// is a real piece of its song and takes greedily (the lesser of the song's
/// usable tail and the remaining need); and whenever every pick is usable
/// and there are at least as many picks as the fragment ceiling, the result
/// either covers the target (to within the epsilon) or stops exactly at the
/// ceiling.
pub fn cover_target(target_ms: u64, durations: &Vec<u64>, picks: &Vec<usize>) -> (m: MusicAssembly)
    ensures
        m.wf(),
        m.target_ms == target_ms,
        forall|i: int|
            0 <= i < m.fragments@.len() ==> {
                let f = #[trigger] m.fragments@[i];
                &&& f.song < durations@.len()
                &&& f.offset_ms == SKIP_OFFSET_MS
                &&& 0 < f.take_ms
                &&& f.take_ms <= durations@[f.song as int] - SKIP_OFFSET_MS
            },
        fragments_take_greedily(m.fragments@, durations@, target_ms as int),
        all_picks_usable(durations@, picks@) && picks@.len() >= MAX_FRAGMENTS ==> (m.covered_ms
            + COVER_EPSILON_MS >= target_ms || m.fragments@.len() == MAX_FRAGMENTS),
{
    let mut m = MusicAssembly::new(target_ms);
    let n = picks.len();
    let mut i: usize = 0;
    let mut stop = false;
    while i < n && !stop
        invariant
            m.wf(),
            m.target_ms == target_ms,
            i <= n == picks@.len(),
            stop ==> (m.covered_ms + COVER_EPSILON_MS >= target_ms || m.fragments@.len()
                == MAX_FRAGMENTS),
            forall|k: int|
                0 <= k < m.fragments@.len() ==> {
                    let f = #[trigger] m.fragments@[k];
                    &&& f.song < durations@.len()
                    &&& f.offset_ms == SKIP_OFFSET_MS
                    &&& 0 < f.take_ms
                    &&& f.take_ms <= durations@[f.song as int] - SKIP_OFFSET_MS
                },
            fragments_take_greedily(m.fragments@, durations@, target_ms as int),
            all_picks_usable(durations@, picks@) ==> (m.fragments@.len() == i || m.covered_ms
                + COVER_EPSILON_MS >= target_ms || m.fragments@.len() == MAX_FRAGMENTS),
        decreases n - i + (if stop { 0int } else { 1int }),
    {
        if !m.needs_more() {
            stop = true;
        } else {
            let idx = picks[i];
            if idx < durations.len() {
                let d = durations[idx];
                match m.offer_song(d) {
                    Some((offset, take)) => {
                        let ghost fs_old = m.fragments@;
                        let ghost covered_old = m.covered_ms;
                        m.commit_fragment(idx, offset, take);
                        proof {
                            assert forall|k: int| 0 <= k < m.fragments@.len() implies {
                                let f = #[trigger] m.fragments@[k];
                                let avail = durations@[f.song as int] - SKIP_OFFSET_MS;
                                let need = target_ms - frag_total(m.fragments@.take(k));
                                f.take_ms == if avail < need {
                                    avail
                                } else {
                                    need
                                }
                            } by {
                                if k < fs_old.len() {
                                    assert(m.fragments@.take(k) =~= fs_old.take(k));
                                    assert(m.fragments@[k] == fs_old[k]);
                                } else {
                                    assert(m.fragments@.take(k) =~= fs_old);
                                    assert(frag_total(fs_old) == covered_old);
                                }
                            }
                        }
                    },
                    None => {},
                }
            }
            i += 1;
        }
    }
    m
}

} // verus!
