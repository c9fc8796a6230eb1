use vstd::prelude::*;

use crate::json::{spec_error_code, spec_error_message};
use crate::paths::{concat_manifest, spec_concat_manifest, MovieJob};
use crate::plan::{plan_items_match, ClipPlan, ClipPlanList};
use crate::planner::{openai_extract_output_text, openai_resp_should_retry_without_script,
    spec_response_plan, spec_retry_worthy};
use crate::retime::{plan_retime, spec_retime, RetimePlan};

verus! {

// The per-movie pipeline as an explicit state machine. The library decides;
// the caller performs the outside work each stage asks for (file checks,
// fetches, media commands) and reports what happened. Every transition is
// pinned down here, including which failures abort the movie (hard), which
// degrade the output (soft), and which merely skip one clip.

/// Script files smaller than this are discarded and fetched again.
pub const MIN_SCRIPT_BYTES: u64 = 200;

/// Where the pipeline stands, and what outside work it is waiting for.
#[derive(Clone, Copy, Debug, PartialEq, Eq, Structural)]
pub enum Stage {
    /// Does the finished output for this title already exist?
    CheckOutput,
    /// Does the raw subtitle file exist?
    CheckSubtitle,
    /// Fetch the raw subtitle file.
    FetchSubtitle,
    /// Does the seconds-normalized subtitle file exist?
    CheckNormalized,
    /// Normalize the subtitle file to whole seconds.
    Normalize,
    /// Probe the optional script file's size, if it exists.
    CheckScript,
    /// Try to fetch the optional script (best effort).
    FetchScript,
    /// Request a clip plan, with or without the script context.
    RequestPlan { with_script: bool },
    /// Advance to the next usable plan entry at or after `idx` (0-based).
    NextClip { idx: usize },
    /// Synthesize narration for plan entry `idx`.
    ClipTts { idx: usize },
    /// Probe the duration of the narration just synthesized.
    ClipProbe { idx: usize },
    /// Cut and retime the source window for plan entry `idx`.
    ClipCut { idx: usize, retime: RetimePlan },
    /// Concatenate the produced clips.
    Concat,
    /// Probe the duration of the concatenated track.
    ProbeFinal,
    /// Is any background music available?
    CheckMusic,
    /// Assemble, concatenate and mix the music bed (best effort).
    BuildMusic,
    /// Render the vertical version (best effort).
    Vertical,
    /// Move the source movie out of the active input set.
    Retire,
    /// Finished; `success` says whether the movie produced output.
    Done { success: bool },
}

/// The pipeline for one movie: its derived paths, the plan once received,
/// and the 1-based indices of the clips produced so far, in order.
pub struct MoviePipeline {
    pub job: MovieJob,
    pub num_clips_target: u32,
    pub stage: Stage,
    pub plan: Vec<ClipPlan>,
    pub produced: Vec<u64>,
    pub target_ms: u64,
}

impl MoviePipeline {
    /// Stage-indexed well-formedness: a clip stage always points at a real,
    /// usable plan entry.
    pub open spec fn stage_ok(&self) -> bool {
        match self.stage {
            Stage::NextClip { idx } => idx <= self.plan@.len(),
            Stage::ClipTts { idx } => idx < self.plan@.len() && self.plan@[idx as int].valid(),
            Stage::ClipProbe { idx } => idx < self.plan@.len() && self.plan@[idx as int].valid(),
            Stage::ClipCut { idx, retime: _ } => idx < self.plan@.len() && self.plan@[
                idx as int
            ].valid(),
            _ => true,
        }
    }

    pub open spec fn wf(&self) -> bool {
        self.job.wf() && self.stage_ok()
    }

    /// Everything except the stage itself is untouched.
    pub open spec fn only_stage_changed(&self, pre: &Self) -> bool {
        &&& self.job == pre.job
        &&& self.num_clips_target == pre.num_clips_target
        &&& self.plan == pre.plan
        &&& self.produced == pre.produced
        &&& self.target_ms == pre.target_ms
    }

    /// Start a movie at the resumability gate.
    pub fn new(title: Vec<u8>, num_clips_target: u32) -> (r: MoviePipeline)
        ensures
            r.wf(),
            r.stage == Stage::CheckOutput,
            r.job.title@ == title@,
            r.num_clips_target == num_clips_target,
            r.plan@.len() == 0,
            r.produced@.len() == 0,
    {
        MoviePipeline {
            job: MovieJob::new(title),
            num_clips_target,
            stage: Stage::CheckOutput,
            plan: Vec::new(),
            produced: Vec::new(),
            target_ms: 0,
        }
    }

    /// The resumability gate: when the finished output already exists the
    /// movie is done, successfully, with no further work of any kind.
    pub fn on_output_check(&mut self, exists: bool)
        requires
            old(self).wf(),
            old(self).stage == Stage::CheckOutput,
        ensures
            final(self).wf(),
            final(self).only_stage_changed(old(self)),
            exists ==> final(self).stage == (Stage::Done { success: true }),
            !exists ==> final(self).stage == Stage::CheckSubtitle,
    {
        if exists {
            self.stage = Stage::Done { success: true };
        } else {
            self.stage = Stage::CheckSubtitle;
        }
    }

    /// An existing subtitle file is reused; otherwise it must be fetched.
    pub fn on_subtitle_check(&mut self, exists: bool)
        requires
            old(self).wf(),
            old(self).stage == Stage::CheckSubtitle,
        ensures
            final(self).wf(),
            final(self).only_stage_changed(old(self)),
            exists ==> final(self).stage == Stage::CheckNormalized,
            !exists ==> final(self).stage == Stage::FetchSubtitle,
    {
        if exists {
            self.stage = Stage::CheckNormalized;
        } else {
            self.stage = Stage::FetchSubtitle;
        }
    }

    /// Subtitle acquisition is a hard stage: failure aborts the movie.
    pub fn on_subtitle_fetch(&mut self, ok: bool)
        requires
            old(self).wf(),
            old(self).stage == Stage::FetchSubtitle,
        ensures
            final(self).wf(),
            final(self).only_stage_changed(old(self)),
            ok ==> final(self).stage == Stage::CheckNormalized,
            !ok ==> final(self).stage == (Stage::Done { success: false }),
    {
        if ok {
            self.stage = Stage::CheckNormalized;
        } else {
            self.stage = Stage::Done { success: false };
        }
    }

    /// An existing normalized subtitle file is reused.
    pub fn on_normalized_check(&mut self, exists: bool)
        requires
            old(self).wf(),
            old(self).stage == Stage::CheckNormalized,
        ensures
            final(self).wf(),
            final(self).only_stage_changed(old(self)),
            exists ==> final(self).stage == Stage::CheckScript,
            !exists ==> final(self).stage == Stage::Normalize,
    {
        if exists {
            self.stage = Stage::CheckScript;
        } else {
            self.stage = Stage::Normalize;
        }
    }

    /// Subtitle normalization is a hard stage: failure aborts the movie.
    pub fn on_normalize_result(&mut self, ok: bool)
        requires
            old(self).wf(),
            old(self).stage == Stage::Normalize,
        ensures
            final(self).wf(),
            final(self).only_stage_changed(old(self)),
            ok ==> final(self).stage == Stage::CheckScript,
            !ok ==> final(self).stage == (Stage::Done { success: false }),
    {
        if ok {
            self.stage = Stage::CheckScript;
        } else {
            self.stage = Stage::Done { success: false };
        }
    }

    /// A cached script is used only when it is big enough to be real; a
    /// missing or too-small script is (re)fetched.
    pub fn on_script_check(&mut self, size: Option<u64>)
        requires
            old(self).wf(),
            old(self).stage == Stage::CheckScript,
        ensures
            final(self).wf(),
            final(self).only_stage_changed(old(self)),
            match size {
                Some(sz) => if sz >= MIN_SCRIPT_BYTES {
                    final(self).stage == (Stage::RequestPlan { with_script: true })
                } else {
                    final(self).stage == Stage::FetchScript
                },
                None => final(self).stage == Stage::FetchScript,
            },
    {
        match size {
            Some(sz) => {
                if sz >= MIN_SCRIPT_BYTES {
                    self.stage = Stage::RequestPlan { with_script: true };
                } else {
                    self.stage = Stage::FetchScript;
                }
            },
            None => {
                self.stage = Stage::FetchScript;
            },
        }
    }

    /// Script acquisition is best-effort: either way the plan is requested,
    /// with the script attached exactly when the fetch produced one.
    pub fn on_script_fetch(&mut self, ok: bool)
        requires
            old(self).wf(),
            old(self).stage == Stage::FetchScript,
        ensures
            final(self).wf(),
            final(self).only_stage_changed(old(self)),
            final(self).stage == (Stage::RequestPlan { with_script: ok }),
    {
        self.stage = Stage::RequestPlan { with_script: ok };
    }

    /// Handle the planner's raw response (None means the request itself
    /// failed in transport). A response that yields a usable plan — an
    /// extractable output text parsing as a non-empty strict clip list —
    /// starts clip production on exactly those clips. Any other response is
    /// retried exactly once, without the script, precisely when the script
    /// was attached and the payload's error fields classify as
    /// retry-worthy; everything else fails the movie.
    pub fn on_plan_response(&mut self, response: Option<&str>)
        requires
            old(self).wf(),
            old(self).stage matches Stage::RequestPlan { with_script: _ },
        ensures
            final(self).wf(),
            final(self).job == old(self).job,
            final(self).num_clips_target == old(self).num_clips_target,
            final(self).produced == old(self).produced,
            final(self).target_ms == old(self).target_ms,
            response is None ==> final(self).stage == (Stage::Done { success: false })
                && final(self).plan == old(self).plan,
            response matches Some(raw) ==> match spec_response_plan(raw@) {
                Some(fs) => final(self).stage == (Stage::NextClip { idx: 0 })
                    && plan_items_match(final(self).plan@, fs),
                None => {
                    let retry = old(self).stage == (Stage::RequestPlan { with_script: true })
                        && spec_retry_worthy(spec_error_code(raw@), spec_error_message(raw@));
                    &&& final(self).plan == old(self).plan
                    &&& (retry ==> final(self).stage == (Stage::RequestPlan {
                        with_script: false,
                    }))
                    &&& (!retry ==> final(self).stage == (Stage::Done { success: false }))
                },
            },
    {
        let with_script = match self.stage {
            Stage::RequestPlan { with_script } => with_script,
            _ => false,
        };
        let raw = match response {
            Some(r) => r,
            None => {
                self.stage = Stage::Done { success: false };
                return ;
            },
        };
        let mut items: Vec<ClipPlan> = Vec::new();
        if let Some(text) = openai_extract_output_text(raw) {
            if let Some(parsed) = ClipPlanList::from_json(text.as_str()) {
                items = parsed.items;
            }
        }
        if items.len() > 0 {
            self.plan = items;
            self.stage = Stage::NextClip { idx: 0 };
        } else {
            let retry = with_script && openai_resp_should_retry_without_script(raw);
            if retry {
                self.stage = Stage::RequestPlan { with_script: false };
            } else {
                self.stage = Stage::Done { success: false };
            }
        }
    }

    /// Move to the next usable plan entry: entries with a non-positive start
    /// or a backwards range are skipped, one by one, without failing the
    /// movie. When the plan is exhausted, a movie with no produced clips
    /// fails; otherwise the clips are concatenated.
    pub fn next_clip(&mut self)
        requires
            old(self).wf(),
            old(self).stage matches Stage::NextClip { idx: _ },
        ensures
            final(self).wf(),
            final(self).only_stage_changed(old(self)),
            ({
                let idx0 = old(self).stage->NextClip_idx;
                match final(self).stage {
                    Stage::ClipTts { idx } => idx0 <= idx < final(self).plan@.len() && final(self).plan@[idx as int].valid() && (forall|t: int|
                        idx0 <= t < idx ==> !final(self).plan@[t].valid()),
                    Stage::Concat => final(self).produced@.len() > 0 && (forall|t: int|
                        idx0 <= t < final(self).plan@.len() ==> !final(self).plan@[t].valid()),
                    Stage::Done { success } => success == false && final(self).produced@.len() == 0
                        && (forall|t: int|
                        idx0 <= t < final(self).plan@.len() ==> !final(self).plan@[t].valid()),
                    _ => false,
                }
            }),
    {
        let mut i = match self.stage {
            Stage::NextClip { idx } => idx,
            _ => 0,
        };
        let ghost idx0 = i as int;
        let n = self.plan.len();
        while i < n
            invariant
                old(self).wf(),
                self.job == old(self).job,
                self.num_clips_target == old(self).num_clips_target,
                self.plan == old(self).plan,
                self.produced == old(self).produced,
                self.target_ms == old(self).target_ms,
                self.stage == old(self).stage,
                idx0 == old(self).stage->NextClip_idx,
                idx0 <= i <= n == self.plan@.len(),
                forall|t: int| idx0 <= t < i ==> !self.plan@[t].valid(),
            decreases n - i,
        {
            let entry = &self.plan[i];
            if entry.start > 0 && entry.end > entry.start {
                self.stage = Stage::ClipTts { idx: i };
                return ;
            }
            i += 1;
        }
        if self.produced.len() == 0 {
            self.stage = Stage::Done { success: false };
        } else {
            self.stage = Stage::Concat;
        }
    }

    /// Narration synthesis failure skips this one clip.
    pub fn on_tts_result(&mut self, ok: bool)
        requires
            old(self).wf(),
            old(self).stage matches Stage::ClipTts { idx: _ },
        ensures
            final(self).wf(),
            final(self).only_stage_changed(old(self)),
            ({
                let idx = old(self).stage->ClipTts_idx;
                if ok {
                    final(self).stage == (Stage::ClipProbe { idx })
                } else {
                    final(self).stage == (Stage::NextClip { idx: (idx + 1) as usize })
                }
            }),
    {
        let idx = match self.stage {
            Stage::ClipTts { idx } => idx,
            _ => 0,
        };
        let n = self.plan.len();
        assert(idx < n);
        if ok {
            self.stage = Stage::ClipProbe { idx };
        } else {
            self.stage = Stage::NextClip { idx: idx + 1 };
        }
    }

    /// An unreadable narration duration skips this one clip; a usable one
    /// fixes the retiming plan for the cut, exactly as the retiming engine
    /// computes it.
    pub fn on_narration_probe(&mut self, duration_ms: Option<u32>)
        requires
            old(self).wf(),
            old(self).stage matches Stage::ClipProbe { idx: _ },
        ensures
            final(self).wf(),
            final(self).only_stage_changed(old(self)),
            ({
                let idx = old(self).stage->ClipProbe_idx;
                let entry = old(self).plan@[idx as int];
                match duration_ms {
                    None => final(self).stage == (Stage::NextClip { idx: (idx + 1) as usize }),
                    Some(d) => if d > 100 {
                        {
                            let (us, ue, num, den) = spec_retime(
                                entry.start as int,
                                entry.end as int,
                                d as int,
                            );
                            final(self).stage matches Stage::ClipCut { idx: i2, retime }
                                && i2 == idx && retime.use_start == us && retime.use_end == ue
                                && retime.speed_num == num && retime.speed_den == den
                        }
                    } else {
                        final(self).stage == (Stage::NextClip { idx: (idx + 1) as usize })
                    },
                }
            }),
    {
        let idx = match self.stage {
            Stage::ClipProbe { idx } => idx,
            _ => 0,
        };
        let n = self.plan.len();
        assert(idx < n);
        let d = match duration_ms {
            Some(d) => d,
            None => {
                self.stage = Stage::NextClip { idx: idx + 1 };
                return ;
            },
        };
        let entry = &self.plan[idx];
        match plan_retime(entry.start as u32, entry.end as u32, d) {
            Some(retime) => {
                self.stage = Stage::ClipCut { idx, retime };
            },
            None => {
                self.stage = Stage::NextClip { idx: idx + 1 };
            },
        }
    }

    /// A successful cut appends the clip (by its 1-based index) to the
    /// concat order; a failed cut skips this one clip.
    pub fn on_cut_result(&mut self, ok: bool)
        requires
            old(self).wf(),
            old(self).stage matches Stage::ClipCut { idx: _, retime: _ },
        ensures
            final(self).wf(),
            final(self).job == old(self).job,
            final(self).num_clips_target == old(self).num_clips_target,
            final(self).plan == old(self).plan,
            final(self).target_ms == old(self).target_ms,
            ({
                let idx = old(self).stage->ClipCut_idx;
                &&& final(self).stage == (Stage::NextClip { idx: (idx + 1) as usize })
                &&& (ok ==> final(self).produced@ == old(self).produced@.push((idx + 1) as u64))
                &&& (!ok ==> final(self).produced@ == old(self).produced@)
            }),
    {
        let idx = match self.stage {
            Stage::ClipCut { idx, retime: _ } => idx,
            _ => 0,
        };
        let n = self.plan.len();
        assert(idx < n);
        if ok {
            self.produced.push((idx + 1) as u64);
        }
        self.stage = Stage::NextClip { idx: idx + 1 };
    }

    /// The concat manifest for the clips produced so far, in order.
    pub fn concat_manifest_text(&self) -> (r: Vec<u8>)
        ensures
            r@ == spec_concat_manifest(self.job.title@, self.produced@),
    {
        concat_manifest(&self.job.title, &self.produced)
    }

    /// Concatenation is a hard stage: failure aborts the movie.
    pub fn on_concat_result(&mut self, ok: bool)
        requires
            old(self).wf(),
            old(self).stage == Stage::Concat,
        ensures
            final(self).wf(),
            final(self).only_stage_changed(old(self)),
            ok ==> final(self).stage == Stage::ProbeFinal,
            !ok ==> final(self).stage == (Stage::Done { success: false }),
    {
        if ok {
            self.stage = Stage::ProbeFinal;
        } else {
            self.stage = Stage::Done { success: false };
        }
    }

    /// The probe serves only the music stage. A readable duration becomes
    /// the music target; an unreadable one skips music entirely — a soft
    /// failure, so the narration-only track becomes the final output and
    /// the movie continues to the vertical render.
    pub fn on_final_probe(&mut self, duration_ms: Option<u64>)
        requires
            old(self).wf(),
            old(self).stage == Stage::ProbeFinal,
        ensures
            final(self).wf(),
            final(self).job == old(self).job,
            final(self).num_clips_target == old(self).num_clips_target,
            final(self).plan == old(self).plan,
            final(self).produced == old(self).produced,
            match duration_ms {
                None => final(self).stage == Stage::Vertical && final(self).target_ms == old(self).target_ms,
                Some(d) => final(self).stage == Stage::CheckMusic && final(self).target_ms == d,
            },
    {
        match duration_ms {
            None => {
                self.stage = Stage::Vertical;
            },
            Some(d) => {
                self.target_ms = d;
                self.stage = Stage::CheckMusic;
            },
        }
    }

    /// With no music pool the concatenated track is the final output and the
    /// movie proceeds to the vertical render; otherwise the music bed is
    /// built.
    pub fn on_music_check(&mut self, songs_available: bool)
        requires
            old(self).wf(),
            old(self).stage == Stage::CheckMusic,
        ensures
            final(self).wf(),
            final(self).only_stage_changed(old(self)),
            songs_available ==> final(self).stage == Stage::BuildMusic,
            !songs_available ==> final(self).stage == Stage::Vertical,
    {
        if songs_available {
            self.stage = Stage::BuildMusic;
        } else {
            self.stage = Stage::Vertical;
        }
    }

    /// Music assembly and mixing are best-effort: whatever happened, the
    /// movie goes on (unmixed means the narration-only track is the output).
    pub fn on_music_result(&mut self, _mixed: bool)
        requires
            old(self).wf(),
            old(self).stage == Stage::BuildMusic,
        ensures
            final(self).wf(),
            final(self).only_stage_changed(old(self)),
            final(self).stage == Stage::Vertical,
    {
        self.stage = Stage::Vertical;
    }

    /// The vertical render is best-effort: either way the source retires.
    pub fn on_vertical_result(&mut self, _ok: bool)
        requires
            old(self).wf(),
            old(self).stage == Stage::Vertical,
        ensures
            final(self).wf(),
            final(self).only_stage_changed(old(self)),
            final(self).stage == Stage::Retire,
    {
        self.stage = Stage::Retire;
    }

    /// Retiring the source ends the movie, successfully.
    pub fn on_retired(&mut self)
        requires
            old(self).wf(),
            old(self).stage == Stage::Retire,
        ensures
            final(self).wf(),
            final(self).only_stage_changed(old(self)),
            final(self).stage == (Stage::Done { success: true }),
    {
        self.stage = Stage::Done { success: true };
    }
}

} // verus!
