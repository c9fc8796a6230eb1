use vstd::prelude::*;
use vstd::string::StringSliceAdditionalSpecFns;

use crate::num::{spec_dec, u64_dec};
use crate::text::{push_bytes, push_vec};

verus! {

// Every artifact path is a pure function of the movie title. That is what
// makes the pipeline resumable: a re-run derives the same paths and finds
// each stage's output exactly where an earlier run put it.

pub open spec fn spec_srt_in_path(title: Seq<u8>) -> Seq<u8> {
    "scripts/srt_files/".spec_bytes() + title + ".srt".spec_bytes()
}

pub open spec fn spec_srt_mod_path(title: Seq<u8>) -> Seq<u8> {
    "scripts/srt_files/".spec_bytes() + title + "_modified.srt".spec_bytes()
}

pub open spec fn spec_script_txt_path(title: Seq<u8>) -> Seq<u8> {
    "scripts/srt_files/".spec_bytes() + title + "_summary.txt".spec_bytes()
}

pub open spec fn spec_concat_list_path(title: Seq<u8>) -> Seq<u8> {
    "clips/".spec_bytes() + title + "_concat_list.txt".spec_bytes()
}

pub open spec fn spec_tmp_concat_path(title: Seq<u8>) -> Seq<u8> {
    "clips/".spec_bytes() + title + "_concat_tmp.mp4".spec_bytes()
}

pub open spec fn spec_bgm_list_path(title: Seq<u8>) -> Seq<u8> {
    "clips/".spec_bytes() + title + "_bgm_list.txt".spec_bytes()
}

pub open spec fn spec_bgm_out_path(title: Seq<u8>) -> Seq<u8> {
    "clips/".spec_bytes() + title + "_bgm.m4a".spec_bytes()
}

pub open spec fn spec_output_path(title: Seq<u8>) -> Seq<u8> {
    "output/".spec_bytes() + title + ".mp4".spec_bytes()
}

pub open spec fn spec_vertical_path(title: Seq<u8>) -> Seq<u8> {
    "tiktok_output/".spec_bytes() + title + "_vertical.mp4".spec_bytes()
}

pub open spec fn spec_retired_path(title: Seq<u8>) -> Seq<u8> {
    "movies_retired/".spec_bytes() + title + ".mp4".spec_bytes()
}

pub open spec fn spec_narration_audio_path(title: Seq<u8>, clip_index: int) -> Seq<u8> {
    "clips/audio/".spec_bytes() + title + "_audio_".spec_bytes() + spec_dec(clip_index)
        + ".mp3".spec_bytes()
}

pub open spec fn spec_clip_file_name(title: Seq<u8>, clip_index: int) -> Seq<u8> {
    title + "_clip_".spec_bytes() + spec_dec(clip_index) + ".mp4".spec_bytes()
}

pub open spec fn spec_clip_path(title: Seq<u8>, clip_index: int) -> Seq<u8> {
    "clips/".spec_bytes() + spec_clip_file_name(title, clip_index)
}

pub open spec fn spec_bgm_part_name(title: Seq<u8>, part: int) -> Seq<u8> {
    title + "_bgm_part_".spec_bytes() + spec_dec(part) + ".m4a".spec_bytes()
}

/// The narration audio file for the 1-based clip index.
pub fn narration_audio_path(title: &Vec<u8>, clip_index: u64) -> (r: Vec<u8>)
    ensures
        r@ == spec_narration_audio_path(title@, clip_index as int),
{
    let mut out: Vec<u8> = Vec::new();
    push_bytes(&mut out, "clips/audio/");
    push_vec(&mut out, title);
    push_bytes(&mut out, "_audio_");
    let mut d = u64_dec(clip_index);
    out.append(&mut d);
    push_bytes(&mut out, ".mp3");
    assert(out@ =~= spec_narration_audio_path(title@, clip_index as int));
    out
}

/// The produced clip's bare file name, as it appears in the concat list.
pub fn clip_file_name(title: &Vec<u8>, clip_index: u64) -> (r: Vec<u8>)
    ensures
        r@ == spec_clip_file_name(title@, clip_index as int),
{
    let mut out: Vec<u8> = Vec::new();
    push_vec(&mut out, title);
    push_bytes(&mut out, "_clip_");
    let mut d = u64_dec(clip_index);
    out.append(&mut d);
    push_bytes(&mut out, ".mp4");
    assert(out@ =~= spec_clip_file_name(title@, clip_index as int));
    out
}

/// The produced clip's path under the clips directory.
pub fn clip_path(title: &Vec<u8>, clip_index: u64) -> (r: Vec<u8>)
    ensures
        r@ == spec_clip_path(title@, clip_index as int),
{
    let mut out: Vec<u8> = Vec::new();
    push_bytes(&mut out, "clips/");
    let mut name = clip_file_name(title, clip_index);
    out.append(&mut name);
    assert(out@ =~= spec_clip_path(title@, clip_index as int));
    out
}

/// One trimmed music fragment's bare file name (1-based part number).
pub fn bgm_part_name(title: &Vec<u8>, part: u64) -> (r: Vec<u8>)
    ensures
        r@ == spec_bgm_part_name(title@, part as int),
{
    let mut out: Vec<u8> = Vec::new();
    push_vec(&mut out, title);
    push_bytes(&mut out, "_bgm_part_");
    let mut d = u64_dec(part);
    out.append(&mut d);
    push_bytes(&mut out, ".m4a");
    assert(out@ =~= spec_bgm_part_name(title@, part as int));
    out
}

/// The per-movie processing context: the title (also the cache key) and
/// every derived artifact path, fixed for the whole run of one movie.
pub struct MovieJob {
    pub title: Vec<u8>,
    pub srt_in: Vec<u8>,
    pub srt_mod: Vec<u8>,
    pub script_txt: Vec<u8>,
    pub concat_list: Vec<u8>,
    pub tmp_concat: Vec<u8>,
    pub bgm_list: Vec<u8>,
    pub bgm_out: Vec<u8>,
    pub output: Vec<u8>,
    pub vertical: Vec<u8>,
    pub retired: Vec<u8>,
}

impl MovieJob {
    pub open spec fn wf(&self) -> bool {
        &&& self.srt_in@ == spec_srt_in_path(self.title@)
        &&& self.srt_mod@ == spec_srt_mod_path(self.title@)
        &&& self.script_txt@ == spec_script_txt_path(self.title@)
        &&& self.concat_list@ == spec_concat_list_path(self.title@)
        &&& self.tmp_concat@ == spec_tmp_concat_path(self.title@)
        &&& self.bgm_list@ == spec_bgm_list_path(self.title@)
        &&& self.bgm_out@ == spec_bgm_out_path(self.title@)
        &&& self.output@ == spec_output_path(self.title@)
        &&& self.vertical@ == spec_vertical_path(self.title@)
        &&& self.retired@ == spec_retired_path(self.title@)
    }

    /// Derive every artifact path from the movie title.
    pub fn new(title: Vec<u8>) -> (r: MovieJob)
        ensures
            r.wf(),
            r.title@ == title@,
    {
        let mut srt_in: Vec<u8> = Vec::new();
        push_bytes(&mut srt_in, "scripts/srt_files/");
        push_vec(&mut srt_in, &title);
        push_bytes(&mut srt_in, ".srt");
        assert(srt_in@ =~= spec_srt_in_path(title@));

        let mut srt_mod: Vec<u8> = Vec::new();
        push_bytes(&mut srt_mod, "scripts/srt_files/");
        push_vec(&mut srt_mod, &title);
        push_bytes(&mut srt_mod, "_modified.srt");
        assert(srt_mod@ =~= spec_srt_mod_path(title@));

        let mut script_txt: Vec<u8> = Vec::new();
        push_bytes(&mut script_txt, "scripts/srt_files/");
        push_vec(&mut script_txt, &title);
        push_bytes(&mut script_txt, "_summary.txt");
        assert(script_txt@ =~= spec_script_txt_path(title@));

        let mut concat_list: Vec<u8> = Vec::new();
        push_bytes(&mut concat_list, "clips/");
        push_vec(&mut concat_list, &title);
        push_bytes(&mut concat_list, "_concat_list.txt");
        assert(concat_list@ =~= spec_concat_list_path(title@));

        let mut tmp_concat: Vec<u8> = Vec::new();
        push_bytes(&mut tmp_concat, "clips/");
        push_vec(&mut tmp_concat, &title);
        push_bytes(&mut tmp_concat, "_concat_tmp.mp4");
        assert(tmp_concat@ =~= spec_tmp_concat_path(title@));

        let mut bgm_list: Vec<u8> = Vec::new();
        push_bytes(&mut bgm_list, "clips/");
        push_vec(&mut bgm_list, &title);
        push_bytes(&mut bgm_list, "_bgm_list.txt");
        assert(bgm_list@ =~= spec_bgm_list_path(title@));

        let mut bgm_out: Vec<u8> = Vec::new();
        push_bytes(&mut bgm_out, "clips/");
        push_vec(&mut bgm_out, &title);
        push_bytes(&mut bgm_out, "_bgm.m4a");
        assert(bgm_out@ =~= spec_bgm_out_path(title@));

        let mut output: Vec<u8> = Vec::new();
        push_bytes(&mut output, "output/");
        push_vec(&mut output, &title);
        push_bytes(&mut output, ".mp4");
        assert(output@ =~= spec_output_path(title@));

        let mut vertical: Vec<u8> = Vec::new();
        push_bytes(&mut vertical, "tiktok_output/");
        push_vec(&mut vertical, &title);
        push_bytes(&mut vertical, "_vertical.mp4");
        assert(vertical@ =~= spec_vertical_path(title@));

        let mut retired: Vec<u8> = Vec::new();
        push_bytes(&mut retired, "movies_retired/");
        push_vec(&mut retired, &title);
        push_bytes(&mut retired, ".mp4");
        assert(retired@ =~= spec_retired_path(title@));

        MovieJob {
            title,
            srt_in,
            srt_mod,
            script_txt,
            concat_list,
            tmp_concat,
            bgm_list,
            bgm_out,
            output,
            vertical,
            retired,
        }
    }
}

/// One line of a concat manifest: `file '<name>'` and a newline.
pub open spec fn spec_manifest_line(name: Seq<u8>) -> Seq<u8> {
    "file '".spec_bytes() + name + "'\n".spec_bytes()
}

/// The video concat manifest for the produced clips, in production order:
/// one quoted clip file name per line.
pub open spec fn spec_concat_manifest(title: Seq<u8>, ids: Seq<u64>) -> Seq<u8>
    decreases ids.len(),
{
    if ids.len() == 0 {
        Seq::empty()
    } else {
        spec_concat_manifest(title, ids.drop_last()) + spec_manifest_line(
            spec_clip_file_name(title, ids.last() as int),
        )
    }
}

/// Build the video concat manifest from the produced 1-based clip indices.
pub fn concat_manifest(title: &Vec<u8>, ids: &Vec<u64>) -> (r: Vec<u8>)
    ensures
        r@ == spec_concat_manifest(title@, ids@),
{
    let n = ids.len();
    let mut out: Vec<u8> = Vec::new();
    let mut i: usize = 0;
    while i < n
        invariant
            i <= n == ids@.len(),
            out@ == spec_concat_manifest(title@, ids@.take(i as int)),
        decreases n - i,
    {
        proof {
            assert(ids@.take(i + 1 as int).drop_last() =~= ids@.take(i as int));
            assert(ids@.take(i + 1 as int).last() == ids@[i as int]);
        }
        push_bytes(&mut out, "file '");
        let mut name = clip_file_name(title, ids[i]);
        out.append(&mut name);
        push_bytes(&mut out, "'\n");
        i += 1;
        assert(out@ =~= spec_concat_manifest(title@, ids@.take(i as int)));
    }
    assert(ids@.take(n as int) =~= ids@);
    out
}

/// The music concat manifest for `parts` fragments, numbered 1 to `parts`.
pub open spec fn spec_bgm_manifest(title: Seq<u8>, parts: int) -> Seq<u8>
    decreases parts,
{
    if parts <= 0 {
        Seq::empty()
    } else {
        spec_bgm_manifest(title, parts - 1) + spec_manifest_line(spec_bgm_part_name(title, parts))
    }
}

/// Build the music concat manifest for fragment files 1 to `parts`.
pub fn bgm_manifest(title: &Vec<u8>, parts: u64) -> (r: Vec<u8>)
    ensures
        r@ == spec_bgm_manifest(title@, parts as int),
{
    let mut out: Vec<u8> = Vec::new();
    let mut k: u64 = 0;
    while k < parts
        invariant
            k <= parts,
            out@ == spec_bgm_manifest(title@, k as int),
        decreases parts - k,
    {
        k = k + 1;
        push_bytes(&mut out, "file '");
        let mut name = bgm_part_name(title, k);
        out.append(&mut name);
        push_bytes(&mut out, "'\n");
        assert(out@ =~= spec_bgm_manifest(title@, k as int));
    }
    out
}

} // verus!
