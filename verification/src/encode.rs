use vstd::prelude::*;
use vstd::string::StringSliceAdditionalSpecFns;

use crate::ascii::{BACKSLASH, D0, DQUOTE, LA, LB, LF_LETTER, LN, LR, LT_LETTER, LU};
use crate::num::{spec_dec, u64_dec};
use crate::text::{push_bytes, push_vec, spec_trim_utf8, trim_copy_utf8_safe};

verus! {

// The two requests the pipeline sends are framed here, byte for byte: JSON
// string escaping, the narration request body, and the plan request body
// with its prompt. The driver only posts the finished bytes.

/// Subtitle text is cut to this many bytes before it enters the prompt.
pub const MAX_SUB_CHARS: usize = 320000;

/// Script text is cut to this many bytes before it enters the prompt.
pub const MAX_SCRIPT_CHARS: usize = 80000;

/// One lower-case hexadecimal digit.
pub open spec fn hex_digit_lower(n: int) -> u8 {
    if n < 10 {
        (D0 + n) as u8
    } else {
        (LA + (n - 10)) as u8
    }
}

/// How one byte appears inside a JSON string literal: quote and backslash
/// get a backslash, the five short control escapes are used where they
/// exist, other control bytes become `\u00XX`, and everything else (UTF-8
/// continuation bytes included) passes through.
pub open spec fn json_esc_byte(b: u8) -> Seq<u8> {
    if b == DQUOTE {
        seq![BACKSLASH, DQUOTE]
    } else if b == BACKSLASH {
        seq![BACKSLASH, BACKSLASH]
    } else if b == 8 {
        seq![BACKSLASH, LB]
    } else if b == 9 {
        seq![BACKSLASH, LT_LETTER]
    } else if b == 10 {
        seq![BACKSLASH, LN]
    } else if b == 12 {
        seq![BACKSLASH, LF_LETTER]
    } else if b == 13 {
        seq![BACKSLASH, LR]
    } else if b < 32 {
        seq![
            BACKSLASH,
            LU,
            D0,
            D0,
            hex_digit_lower(b as int / 16),
            hex_digit_lower(b as int % 16),
        ]
    } else {
        seq![b]
    }
}

pub open spec fn spec_json_escape(s: Seq<u8>) -> Seq<u8>
    decreases s.len(),
{
    if s.len() == 0 {
        Seq::empty()
    } else {
        spec_json_escape(s.drop_last()) + json_esc_byte(s.last())
    }
}

/// Escape a byte string for inclusion inside a JSON string literal.
pub fn json_escape(s: &Vec<u8>) -> (r: Vec<u8>)
    ensures
        r@ == spec_json_escape(s@),
{
    let n = s.len();
    let mut out: Vec<u8> = Vec::new();
    let mut i: usize = 0;
    while i < n
        invariant
            i <= n == s@.len(),
            out@ =~= spec_json_escape(s@.take(i as int)),
        decreases n - i,
    {
        let b = s[i];
        proof {
            assert(s@.take(i + 1 as int).drop_last() =~= s@.take(i as int));
            assert(s@.take(i + 1 as int).last() == s@[i as int]);
        }
        if b == DQUOTE {
            out.push(BACKSLASH);
            out.push(DQUOTE);
        } else if b == BACKSLASH {
            out.push(BACKSLASH);
            out.push(BACKSLASH);
        } else if b == 8 {
            out.push(BACKSLASH);
            out.push(LB);
        } else if b == 9 {
            out.push(BACKSLASH);
            out.push(LT_LETTER);
        } else if b == 10 {
            out.push(BACKSLASH);
            out.push(LN);
        } else if b == 12 {
            out.push(BACKSLASH);
            out.push(LF_LETTER);
        } else if b == 13 {
            out.push(BACKSLASH);
            out.push(LR);
        } else if b < 32 {
            let hi = b / 16;
            let lo = b % 16;
            out.push(BACKSLASH);
            out.push(LU);
            out.push(D0);
            out.push(D0);
            out.push(if hi < 10 { D0 + hi } else { LA + (hi - 10) });
            out.push(if lo < 10 { D0 + lo } else { LA + (lo - 10) });
        } else {
            out.push(b);
        }
        i += 1;
        assert(out@ =~= spec_json_escape(s@.take(i as int)));
    }
    assert(s@.take(n as int) =~= s@);
    out
}

/// The narration synthesis endpoint for the configured voice.
pub fn tts_request_url(voice_id: &Vec<u8>) -> (r: Vec<u8>)
    ensures
        r@ == "https://api.elevenlabs.io/v1/text-to-speech/".spec_bytes() + voice_id@
            + "?output_format=mp3_44100_128".spec_bytes(),
{
    let mut out: Vec<u8> = Vec::new();
    push_bytes(&mut out, "https://api.elevenlabs.io/v1/text-to-speech/");
    push_vec(&mut out, voice_id);
    push_bytes(&mut out, "?output_format=mp3_44100_128");
    assert(out@ =~= "https://api.elevenlabs.io/v1/text-to-speech/".spec_bytes() + voice_id@
        + "?output_format=mp3_44100_128".spec_bytes());
    out
}

/// The narration request body: the text to speak and the model to use, as a
/// JSON object with its keys in serialization order.
pub fn tts_request_body(text: &Vec<u8>, model_id: &Vec<u8>) -> (r: Vec<u8>)
    ensures
        r@ == "{\"model_id\":\"".spec_bytes() + spec_json_escape(model_id@)
            + "\",\"text\":\"".spec_bytes() + spec_json_escape(text@) + "\"}".spec_bytes(),
{
    let mut out: Vec<u8> = Vec::new();
    push_bytes(&mut out, "{\"model_id\":\"");
    let mut m = json_escape(model_id);
    out.append(&mut m);
    push_bytes(&mut out, "\",\"text\":\"");
    let mut t = json_escape(text);
    out.append(&mut t);
    push_bytes(&mut out, "\"}");
    assert(out@ =~= "{\"model_id\":\"".spec_bytes() + spec_json_escape(model_id@)
        + "\",\"text\":\"".spec_bytes() + spec_json_escape(text@) + "\"}".spec_bytes());
    out
}

/// The planning prompt: the movie title, the seconds-normalized subtitles
/// (cut to their byte budget), the optional script text (cut to its byte
/// budget), the requested clip count, and the fixed task instructions.
pub fn build_plan_prompt(
    title: &Vec<u8>,
    subs: &Vec<u8>,
    script: &Vec<u8>,
    num_clips: u32,
) -> (r: Vec<u8>)
    ensures
        r@ == "You are given TWO inputs.\nMovie: ".spec_bytes() + title@
            + "\n\nINPUT A (Subtitles with timestamps in SECONDS):\n".spec_bytes()
            + spec_trim_utf8(subs@, MAX_SUB_CHARS as int)
            + "\n\nINPUT B (Optional script text WITHOUT timestamps; may be empty):\n".spec_bytes()
            + spec_trim_utf8(script@, MAX_SCRIPT_CHARS as int) + "\n\nTASK:\n- Choose ".spec_bytes()
            + spec_dec(num_clips as int)
            + " non-overlapping time ranges that best cover the full plot arc.\n- ONLY use INPUT A for selecting start/end times (seconds). INPUT B is for story context.\n- Each time range should usually be 8-16 seconds long (end-start). Avoid >20 seconds.\n- Keep narrations punchy but not tiny: about 20-35 words total, in 3-5 short sentences.\n- Prefer ranges with clear visual action (reveals, confrontations, entrances, big moments).\n- Skip any range that starts at 0.\n- Return STRICT JSON with this shape ONLY:\n  {\"clips\":[{\"start\":120,\"end\":145,\"narration\":\"...\"}, ...]}\n- Clips must be increasing by start time.\n- Each narration must be at least 3 full sentences, casual commentator vibe.\n- The first narration must start with: \"Here we go, let's go over the movie ".spec_bytes()
            + title@ + ".\".\n".spec_bytes(),
{
    let subs_trim = trim_copy_utf8_safe(subs, MAX_SUB_CHARS);
    let script_trim = trim_copy_utf8_safe(script, MAX_SCRIPT_CHARS);
    let mut out: Vec<u8> = Vec::new();
    push_bytes(&mut out, "You are given TWO inputs.\nMovie: ");
    push_vec(&mut out, title);
    push_bytes(&mut out, "\n\nINPUT A (Subtitles with timestamps in SECONDS):\n");
    push_vec(&mut out, &subs_trim);
    push_bytes(&mut out, "\n\nINPUT B (Optional script text WITHOUT timestamps; may be empty):\n");
    push_vec(&mut out, &script_trim);
    push_bytes(&mut out, "\n\nTASK:\n- Choose ");
    let mut d = u64_dec(num_clips as u64);
    out.append(&mut d);
    push_bytes(
        &mut out,
        " non-overlapping time ranges that best cover the full plot arc.\n- ONLY use INPUT A for selecting start/end times (seconds). INPUT B is for story context.\n- Each time range should usually be 8-16 seconds long (end-start). Avoid >20 seconds.\n- Keep narrations punchy but not tiny: about 20-35 words total, in 3-5 short sentences.\n- Prefer ranges with clear visual action (reveals, confrontations, entrances, big moments).\n- Skip any range that starts at 0.\n- Return STRICT JSON with this shape ONLY:\n  {\"clips\":[{\"start\":120,\"end\":145,\"narration\":\"...\"}, ...]}\n- Clips must be increasing by start time.\n- Each narration must be at least 3 full sentences, casual commentator vibe.\n- The first narration must start with: \"Here we go, let's go over the movie ",
    );
    push_vec(&mut out, title);
    push_bytes(&mut out, ".\".\n");
    assert(out@ =~= "You are given TWO inputs.\nMovie: ".spec_bytes() + title@
        + "\n\nINPUT A (Subtitles with timestamps in SECONDS):\n".spec_bytes() + subs_trim@
        + "\n\nINPUT B (Optional script text WITHOUT timestamps; may be empty):\n".spec_bytes()
        + script_trim@ + "\n\nTASK:\n- Choose ".spec_bytes() + spec_dec(num_clips as int)
        + " non-overlapping time ranges that best cover the full plot arc.\n- ONLY use INPUT A for selecting start/end times (seconds). INPUT B is for story context.\n- Each time range should usually be 8-16 seconds long (end-start). Avoid >20 seconds.\n- Keep narrations punchy but not tiny: about 20-35 words total, in 3-5 short sentences.\n- Prefer ranges with clear visual action (reveals, confrontations, entrances, big moments).\n- Skip any range that starts at 0.\n- Return STRICT JSON with this shape ONLY:\n  {\"clips\":[{\"start\":120,\"end\":145,\"narration\":\"...\"}, ...]}\n- Clips must be increasing by start time.\n- Each narration must be at least 3 full sentences, casual commentator vibe.\n- The first narration must start with: \"Here we go, let's go over the movie ".spec_bytes()
        + title@ + ".\".\n".spec_bytes());
    out
}

/// The plan request body around the prompt: fixed model, high reasoning
/// effort, a system line asking for JSON output, and a JSON-object response
/// format, with keys in serialization order.
pub fn openai_request_body(prompt: &Vec<u8>) -> (r: Vec<u8>)
    ensures
        r@
            == "{\"input\":[{\"content\":\"You are a helpful assistant designed to output JSON.\",\"role\":\"system\"},{\"content\":\"".spec_bytes()
            + spec_json_escape(prompt@)
            + "\",\"role\":\"user\"}],\"model\":\"gpt-5.2\",\"reasoning\":{\"effort\":\"high\"},\"text\":{\"format\":{\"type\":\"json_object\"}}}".spec_bytes(),
{
    let mut out: Vec<u8> = Vec::new();
    push_bytes(
        &mut out,
        "{\"input\":[{\"content\":\"You are a helpful assistant designed to output JSON.\",\"role\":\"system\"},{\"content\":\"",
    );
    let mut p = json_escape(prompt);
    out.append(&mut p);
    push_bytes(
        &mut out,
        "\",\"role\":\"user\"}],\"model\":\"gpt-5.2\",\"reasoning\":{\"effort\":\"high\"},\"text\":{\"format\":{\"type\":\"json_object\"}}}",
    );
    assert(out@ =~= Seq::<u8>::empty()
        + "{\"input\":[{\"content\":\"You are a helpful assistant designed to output JSON.\",\"role\":\"system\"},{\"content\":\"".spec_bytes()
        + spec_json_escape(prompt@)
        + "\",\"role\":\"user\"}],\"model\":\"gpt-5.2\",\"reasoning\":{\"effort\":\"high\"},\"text\":{\"format\":{\"type\":\"json_object\"}}}".spec_bytes());
    out
}

/// How long the plan request may run: the long budget with a script
/// attached, the short one without.
pub fn plan_timeout_secs(with_script: bool) -> (r: u64)
    ensures
        with_script ==> r == 14400,
        !with_script ==> r == 3600,
{
    if with_script {
        14400
    } else {
        3600
    }
}

} // verus!
