use movie_shorts::encode::{
    build_plan_prompt, json_escape, openai_request_body, plan_timeout_secs, tts_request_body,
    tts_request_url,
};
use movie_shorts::html::html_to_text_basic;
use movie_shorts::num::{parse_u32, u64_dec};
use movie_shorts::paths::{bgm_manifest, clip_file_name, concat_manifest, narration_audio_path,
    MovieJob};
use movie_shorts::script::{imsdb_attempt_urls, locate_script_region, script_text_ok};
use movie_shorts::srt::{convert_srt_line, convert_srt_timestamps_to_seconds, remove_all,
    timestamp_to_seconds};
use movie_shorts::subtitle::{extract_hrefs, is_srt_entry_name, select_download, select_subpage,
    profile_links, subf2m_list_url, subf2m_subpage_prefix, subtitle_zip_path};
use movie_shorts::text::{contains_sub, find_sub, parse_movie_title_slug, sanitize_utf8_lossy,
    str_ends_with, strcasestr_local, strip_ext, strip_parens, to_lower_copy, trim_copy_utf8_safe,
    url_encode_component, imsdb_format_title_loose};

fn bytes(s: &str) -> Vec<u8> {
    s.as_bytes().to_vec()
}

#[test]
fn slug_rules_and_sequel_suffixes() {
    assert_eq!(parse_movie_title_slug(&bytes("The Movie")), bytes("the-movie"));
    assert_eq!(parse_movie_title_slug(&bytes("Don't (Look)")), bytes("dont-look"));
    assert_eq!(parse_movie_title_slug(&bytes("Rocky II")), bytes("rocky-ii-2"));
    assert_eq!(parse_movie_title_slug(&bytes("Rocky IV")), bytes("rocky-iv-4"));
}

#[test]
fn text_helpers() {
    assert_eq!(to_lower_copy(&bytes("AbC-9é")), bytes("abc-9é"));
    assert_eq!(strip_parens(&bytes("a(b)c")), bytes("abc"));
    assert_eq!(imsdb_format_title_loose(&bytes("It's a (Test) 2!")), bytes("Its-a-Test-2"));
    assert_eq!(url_encode_component(&bytes("a b&c.d")), bytes("a%20b%26c.d"));
    assert_eq!(strip_ext(&bytes("Movie.Name.mp4")), bytes("Movie.Name"));
    assert_eq!(strip_ext(&bytes(".hidden")), bytes(".hidden"));
    assert_eq!(strip_ext(&bytes("plain")), bytes("plain"));
    assert_eq!(find_sub(&bytes("abcabc"), &bytes("cab")), Some(2));
    assert_eq!(find_sub(&bytes("abc"), &bytes("zz")), None);
    assert!(contains_sub(&bytes("english-german-subs"), &bytes("english-german")));
    assert_eq!(strcasestr_local(&bytes("xxAbCyy"), &bytes("aBc")), Some(2));
    assert!(str_ends_with(&bytes("page/download"), &bytes("download")));
}

#[test]
fn utf8_safe_trim_backs_up_to_boundary() {
    // "né" is n, 0xC3, 0xA9: cutting at 2 would split the é.
    let s = bytes("né");
    assert_eq!(trim_copy_utf8_safe(&s, 10), s);
    assert_eq!(trim_copy_utf8_safe(&s, 2), bytes("n"));
    assert_eq!(trim_copy_utf8_safe(&s, 1), bytes("n"));
}

#[test]
fn decimal_formatting_and_parsing() {
    assert_eq!(u64_dec(0), bytes("0"));
    assert_eq!(u64_dec(7), bytes("7"));
    assert_eq!(u64_dec(120450), bytes("120450"));
    assert_eq!(parse_u32(&bytes("0123")), Some(123));
    assert_eq!(parse_u32(&bytes("4294967295")), Some(4294967295));
    assert_eq!(parse_u32(&bytes("4294967296")), None);
    assert_eq!(parse_u32(&bytes("")), None);
    assert_eq!(parse_u32(&bytes("12a")), None);
}

#[test]
fn timestamp_conversion() {
    assert_eq!(timestamp_to_seconds(&bytes("01:02:03,456")), Some(3723));
    assert_eq!(timestamp_to_seconds(&bytes("00:00:09,999")), Some(9));
    assert_eq!(timestamp_to_seconds(&bytes("01:02:03")), None);
    assert_eq!(timestamp_to_seconds(&bytes("aa:02:03,456")), None);
}

#[test]
fn srt_line_normalization() {
    assert_eq!(
        convert_srt_line(&bytes("00:01:40,500 --> 00:02:00,000")),
        bytes("100 --> 120")
    );
    assert_eq!(
        convert_srt_line(&bytes("<i>Hello</i> there")),
        bytes("Hello there")
    );
    assert_eq!(convert_srt_line(&bytes("12")), bytes("12"));
    assert_eq!(remove_all(&bytes("ababab"), &bytes("ab")), bytes(""));
    assert_eq!(remove_all(&bytes("aabab"), &bytes("ab")), bytes("a"));
}

#[test]
fn srt_file_normalization() {
    let input = bytes("1\r\n00:01:40,500 --> 00:02:00,000\r\n<i>Hi</i>\r\n\r\n");
    let out = convert_srt_timestamps_to_seconds(&input);
    assert_eq!(out, bytes("1\n100 --> 120\nHi\n\n"));
}

#[test]
fn html_stripping() {
    let html = bytes("<p>Hi<br/>there &amp; you &lt;3 &gt;2 &nbsp;ok</p>");
    assert_eq!(html_to_text_basic(&html), bytes("Hi\nthere & you <3 >2  ok"));
    let unclosed = bytes("text <img src='x'");
    assert_eq!(html_to_text_basic(&unclosed), bytes("text "));
}

#[test]
fn href_extraction() {
    let page = bytes(
        "<a href=\"/u/bob\">x</a> <A HREF = '/subtitles/heat/english/123'>y</A> href=broken",
    );
    let hrefs = extract_hrefs(&page);
    assert_eq!(hrefs.len(), 2);
    assert_eq!(hrefs[0], bytes("/u/bob"));
    assert_eq!(hrefs[1], bytes("/subtitles/heat/english/123"));
}

#[test]
fn subtitle_link_selection() {
    let hrefs = vec![
        bytes("/subtitles/heat/english-german/1"),
        bytes("/u/alice"),
        bytes("/subtitles/heat/english/2"),
        bytes("/u/bob"),
    ];
    let prefix = subf2m_subpage_prefix(&bytes("heat"));
    assert_eq!(select_subpage(&hrefs, &prefix), Some(2));
    let profiles = profile_links(&hrefs);
    assert_eq!(profiles, vec![bytes("/u/alice"), bytes("/u/bob")]);
    let detail = vec![bytes("/x/1"), bytes("/sub/42/download")];
    assert_eq!(select_download(&detail), Some(1));
    assert_eq!(select_download(&vec![bytes("/x")]), None);
    assert!(is_srt_entry_name(&bytes("Movie.SRT")));
    assert!(!is_srt_entry_name(&bytes("Movie.sub")));
    assert_eq!(
        subf2m_list_url(&bytes("heat")),
        bytes("https://subf2m.co/subtitles/heat/english")
    );
    assert_eq!(
        subtitle_zip_path(&bytes("Heat")),
        bytes("scripts/srt_files/Heat_tmp.zip")
    );
}

#[test]
fn script_site_attempts() {
    let urls = imsdb_attempt_urls(&bytes("Top Gun (1986)"));
    assert_eq!(urls.len(), 7);
    assert_eq!(urls[0], bytes("https://imsdb.com/scripts/Top-Gun-(1986).html"));
    assert_eq!(urls[1], bytes("https://imsdb.com/scripts/Top-Gun-1986.html"));
    assert_eq!(urls[2], bytes("https://imsdb.com/scripts/Top-Gun-1986.html"));
    assert_eq!(urls[3], bytes("https://imsdb.com/scripts/top-gun-(1986).html"));
    assert_eq!(urls[5], bytes("https://imsdb.com/scripts/top-gun-1986.html"));
    assert_eq!(
        urls[6],
        bytes("https://imsdb.com/Movie%20Scripts/Top%20Gun%20%281986%29%20Script.html")
    );
    assert!(!script_text_ok(&vec![120u8; 999]));
    assert!(script_text_ok(&vec![120u8; 1000]));
}

#[test]
fn script_region_location() {
    let page = bytes("<html><PRE class=x>SCRIPT BODY</PRE></html>");
    let (a, b) = locate_script_region(&page).unwrap();
    assert_eq!(&page[a..b], "SCRIPT BODY".as_bytes());
    let page2 = bytes("<td class=\"scrtext\">BODY2</td>");
    let (c, d) = locate_script_region(&page2).unwrap();
    assert_eq!(&page2[c..d], "BODY2".as_bytes());
    assert!(locate_script_region(&bytes("<html>nothing</html>")).is_none());
}

#[test]
fn artifact_paths_derive_from_title() {
    let job = MovieJob::new(bytes("Heat"));
    assert_eq!(job.srt_in, bytes("scripts/srt_files/Heat.srt"));
    assert_eq!(job.srt_mod, bytes("scripts/srt_files/Heat_modified.srt"));
    assert_eq!(job.script_txt, bytes("scripts/srt_files/Heat_summary.txt"));
    assert_eq!(job.concat_list, bytes("clips/Heat_concat_list.txt"));
    assert_eq!(job.tmp_concat, bytes("clips/Heat_concat_tmp.mp4"));
    assert_eq!(job.bgm_list, bytes("clips/Heat_bgm_list.txt"));
    assert_eq!(job.bgm_out, bytes("clips/Heat_bgm.m4a"));
    assert_eq!(job.output, bytes("output/Heat.mp4"));
    assert_eq!(job.vertical, bytes("tiktok_output/Heat_vertical.mp4"));
    assert_eq!(job.retired, bytes("movies_retired/Heat.mp4"));
    assert_eq!(narration_audio_path(&bytes("Heat"), 2), bytes("clips/audio/Heat_audio_2.mp3"));
    assert_eq!(clip_file_name(&bytes("Heat"), 2), bytes("Heat_clip_2.mp4"));
    assert_eq!(
        concat_manifest(&bytes("Heat"), &vec![1, 3]),
        bytes("file 'Heat_clip_1.mp4'\nfile 'Heat_clip_3.mp4'\n")
    );
    assert_eq!(
        bgm_manifest(&bytes("Heat"), 2),
        bytes("file 'Heat_bgm_part_1.m4a'\nfile 'Heat_bgm_part_2.m4a'\n")
    );
}

#[test]
fn request_framing() {
    assert_eq!(
        json_escape(&bytes("a\"b\\c\nd\u{1}")),
        bytes("a\\\"b\\\\c\\nd\\u0001")
    );
    assert_eq!(
        tts_request_url(&bytes("voice1")),
        bytes("https://api.elevenlabs.io/v1/text-to-speech/voice1?output_format=mp3_44100_128")
    );
    assert_eq!(
        tts_request_body(&bytes("say \"hi\""), &bytes("model1")),
        bytes("{\"model_id\":\"model1\",\"text\":\"say \\\"hi\\\"\"}")
    );
    let body = openai_request_body(&bytes("PROMPT"));
    let text = String::from_utf8(body).unwrap();
    assert!(text.starts_with("{\"input\":[{\"content\":\"You are a helpful assistant"));
    assert!(text.contains("{\"content\":\"PROMPT\",\"role\":\"user\"}"));
    assert!(text.ends_with(
        "\"model\":\"gpt-5.2\",\"reasoning\":{\"effort\":\"high\"},\"text\":{\"format\":{\"type\":\"json_object\"}}}"
    ));
    assert_eq!(plan_timeout_secs(true), 14_400);
    assert_eq!(plan_timeout_secs(false), 3_600);
}

#[test]
fn prompt_layout() {
    let prompt = build_plan_prompt(&bytes("Heat"), &bytes("SUBS"), &bytes("SCRIPT"), 24);
    let text = String::from_utf8(prompt).unwrap();
    let expected = format!(
        "You are given TWO inputs.\nMovie: {t}\n\nINPUT A (Subtitles with timestamps in SECONDS):\n{a}\n\nINPUT B (Optional script text WITHOUT timestamps; may be empty):\n{b}\n\nTASK:\n- Choose {n} non-overlapping time ranges that best cover the full plot arc.\n- ONLY use INPUT A for selecting start/end times (seconds). INPUT B is for story context.\n- Each time range should usually be 8-16 seconds long (end-start). Avoid >20 seconds.\n- Keep narrations punchy but not tiny: about 20-35 words total, in 3-5 short sentences.\n- Prefer ranges with clear visual action (reveals, confrontations, entrances, big moments).\n- Skip any range that starts at 0.\n- Return STRICT JSON with this shape ONLY:\n  {{\"clips\":[{{\"start\":120,\"end\":145,\"narration\":\"...\"}}, ...]}}\n- Clips must be increasing by start time.\n- Each narration must be at least 3 full sentences, casual commentator vibe.\n- The first narration must start with: \"Here we go, let's go over the movie {t}.\".\n",
        t = "Heat",
        a = "SUBS",
        b = "SCRIPT",
        n = 24
    );
    assert_eq!(text, expected);
}

#[test]
fn lossy_sanitizing() {
    let valid = bytes("héllo");
    assert_eq!(sanitize_utf8_lossy(&valid), valid);
    let invalid = vec![104u8, 0xFF, 105u8];
    let fixed = sanitize_utf8_lossy(&invalid);
    assert_eq!(String::from_utf8(fixed).unwrap(), "h\u{FFFD}i");
}
