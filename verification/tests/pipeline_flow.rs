use movie_shorts::config::{Config, ConfigError};
use movie_shorts::log::{set_log_hook, Log};
use movie_shorts::pipeline::{MoviePipeline, Stage};
use movie_shorts::plan::ClipPlanList;
use movie_shorts::planner::{
    openai_extract_output_text, openai_resp_should_retry_without_script, retry_worthy,
};

fn bytes(s: &str) -> Vec<u8> {
    s.as_bytes().to_vec()
}

#[test]
fn existing_output_short_circuits_to_success() {
    let mut p = MoviePipeline::new(bytes("Heat"), 24);
    assert_eq!(p.stage, Stage::CheckOutput);
    p.on_output_check(true);
    assert_eq!(p.stage, Stage::Done { success: true });
}

#[test]
fn full_run_produces_one_clip_and_succeeds() {
    let mut p = MoviePipeline::new(bytes("m"), 24);
    p.on_output_check(false);
    assert_eq!(p.stage, Stage::CheckSubtitle);
    p.on_subtitle_check(false);
    assert_eq!(p.stage, Stage::FetchSubtitle);
    p.on_subtitle_fetch(true);
    p.on_normalized_check(false);
    assert_eq!(p.stage, Stage::Normalize);
    p.on_normalize_result(true);
    assert_eq!(p.stage, Stage::CheckScript);
    p.on_script_check(Some(150));
    assert_eq!(p.stage, Stage::FetchScript);
    p.on_script_fetch(false);
    assert_eq!(p.stage, Stage::RequestPlan { with_script: false });

    let response = "{\"output\":[{\"content\":[{\"type\":\"output_text\",\"text\":\"{\\\"clips\\\":[{\\\"start\\\":100,\\\"end\\\":120,\\\"narration\\\":\\\"Here we go.\\\"}]}\"}]}]}";
    p.on_plan_response(Some(response));
    assert_eq!(p.stage, Stage::NextClip { idx: 0 });
    assert_eq!(p.plan.len(), 1);

    p.next_clip();
    assert_eq!(p.stage, Stage::ClipTts { idx: 0 });
    p.on_tts_result(true);
    assert_eq!(p.stage, Stage::ClipProbe { idx: 0 });
    p.on_narration_probe(Some(8000));
    match p.stage {
        Stage::ClipCut { idx, retime } => {
            assert_eq!(idx, 0);
            assert_eq!(retime.use_start, 103);
            assert_eq!(retime.use_end, 117);
            assert_eq!(retime.speed_num * 4, retime.speed_den * 7);
        }
        other => panic!("unexpected stage {:?}", other),
    }
    p.on_cut_result(true);
    assert_eq!(p.produced, vec![1]);
    p.next_clip();
    assert_eq!(p.stage, Stage::Concat);
    assert_eq!(p.concat_manifest_text(), bytes("file 'm_clip_1.mp4'\n"));
    p.on_concat_result(true);
    p.on_final_probe(Some(14_000));
    assert_eq!(p.stage, Stage::CheckMusic);
    assert_eq!(p.target_ms, 14_000);
    p.on_music_check(false);
    assert_eq!(p.stage, Stage::Vertical);
    p.on_vertical_result(false);
    assert_eq!(p.stage, Stage::Retire);
    p.on_retired();
    assert_eq!(p.stage, Stage::Done { success: true });
}

#[test]
fn plan_failure_retries_once_without_script_only() {
    let mut p = MoviePipeline::new(bytes("m"), 20);
    p.on_output_check(false);
    p.on_subtitle_check(true);
    p.on_normalized_check(true);
    p.on_script_check(Some(5000));
    assert_eq!(p.stage, Stage::RequestPlan { with_script: true });

    let failure = "{\"error\":{\"code\":\"context_length_exceeded\"}}";
    p.on_plan_response(Some(failure));
    assert_eq!(p.stage, Stage::RequestPlan { with_script: false });
    // The same failure again is terminal: the retry happens only once.
    p.on_plan_response(Some(failure));
    assert_eq!(p.stage, Stage::Done { success: false });
}

#[test]
fn unrelated_plan_failure_is_terminal() {
    let mut p = MoviePipeline::new(bytes("m"), 20);
    p.on_output_check(false);
    p.on_subtitle_check(true);
    p.on_normalized_check(true);
    p.on_script_check(Some(5000));
    p.on_plan_response(Some("{\"error\":{\"code\":\"invalid_api_key\"}}"));
    assert_eq!(p.stage, Stage::Done { success: false });
}

#[test]
fn empty_parsed_plan_does_not_retry() {
    // A well-formed response whose clip list is empty carries no error
    // fields, so even a with-script attempt is not retried.
    let mut p = MoviePipeline::new(bytes("m"), 20);
    p.on_output_check(false);
    p.on_subtitle_check(true);
    p.on_normalized_check(true);
    p.on_script_check(Some(5000));
    assert_eq!(p.stage, Stage::RequestPlan { with_script: true });
    let response = "{\"output\":[{\"content\":[{\"type\":\"output_text\",\"text\":\"{\\\"clips\\\":[]}\"}]}]}";
    p.on_plan_response(Some(response));
    assert_eq!(p.stage, Stage::Done { success: false });
}

#[test]
fn transport_failure_fails_the_movie() {
    let mut p = MoviePipeline::new(bytes("m"), 20);
    p.on_output_check(false);
    p.on_subtitle_check(true);
    p.on_normalized_check(true);
    p.on_script_check(None);
    p.on_script_fetch(false);
    p.on_plan_response(None);
    assert_eq!(p.stage, Stage::Done { success: false });
}

#[test]
fn invalid_entries_are_skipped_not_fatal() {
    let mut p = MoviePipeline::new(bytes("m"), 20);
    p.on_output_check(false);
    p.on_subtitle_check(true);
    p.on_normalized_check(true);
    p.on_script_check(None);
    p.on_script_fetch(false);
    let response = "{\"output\":[{\"content\":[{\"type\":\"output_text\",\"text\":\"{\\\"clips\\\":[{\\\"start\\\":0,\\\"end\\\":10,\\\"narration\\\":\\\"a\\\"},{\\\"start\\\":9,\\\"end\\\":7,\\\"narration\\\":\\\"b\\\"},{\\\"start\\\":30,\\\"end\\\":42,\\\"narration\\\":\\\"c\\\"}]}\"}]}]}";
    p.on_plan_response(Some(response));
    p.next_clip();
    assert_eq!(p.stage, Stage::ClipTts { idx: 2 });
    // Narration fails for it: nothing is produced, and the movie fails.
    p.on_tts_result(false);
    p.next_clip();
    assert_eq!(p.stage, Stage::Done { success: false });
}

#[test]
fn hard_and_soft_stage_failures() {
    // Subtitle fetch failure is hard.
    let mut p = MoviePipeline::new(bytes("m"), 20);
    p.on_output_check(false);
    p.on_subtitle_check(false);
    p.on_subtitle_fetch(false);
    assert_eq!(p.stage, Stage::Done { success: false });

    // Music and vertical failures are soft: the movie still succeeds.
    let mut q = MoviePipeline::new(bytes("m"), 20);
    q.on_output_check(false);
    q.on_subtitle_check(true);
    q.on_normalized_check(true);
    q.on_script_check(None);
    q.on_script_fetch(false);
    let response = "{\"output\":[{\"content\":[{\"type\":\"output_text\",\"text\":\"{\\\"clips\\\":[{\\\"start\\\":5,\\\"end\\\":15,\\\"narration\\\":\\\"x\\\"}]}\"}]}]}";
    q.on_plan_response(Some(response));
    q.next_clip();
    q.on_tts_result(true);
    q.on_narration_probe(Some(9000));
    q.on_cut_result(true);
    q.next_clip();
    q.on_concat_result(true);
    q.on_final_probe(Some(10_000));
    q.on_music_check(true);
    assert_eq!(q.stage, Stage::BuildMusic);
    q.on_music_result(false);
    assert_eq!(q.stage, Stage::Vertical);
    q.on_vertical_result(false);
    q.on_retired();
    assert_eq!(q.stage, Stage::Done { success: true });
}

#[test]
fn unreadable_final_duration_is_soft() {
    // The duration probe only serves music assembly: when it fails, the
    // narration-only track is the output and the movie still succeeds.
    let mut p = MoviePipeline::new(bytes("m"), 20);
    p.on_output_check(false);
    p.on_subtitle_check(true);
    p.on_normalized_check(true);
    p.on_script_check(None);
    p.on_script_fetch(false);
    let response = "{\"output\":[{\"content\":[{\"type\":\"output_text\",\"text\":\"{\\\"clips\\\":[{\\\"start\\\":5,\\\"end\\\":15,\\\"narration\\\":\\\"x\\\"}]}\"}]}]}";
    p.on_plan_response(Some(response));
    p.next_clip();
    p.on_tts_result(true);
    p.on_narration_probe(Some(9000));
    p.on_cut_result(true);
    p.next_clip();
    p.on_concat_result(true);
    p.on_final_probe(None);
    assert_eq!(p.stage, Stage::Vertical);
    p.on_vertical_result(true);
    p.on_retired();
    assert_eq!(p.stage, Stage::Done { success: true });
}

#[test]
fn concat_failure_is_hard() {
    let mut p = MoviePipeline::new(bytes("m"), 20);
    p.on_output_check(false);
    p.on_subtitle_check(true);
    p.on_normalized_check(true);
    p.on_script_check(None);
    p.on_script_fetch(false);
    let response = "{\"output\":[{\"content\":[{\"type\":\"output_text\",\"text\":\"{\\\"clips\\\":[{\\\"start\\\":5,\\\"end\\\":15,\\\"narration\\\":\\\"x\\\"}]}\"}]}]}";
    p.on_plan_response(Some(response));
    p.next_clip();
    p.on_tts_result(true);
    p.on_narration_probe(Some(9000));
    p.on_cut_result(true);
    p.next_clip();
    p.on_concat_result(false);
    assert_eq!(p.stage, Stage::Done { success: false });
}

#[test]
fn retry_classification_by_code() {
    assert!(openai_resp_should_retry_without_script(
        "{\"error\":{\"code\":\"context_length_exceeded\"}}"
    ));
    assert!(openai_resp_should_retry_without_script(
        "{\"error\":{\"code\":\"INVALID_JSON\"}}"
    ));
    assert!(openai_resp_should_retry_without_script(
        "{\"error\":{\"code\":\"some_context_thing\"}}"
    ));
    assert!(!openai_resp_should_retry_without_script(
        "{\"error\":{\"code\":\"invalid_api_key\"}}"
    ));
    assert!(!openai_resp_should_retry_without_script(""));
    assert!(!openai_resp_should_retry_without_script("not json at all"));
    assert!(!openai_resp_should_retry_without_script("{\"ok\":true}"));
}

#[test]
fn retry_classification_by_message() {
    assert!(openai_resp_should_retry_without_script(
        "{\"error\":{\"message\":\"This model's maximum context length is 128000 tokens\"}}"
    ));
    assert!(openai_resp_should_retry_without_script(
        "{\"error\":{\"message\":\"Request is TOO LARGE\"}}"
    ));
    assert!(!openai_resp_should_retry_without_script(
        "{\"error\":{\"message\":\"internal server error\"}}"
    ));
}

#[test]
fn retry_worthy_on_plain_fields() {
    assert!(retry_worthy(Some(&bytes("Context_Length_Exceeded")), None));
    assert!(retry_worthy(None, Some(&bytes("please REDUCE the prompt"))));
    assert!(!retry_worthy(Some(&bytes("rate_limited")), Some(&bytes("slow down"))));
    assert!(!retry_worthy(None, None));
}

#[test]
fn output_text_extraction() {
    let ok = "{\"output\":[{\"content\":[{\"type\":\"reasoning\"},{\"type\":\"output_text\",\"text\":\"hello\"}]}]}";
    assert_eq!(openai_extract_output_text(ok), Some("hello".to_string()));
    let err = "{\"error\":{\"message\":\"boom\"},\"output\":[]}";
    assert_eq!(openai_extract_output_text(err), None);
    assert_eq!(openai_extract_output_text("{}"), None);
}

#[test]
fn clip_plan_parses_strict_shape_only() {
    let pl = ClipPlanList::from_json(
        "{\"clips\":[{\"start\":100,\"end\":120,\"narration\":\"hi\"}]}",
    )
    .unwrap();
    assert_eq!(pl.items.len(), 1);
    assert_eq!(pl.items[0].start, 100);
    assert_eq!(pl.items[0].end, 120);
    assert_eq!(pl.items[0].narration, "hi");
    assert!(ClipPlanList::from_json("nonsense").is_none());
    assert!(ClipPlanList::from_json("{\"clips\":[{\"start\":1.5,\"end\":2,\"narration\":\"x\"}]}")
        .is_none());
    assert!(ClipPlanList::from_json("{\"clips\":[{\"start\":1,\"end\":2}]}").is_none());
    assert!(ClipPlanList::from_json("{\"plans\":[]}").is_none());
    assert_eq!(ClipPlanList::from_json("{\"clips\":[]}").unwrap().items.len(), 0);
}

#[test]
fn config_parsing_and_validation() {
    let cfg = Config::from_json_text(
        "{\"open_api_key\":\"k1\",\"elevenlabs_api_key\":\"k2\"}",
    )
    .unwrap();
    assert_eq!(cfg.openai_key, "k1");
    assert_eq!(cfg.eleven_voice_id, "JBFqnCBsd6RMkjVDRZzb");
    assert_eq!(cfg.eleven_model_id, "eleven_multilingual_v2");
    assert!(cfg.validate().is_ok());

    let empty = Config::from_json_text(
        "{\"open_api_key\":\"\",\"elevenlabs_api_key\":\"k2\"}",
    )
    .unwrap();
    assert_eq!(empty.validate(), Err(ConfigError::EmptyOpenAiKey));
    let empty2 = Config::from_json_text(
        "{\"open_api_key\":\"k\",\"elevenlabs_api_key\":\"\"}",
    )
    .unwrap();
    assert_eq!(empty2.validate(), Err(ConfigError::EmptyElevenLabsKey));
    assert!(empty2.validate().unwrap_err().message().contains("elevenlabs_api_key"));
    assert!(Config::from_json_text("{\"elevenlabs_api_key\":\"k2\"}").is_none());
}

#[test]
fn log_hook_controls_recording() {
    let mut log = Log::new();
    log.logi(bytes("one"));
    set_log_hook(&mut log, false);
    log.logw(bytes("dropped"));
    log.set_log_hook(true);
    log.logok(bytes("two"));
    assert_eq!(log.lines.len(), 2);
    assert_eq!(log.lines[0].text, bytes("one"));
    assert_eq!(log.lines[1].text, bytes("two"));
}
