use vstd::prelude::*;

verus! {

// The planner's responses, the failure payloads and the configuration file
// are JSON; serde_json parses them. Each document the library reads gets
// one trusted extractor that parses the text once and hands its fields
// back as plain values. What an extractor yields is a function of the text
// alone, so each result carries a name, and the verified logic downstream
// speaks of the named fields exactly.

/// The `error.code` string of a failure payload, as bytes; nothing when
/// the text is not JSON or has no such string field.
pub uninterp spec fn spec_error_code(s: Seq<char>) -> Option<Seq<u8>>;

/// The `error.message` string of a failure payload, as bytes; nothing when
/// the text is not JSON or has no such string field.
pub uninterp spec fn spec_error_message(s: Seq<char>) -> Option<Seq<u8>>;

/// Relies on serde_json's `from_str::<Value>`, `Value::get` and
/// `Value::as_str`: parse the payload once and pull out the structured
/// error's code and message, where they exist as strings.
#[verifier::external_body]
pub(crate) fn json_error_fields(s: &str) -> (r: (Option<Vec<u8>>, Option<Vec<u8>>))
    ensures
        r.0 matches Some(c) ==> spec_error_code(s@) == Some(c@),
        r.0 is None ==> spec_error_code(s@) is None,
        r.1 matches Some(m) ==> spec_error_message(s@) == Some(m@),
        r.1 is None ==> spec_error_message(s@) is None,
{
    let root: serde_json::Value = match serde_json::from_str(s) {
        Ok(v) => v,
        Err(_) => return (None, None),
    };
    let err = match root.get("error") {
        Some(e) => e,
        None => return (None, None),
    };
    let code = err.get("code").and_then(|v| v.as_str()).map(|t| t.as_bytes().to_vec());
    let message = err.get("message").and_then(|v| v.as_str()).map(|t| t.as_bytes().to_vec());
    (code, message)
}

/// The text of the first `output_text` entry under any
/// `output[i].content[j]` of a planner response; nothing when the text is
/// not JSON, carries a top-level `error`, or has no such entry.
pub uninterp spec fn spec_output_text(s: Seq<char>) -> Option<Seq<char>>;

/// Relies on serde_json's `from_str::<Value>`, `Value::get`,
/// `Value::as_array` and `Value::as_str`: scan the response's output
/// entries, in order, for the first output text.
#[verifier::external_body]
pub(crate) fn json_output_text(s: &str) -> (r: Option<String>)
    ensures
        r matches Some(t) ==> spec_output_text(s@) == Some(t@),
        r is None ==> spec_output_text(s@) is None,
{
    let root: serde_json::Value = serde_json::from_str(s).ok()?;
    if root.get("error").is_some() {
        return None;
    }
    root.get("output")?.as_array()?.iter().find_map(
        |item| item.get("content")?.as_array()?.iter().find_map(
            |entry| match entry.get("type")?.as_str()? {
                "output_text" => entry.get("text")?.as_str().map(|t| t.to_string()),
                _ => None,
            },
        ),
    )
}

/// The (start, end, narration) triples of the strict plan shape
/// `{"clips":[{"start":s,"end":e,"narration":"..."}, ...]}`, in array
/// order; nothing when the text is not JSON of exactly that shape with
/// 64-bit integer bounds and string narrations.
pub uninterp spec fn spec_plan_fields(s: Seq<char>) -> Option<Seq<(i64, i64, Seq<char>)>>;

/// Relies on serde_json's `from_str::<Value>`, `Value::get`,
/// `Value::as_array`, `Value::as_i64` and `Value::as_str`: parse the plan
/// text once and hand each clip's fields back, in order.
#[verifier::external_body]
pub(crate) fn json_plan_fields(s: &str) -> (r: Option<Vec<(i64, i64, String)>>)
    ensures
        r matches Some(v) ==> spec_plan_fields(s@) == Some(
            v@.map_values(|t: (i64, i64, String)| (t.0, t.1, t.2@)),
        ),
        r is None ==> spec_plan_fields(s@) is None,
{
    let root: serde_json::Value = serde_json::from_str(s).ok()?;
    root.get("clips")?.as_array()?.iter().map(
        |e| {
            let start = e.get("start")?.as_i64()?;
            let end = e.get("end")?.as_i64()?;
            let narration = e.get("narration")?.as_str()?.to_string();
            Some((start, end, narration))
        },
    ).collect::<Option<Vec<_>>>()
}

/// The configuration's two required keys and its optional voice and model
/// identifiers; nothing when the text is not JSON, a required key is
/// missing or not a string, or a present optional field is not a string.
pub uninterp spec fn spec_config_fields(s: Seq<char>) -> Option<
    (Seq<char>, Seq<char>, Option<Seq<char>>, Option<Seq<char>>),
>;

/// Relies on serde_json's `from_str::<Value>`, `Value::get` and
/// `Value::as_str`: parse the configuration text once and hand its fields
/// back.
#[verifier::external_body]
pub(crate) fn json_config_fields(s: &str) -> (r: Option<
    (String, String, Option<String>, Option<String>),
>)
    ensures
        r matches Some(f) ==> spec_config_fields(s@) == Some(
            (
                f.0@,
                f.1@,
                match f.2 {
                    Some(v) => Some(v@),
                    None => None,
                },
                match f.3 {
                    Some(m) => Some(m@),
                    None => None,
                },
            ),
        ),
        r is None ==> spec_config_fields(s@) is None,
{
    let root: serde_json::Value = serde_json::from_str(s).ok()?;
    let openai = root.get("open_api_key")?.as_str()?.to_string();
    let eleven = root.get("elevenlabs_api_key")?.as_str()?.to_string();
    let voice = match root.get("eleven_voice_id") {
        Some(v) => Some(v.as_str()?.to_string()),
        None => None,
    };
    let model = match root.get("eleven_model_id") {
        Some(v) => Some(v.as_str()?.to_string()),
        None => None,
    };
    Some((openai, eleven, voice, model))
}

} // verus!
