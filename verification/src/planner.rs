use vstd::prelude::*;
use vstd::string::StrSliceExecFns;
use vstd::string::StringSliceAdditionalSpecFns;

use crate::json::{json_error_fields, json_output_text, spec_error_code, spec_error_message,
    spec_output_text, spec_plan_fields};
use crate::plan::plan_fields_in_range;
use crate::text::{bytes_eq, contains_seq, contains_sub, spec_lower, to_lower_copy};

verus! {

// The planner retry policy: a failed plan request is retried once, without
// the optional script context, exactly when the failure payload looks like
// the request was too big for the model. The classification itself is pure
// byte-string logic over the payload's named error fields; only pulling
// those fields out of the JSON goes through a trusted extractor.

/// A failure code asks for a retry when, lower-cased, it is the
/// context-length family, the invalid-request-body family, or mentions
/// "context" at all.
pub open spec fn code_retry_worthy(code: Seq<u8>) -> bool {
    let lc = spec_lower(code);
    ||| lc == "context_length_exceeded".spec_bytes()
    ||| lc == "invalid_json".spec_bytes()
    ||| contains_seq(lc, "context".spec_bytes())
}

/// A failure message asks for a retry when, lower-cased, it mentions any of
/// the fixed phrases indicating size, token-count or encoding problems.
pub open spec fn message_retry_worthy(msg: Seq<u8>) -> bool {
    let lm = spec_lower(msg);
    ||| contains_seq(lm, "too large".spec_bytes())
    ||| contains_seq(lm, "message is too long".spec_bytes())
    ||| contains_seq(lm, "maximum context length".spec_bytes())
    ||| contains_seq(lm, "context length".spec_bytes())
    ||| contains_seq(lm, "reduce".spec_bytes())
    ||| contains_seq(lm, "token".spec_bytes())
    ||| contains_seq(lm, "request is too large".spec_bytes())
    ||| contains_seq(lm, "unicode decode error".spec_bytes())
    ||| contains_seq(lm, "invalid unicode".spec_bytes())
    ||| contains_seq(lm, "invalid body".spec_bytes())
}

/// The whole policy over the extracted error fields.
pub open spec fn spec_retry_worthy(code: Option<Seq<u8>>, msg: Option<Seq<u8>>) -> bool {
    ||| (code matches Some(c) && code_retry_worthy(c))
    ||| (msg matches Some(m) && message_retry_worthy(m))
}

/// Classify an extracted failure code and message: retry-worthy or
/// terminal.
pub fn retry_worthy(code: Option<&Vec<u8>>, message: Option<&Vec<u8>>) -> (r: bool)
    ensures
        r == spec_retry_worthy(
            match code {
                Some(c) => Some(c@),
                None => None,
            },
            match message {
                Some(m) => Some(m@),
                None => None,
            },
        ),
{
    let mut yes = false;
    if let Some(c) = code {
        let lc = to_lower_copy(c);
        if bytes_eq(&lc, &("context_length_exceeded").as_bytes_vec()) {
            yes = true;
        }
        if bytes_eq(&lc, &("invalid_json").as_bytes_vec()) {
            yes = true;
        }
        if contains_sub(&lc, &("context").as_bytes_vec()) {
            yes = true;
        }
    }
    if let Some(m) = message {
        let lm = to_lower_copy(m);
        if contains_sub(&lm, &("too large").as_bytes_vec()) {
            yes = true;
        }
        if contains_sub(&lm, &("message is too long").as_bytes_vec()) {
            yes = true;
        }
        if contains_sub(&lm, &("maximum context length").as_bytes_vec()) {
            yes = true;
        }
        if contains_sub(&lm, &("context length").as_bytes_vec()) {
            yes = true;
        }
        if contains_sub(&lm, &("reduce").as_bytes_vec()) {
            yes = true;
        }
        if contains_sub(&lm, &("token").as_bytes_vec()) {
            yes = true;
        }
        if contains_sub(&lm, &("request is too large").as_bytes_vec()) {
            yes = true;
        }
        if contains_sub(&lm, &("unicode decode error").as_bytes_vec()) {
            yes = true;
        }
        if contains_sub(&lm, &("invalid unicode").as_bytes_vec()) {
            yes = true;
        }
        if contains_sub(&lm, &("invalid body").as_bytes_vec()) {
            yes = true;
        }
    }
    yes
}

/// Decide from a raw failure payload whether the plan request should be
/// retried without the script context: exactly when the payload's
/// structured error carries a code or message that the policy above
/// accepts. A payload that is empty, is not JSON, or has no error object
/// has no such fields, and is terminal.
pub fn openai_resp_should_retry_without_script(resp_json: &str) -> (r: bool)
    ensures
        r == spec_retry_worthy(spec_error_code(resp_json@), spec_error_message(resp_json@)),
{
    let (code, message) = json_error_fields(resp_json);
    retry_worthy(code.as_ref(), message.as_ref())
}

/// Pull the model's output text out of a planner response: the first
/// `output_text` entry under any `output[i].content[j]`, exactly as the
/// named extraction yields it; nothing when the response is not JSON,
/// carries an `error` object, or has no such entry.
pub fn openai_extract_output_text(resp_json: &str) -> (r: Option<String>)
    ensures
        r matches Some(t) ==> spec_output_text(resp_json@) == Some(t@),
        r is None ==> spec_output_text(resp_json@) is None,
{
    json_output_text(resp_json)
}

/// What a raw planner response yields: the named clip fields, exactly when
/// the response carries an extractable output text that parses as a
/// non-empty strict clip list with 32-bit bounds; nothing otherwise.
pub open spec fn spec_response_plan(s: Seq<char>) -> Option<Seq<(i64, i64, Seq<char>)>> {
    match spec_output_text(s) {
        Some(t) => match spec_plan_fields(t) {
            Some(fs) => if plan_fields_in_range(fs) && fs.len() > 0 {
                Some(fs)
            } else {
                None
            },
            None => None,
        },
        None => None,
    }
}

} // verus!
