use vstd::prelude::*;
use vstd::string::StringSliceAdditionalSpecFns;

use crate::json::{json_config_fields, spec_config_fields};
use crate::text::push_bytes;

verus! {

/// API credentials and voice/model identifiers, loaded once and read-only
/// for the whole run.
#[derive(Debug, Clone)]
pub struct Config {
    pub openai_key: String,
    pub elevenlabs_key: String,
    pub eleven_voice_id: String,
    pub eleven_model_id: String,
}

/// The built-in narration voice, used when the configuration names none.
pub fn default_voice_id() -> (r: String)
    ensures
        r@ == "JBFqnCBsd6RMkjVDRZzb"@,
{
    ("JBFqnCBsd6RMkjVDRZzb").to_owned()
}

/// The built-in narration model, used when the configuration names none.
pub fn default_model_id() -> (r: String)
    ensures
        r@ == "eleven_multilingual_v2"@,
{
    ("eleven_multilingual_v2").to_owned()
}

/// Why a configuration cannot be used.
#[derive(Clone, Copy, Debug, PartialEq, Eq, Structural)]
pub enum ConfigError {
    EmptyOpenAiKey,
    EmptyElevenLabsKey,
}

impl ConfigError {
    /// A human-readable account of the problem.
    pub fn message(&self) -> (r: String)
        ensures
            *self == ConfigError::EmptyOpenAiKey ==> r@
                == "config.json: open_api_key is empty. Please add your OpenAI API key."@,
            *self == ConfigError::EmptyElevenLabsKey ==> r@
                == "config.json: elevenlabs_api_key is empty. Please add your ElevenLabs API key."@,
    {
        match self {
            ConfigError::EmptyOpenAiKey => (
            "config.json: open_api_key is empty. Please add your OpenAI API key."
            ).to_owned(),
            ConfigError::EmptyElevenLabsKey => (
            "config.json: elevenlabs_api_key is empty. Please add your ElevenLabs API key."
            ).to_owned(),
        }
    }
}

impl Config {
    /// Parse the configuration file's JSON: the two API keys are required
    /// string fields, and the voice and model identifiers fall back to the
    /// built-in defaults exactly when absent. The result carries the named
    /// fields, and parsing fails exactly when the named extraction does.
    pub fn from_json_text(text: &str) -> (r: Option<Config>)
        ensures
            r matches Some(c) ==> (spec_config_fields(text@) matches Some(f) && {
                &&& c.openai_key@ == f.0
                &&& c.elevenlabs_key@ == f.1
                &&& c.eleven_voice_id@ == (match f.2 {
                    Some(v) => v,
                    None => "JBFqnCBsd6RMkjVDRZzb"@,
                })
                &&& c.eleven_model_id@ == (match f.3 {
                    Some(m) => m,
                    None => "eleven_multilingual_v2"@,
                })
            }),
            r is None ==> spec_config_fields(text@) is None,
    {
        let f = match json_config_fields(text) {
            Some(f) => f,
            None => {
                return None;
            },
        };
        let (openai_key, elevenlabs_key, voice, model) = f;
        let eleven_voice_id = match voice {
            Some(v) => v,
            None => default_voice_id(),
        };
        let eleven_model_id = match model {
            Some(m) => m,
            None => default_model_id(),
        };
        Some(Config { openai_key, elevenlabs_key, eleven_voice_id, eleven_model_id })
    }

    /// A configuration is usable exactly when both API keys are non-empty.
    /// The missing OpenAI key is reported first, as the more fundamental.
    pub fn validate(&self) -> (r: Result<(), ConfigError>)
        ensures
            self.openai_key@.len() == 0 ==> r == Result::<(), ConfigError>::Err(
                ConfigError::EmptyOpenAiKey,
            ),
            self.openai_key@.len() > 0 && self.elevenlabs_key@.len() == 0 ==> r == Result::<
                (),
                ConfigError,
            >::Err(ConfigError::EmptyElevenLabsKey),
            self.openai_key@.len() > 0 && self.elevenlabs_key@.len() > 0 ==> r is Ok,
    {
        if self.openai_key.as_str().is_empty() {
            return Err(ConfigError::EmptyOpenAiKey);
        }
        if self.elevenlabs_key.as_str().is_empty() {
            return Err(ConfigError::EmptyElevenLabsKey);
        }
        Ok(())
    }
}

/// The configuration file written when none exists: empty keys to fill in,
/// and the default voice and model.
pub fn default_config_json() -> (r: Vec<u8>)
    ensures
        r@
            == "{\n  \"open_api_key\": \"\",\n  \"elevenlabs_api_key\": \"\",\n  \"eleven_voice_id\": \"JBFqnCBsd6RMkjVDRZzb\",\n  \"eleven_model_id\": \"eleven_multilingual_v2\"\n}".spec_bytes(),
{
    let mut out: Vec<u8> = Vec::new();
    push_bytes(
        &mut out,
        "{\n  \"open_api_key\": \"\",\n  \"elevenlabs_api_key\": \"\",\n  \"eleven_voice_id\": \"JBFqnCBsd6RMkjVDRZzb\",\n  \"eleven_model_id\": \"eleven_multilingual_v2\"\n}",
    );
    assert(out@ =~= Seq::<u8>::empty()
        + "{\n  \"open_api_key\": \"\",\n  \"elevenlabs_api_key\": \"\",\n  \"eleven_voice_id\": \"JBFqnCBsd6RMkjVDRZzb\",\n  \"eleven_model_id\": \"eleven_multilingual_v2\"\n}".spec_bytes());
    out
}

} // verus!
