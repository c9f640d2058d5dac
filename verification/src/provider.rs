//! The provider client. A transformation request is dispatched to the
//! backend named in the configuration: the local model server gets a JSON
//! generation request built here and its answer is read and sanitized here;
//! the cloud backend deliberately fails until it is implemented. The HTTP
//! exchange itself happens at the unverified edge, which hands back the
//! status and body text. JSON encoding and decoding rely on serde_json
//! through the trusted wrappers below.
use vstd::prelude::*;
use vstd::string::*;

use crate::config::Config;
use crate::sanitize::sanitize;
use crate::sanitize::sanitize_spec;
use crate::text::str_eq;

verus! {

broadcast use vstd::string::group_string_axioms;

/// The timeout for the model-catalog request, kept short so a hung local
/// server cannot block a settings screen.
pub const MODEL_LIST_TIMEOUT_MS: u64 = 2000;

/// The closed set of transformation backends.
#[derive(Clone, Copy, Debug, PartialEq, Eq, Structural)]
pub enum Provider {
    /// The local model server.
    Ollama,
    /// The cloud backend; present in the dispatch, not yet implemented.
    OpenAi,
}

/// Why a transformation failed, each kind told apart so a caller can
/// distinguish "could not reach the server" from "reached it and got
/// garbage".
#[derive(Clone, Debug, PartialEq, Eq)]
pub enum TransformError {
    /// The configured provider name maps to no known backend.
    UnknownProvider,
    /// The provider exists but this build does not implement it.
    NotSupported,
    /// No HTTP answer arrived; holds the transport's own message.
    Transport(String),
    /// The backend answered with this non-success HTTP status.
    Status(u16),
    /// The backend's body was not the expected JSON shape.
    Format,
}

/// Why listing the local models failed.
#[derive(Clone, Debug, PartialEq, Eq)]
pub enum ListModelsError {
    /// The catalog endpoint could not be reached in time.
    Connect,
    /// The catalog endpoint answered with this non-success HTTP status.
    Status(u16),
    /// The catalog body was not the expected JSON shape.
    Parse,
}

/// The digit character for one decimal digit.
pub open spec fn digit_char(d: nat) -> char {
    ((48 + d) as u8) as char
}

/// The decimal digits of `n`, most significant first.
pub open spec fn dec_digits(n: nat) -> Seq<char>
    decreases n,
{
    if n < 10 {
        seq![digit_char(n)]
    } else {
        dec_digits(n / 10) + seq![digit_char(n % 10)]
    }
}

fn digit_str(d: u16) -> (r: &'static str)
    requires
        d < 10,
    ensures
        r@ == seq![digit_char(d as nat)],
{
    proof {
        reveal_strlit("0");
        reveal_strlit("1");
        reveal_strlit("2");
        reveal_strlit("3");
        reveal_strlit("4");
        reveal_strlit("5");
        reveal_strlit("6");
        reveal_strlit("7");
        reveal_strlit("8");
        reveal_strlit("9");
    }
    let r = if d == 0 {
        "0"
    } else if d == 1 {
        "1"
    } else if d == 2 {
        "2"
    } else if d == 3 {
        "3"
    } else if d == 4 {
        "4"
    } else if d == 5 {
        "5"
    } else if d == 6 {
        "6"
    } else if d == 7 {
        "7"
    } else if d == 8 {
        "8"
    } else {
        "9"
    };
    proof {
        assert(r@ =~= seq![digit_char(d as nat)]);
    }
    r
}

/// Renders a status code in decimal.
pub fn u16_dec(n: u16) -> (r: String)
    ensures
        r@ == dec_digits(n as nat),
    decreases n,
{
    if n < 10 {
        String::from_str(digit_str(n))
    } else {
        let mut s = u16_dec(n / 10);
        s.append(digit_str(n % 10));
        s
    }
}

impl TransformError {
    /// The user-facing description of the failure.
    pub fn message(&self) -> (r: String)
        ensures
            *self is UnknownProvider ==> r@ == "Unknown LLM provider"@,
            *self is NotSupported ==> r@
                == "OpenAI support not yet verified. Please switch to Ollama."@,
            *self matches TransformError::Transport(e) ==> r@ == "Request failed: "@ + e@,
            *self matches TransformError::Status(c) ==> r@ == "Ollama error: "@ + dec_digits(
                c as nat,
            ),
            *self is Format ==> r@ == "Invalid response format"@,
    {
        match self {
            TransformError::UnknownProvider => String::from_str("Unknown LLM provider"),
            TransformError::NotSupported => String::from_str(
                "OpenAI support not yet verified. Please switch to Ollama.",
            ),
            TransformError::Transport(e) => {
                let mut s = String::from_str("Request failed: ");
                s.append(e.as_str());
                s
            },
            TransformError::Status(c) => {
                let mut s = String::from_str("Ollama error: ");
                let d = u16_dec(*c);
                s.append(d.as_str());
                s
            },
            TransformError::Format => String::from_str("Invalid response format"),
        }
    }
}

impl ListModelsError {
    /// The user-facing description of the failure.
    pub fn message(&self) -> (r: String)
        ensures
            *self is Connect ==> r@ == "Failed to connect to Ollama"@,
            *self matches ListModelsError::Status(c) ==> r@ == "Ollama API returned "@
                + dec_digits(c as nat),
            *self is Parse ==> r@ == "Invalid model list format"@,
    {
        match self {
            ListModelsError::Connect => String::from_str("Failed to connect to Ollama"),
            ListModelsError::Status(c) => {
                let mut s = String::from_str("Ollama API returned ");
                let d = u16_dec(*c);
                s.append(d.as_str());
                s
            },
            ListModelsError::Parse => String::from_str("Invalid model list format"),
        }
    }
}

/// The string found at `key` of the JSON object in `body`, if the body is a
/// JSON object holding a string there; a function of the two texts alone.
pub uninterp spec fn json_str_field(body: Seq<char>, key: Seq<char>) -> Option<Seq<char>>;

/// Relies on serde_json::from_str and serde_json::Value::{get, as_str}:
/// parses `body` and picks the string at `key` of the resulting object.
#[verifier::external_body]
fn json_string_field(body: &str, key: &str) -> (r: Option<String>)
    ensures
        r matches Some(s) ==> json_str_field(body@, key@) == Some(s@),
        r is None ==> json_str_field(body@, key@) is None,
{
    match serde_json::from_str::<serde_json::Value>(body) {
        Ok(v) => match v.get(key) {
            Some(f) => f.as_str().map(|s| s.to_string()),
            None => None,
        },
        Err(_) => None,
    }
}

/// The strings found at `item_key` of each object of the array at
/// `list_key` of the JSON object in `body`, if the body has exactly that
/// shape; a function of the three texts alone.
pub uninterp spec fn json_str_list_field(
    body: Seq<char>,
    list_key: Seq<char>,
    item_key: Seq<char>,
) -> Option<Seq<Seq<char>>>;

/// Relies on serde_json::from_str and serde_json::Value::{get, as_array,
/// as_str}: parses `body` and collects the string at `item_key` of every
/// element of the array at `list_key`; any element without one fails the
/// whole reading, as a typed deserialization would.
#[verifier::external_body]
fn json_string_list_field(body: &str, list_key: &str, item_key: &str) -> (r: Option<Vec<String>>)
    ensures
        r matches Some(v) ==> json_str_list_field(body@, list_key@, item_key@) == Some(
            v@.map_values(|s: String| s@),
        ),
        r is None ==> json_str_list_field(body@, list_key@, item_key@) is None,
{
    let parsed: Result<serde_json::Value, _> = serde_json::from_str(body);
    let Ok(v) = parsed else { return None };
    let arr = v.get(list_key)?.as_array()?;
    let mut out = Vec::with_capacity(arr.len());
    for item in arr {
        out.push(item.get(item_key)?.as_str()?.to_string());
    }
    Some(out)
}

/// The JSON string literal encoding `s`, quotes and escapes included; a
/// function of `s` alone.
pub uninterp spec fn json_quoted(s: Seq<char>) -> Seq<char>;

/// Relies on serde_json's rendering of Value::String: one JSON string
/// literal holding `s`.
#[verifier::external_body]
fn json_string_literal(s: &str) -> (r: String)
    ensures
        r@ == json_quoted(s@),
{
    serde_json::Value::String(s.to_string()).to_string()
}

/// The single prompt handed to the local model: the system text, a blank
/// line and an input marker, then the user's text.
pub open spec fn prompt_spec(system: Seq<char>, input: Seq<char>) -> Seq<char> {
    system + "\n\nInput:\n"@ + input
}

/// Builds the prompt `prompt_spec` describes.
pub fn build_prompt(system: &str, input: &str) -> (r: String)
    ensures
        r@ == prompt_spec(system@, input@),
{
    let mut s = String::from_str(system);
    s.append("\n\nInput:\n");
    s.append(input);
    s
}

/// The body of a generation request: the model, the full prompt, and
/// streaming turned off.
pub open spec fn generate_body_spec(model: Seq<char>, prompt: Seq<char>) -> Seq<char> {
    "{\"model\":"@ + json_quoted(model) + ",\"prompt\":"@ + json_quoted(prompt)
        + ",\"stream\":false}"@
}

/// Builds the JSON body `generate_body_spec` describes.
pub fn build_generate_body(model: &str, prompt: &str) -> (r: String)
    ensures
        r@ == generate_body_spec(model@, prompt@),
{
    let mut s = String::from_str("{\"model\":");
    let quoted_model = json_string_literal(model);
    s.append(quoted_model.as_str());
    s.append(",\"prompt\":");
    let quoted_prompt = json_string_literal(prompt);
    s.append(quoted_prompt.as_str());
    s.append(",\"stream\":false}");
    s
}

/// The generation endpoint under a base URL.
pub fn generate_url(base_url: &str) -> (r: String)
    ensures
        r@ == base_url@ + "/api/generate"@,
{
    let mut s = String::from_str(base_url);
    s.append("/api/generate");
    s
}

/// The model-catalog endpoint under a base URL.
pub fn tags_url(base_url: &str) -> (r: String)
    ensures
        r@ == base_url@ + "/api/tags"@,
{
    let mut s = String::from_str(base_url);
    s.append("/api/tags");
    s
}

/// The backend a provider name denotes; an unknown name is a handled
/// error, never a crash.
pub fn route_provider(name: &str) -> (r: Result<Provider, TransformError>)
    ensures
        name@ == "ollama"@ ==> r == Ok::<Provider, TransformError>(Provider::Ollama),
        name@ == "openai"@ ==> r == Ok::<Provider, TransformError>(Provider::OpenAi),
        name@ != "ollama"@ && name@ != "openai"@ ==> r == Err::<Provider, TransformError>(
            TransformError::UnknownProvider,
        ),
{
    proof {
        lemma_provider_names_differ();
    }
    if str_eq(name, "ollama") {
        Ok(Provider::Ollama)
    } else if str_eq(name, "openai") {
        Ok(Provider::OpenAi)
    } else {
        Err(TransformError::UnknownProvider)
    }
}

proof fn lemma_provider_names_differ()
    ensures
        "ollama"@ != "openai"@,
{
    reveal_strlit("ollama");
    reveal_strlit("openai");
    assert("ollama"@[1] == 'l');
    assert("openai"@[1] == 'p');
}

/// Everything the transport needs to send one generation request to the
/// local backend.
pub struct GenerateRequest {
    pub url: String,
    pub body: String,
}

/// The dispatch of one transformation request: the local backend yields the
/// exact request to send; the cloud backend deterministically fails as not
/// supported; an unknown provider name is an error of its own.
pub fn plan_transform(config: &Config, system_prompt: &str, input: &str) -> (r: Result<
    GenerateRequest,
    TransformError,
>)
    ensures
        config.llm_provider@ == "ollama"@ ==> (r matches Ok(q)
            && q.url@ == config.ollama_base_url@ + "/api/generate"@
            && q.body@ == generate_body_spec(
            config.ollama_model@,
            prompt_spec(system_prompt@, input@),
        )),
        config.llm_provider@ == "openai"@ ==> r == Err::<GenerateRequest, TransformError>(
            TransformError::NotSupported,
        ),
        config.llm_provider@ != "ollama"@ && config.llm_provider@ != "openai"@ ==> r == Err::<
            GenerateRequest,
            TransformError,
        >(TransformError::UnknownProvider),
{
    let routed = route_provider(config.llm_provider.as_str());
    match routed {
        Ok(Provider::Ollama) => {
            let url = generate_url(config.ollama_base_url.as_str());
            let prompt = build_prompt(system_prompt, input);
            let body = build_generate_body(config.ollama_model.as_str(), prompt.as_str());
            Ok(GenerateRequest { url, body })
        },
        Ok(Provider::OpenAi) => Err(TransformError::NotSupported),
        Err(e) => Err(e),
    }
}

/// Whether an HTTP status reports success.
pub open spec fn is_success_status(status: u16) -> bool {
    200 <= status < 300
}

/// Reads the local backend's answer to a generation request: a non-success
/// status is a status error; a body without a string `response` field is a
/// format error; otherwise the answer is the `response` text, sanitized.
pub fn generate_outcome(status: u16, body: &str) -> (r: Result<String, TransformError>)
    ensures
        !is_success_status(status) ==> r == Err::<String, TransformError>(TransformError::Status(
            status,
        )),
        is_success_status(status) ==> (match json_str_field(body@, "response"@) {
            Some(t) => r matches Ok(out) && out@ == sanitize_spec(t),
            None => r == Err::<String, TransformError>(TransformError::Format),
        }),
{
    if !(200 <= status && status < 300) {
        return Err(TransformError::Status(status));
    }
    match json_string_field(body, "response") {
        None => Err(TransformError::Format),
        Some(t) => Ok(sanitize(t.as_str())),
    }
}

/// Reads the catalog's answer to a model-listing request: a non-success
/// status is a status error; a body that is not an object with a `models`
/// array of named entries is a parse error; otherwise the model names, in
/// the catalog's order — never silently empty on failure.
pub fn tags_outcome(status: u16, body: &str) -> (r: Result<Vec<String>, ListModelsError>)
    ensures
        !is_success_status(status) ==> r == Err::<Vec<String>, ListModelsError>(
            ListModelsError::Status(status),
        ),
        is_success_status(status) ==> (match json_str_list_field(body@, "models"@, "name"@) {
            Some(names) => r matches Ok(v) && v@.map_values(|s: String| s@) == names,
            None => r == Err::<Vec<String>, ListModelsError>(ListModelsError::Parse),
        }),
{
    if !(200 <= status && status < 300) {
        return Err(ListModelsError::Status(status));
    }
    match json_string_list_field(body, "models", "name") {
        None => Err(ListModelsError::Parse),
        Some(v) => Ok(v),
    }
}

} // verus!
