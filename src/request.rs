//! Builds the body of a translation request, from a configured template or
//! in the default chat-completion shape.
use vstd::prelude::*;

use crate::json_path::{extract_json_path, extracted, JsonValue};
use crate::text::{chars_of, replace_all, replaced, string_of};

verus! {

/// The JSON string literal, quotes and escapes included, that `serde_json`
/// writes for a string.
pub uninterp spec fn json_string_of(s: Seq<char>) -> Seq<char>;

/// Relies on `serde_json::to_string` to write a string as a JSON string
/// literal.
#[verifier::external_body]
fn json_quote(s: &str) -> (r: Option<String>)
    ensures
        r matches Some(q) ==> q@ == json_string_of(s@),
{
    serde_json::to_string(s).ok()
}

/// How a request is shaped: the model, the temperature written as the
/// template gets it and as a JSON number, and an optional body template with
/// `{{model}}`, `{{prompt}}` and `{{temperature}}` in it.
pub struct RequestShape {
    pub model: String,
    pub temperature: String,
    pub temperature_json: String,
    pub template: Option<String>,
}

/// The template with its placeholders filled in, in the order model, prompt,
/// temperature.
pub open spec fn filled_template(
    t: Seq<char>,
    model: Seq<char>,
    prompt: Seq<char>,
    temperature: Seq<char>,
) -> Seq<char> {
    replaced(
        replaced(replaced(t, "{{model}}"@, model), "{{prompt}}"@, prompt),
        "{{temperature}}"@,
        temperature,
    )
}

/// The default body around an already quoted prompt and model: a JSON object
/// with its keys in sorted order.
pub open spec fn body_around(quoted_prompt: Seq<char>, quoted_model: Seq<char>, temperature: Seq<char>) -> Seq<char> {
    "{\"messages\":[{\"content\":"@ + quoted_prompt + ",\"role\":\"user\"}],\"model\":"@
        + quoted_model + ",\"temperature\":"@ + temperature + "}"@
}

/// The default body for a prompt and a model.
pub open spec fn default_body(model: Seq<char>, prompt: Seq<char>, temperature: Seq<char>) -> Seq<
    char,
> {
    body_around(json_string_of(prompt), json_string_of(model), temperature)
}

/// The default body around a prompt and a model already written as JSON
/// string literals.
pub fn default_body_around(quoted_prompt: &str, quoted_model: &str, temperature: &str) -> (r: String)
    ensures
        r@ == body_around(quoted_prompt@, quoted_model@, temperature@),
{
    let mut r = String::from_str("{\"messages\":[{\"content\":");
    r.append(quoted_prompt);
    r.append(",\"role\":\"user\"}],\"model\":");
    r.append(quoted_model);
    r.append(",\"temperature\":");
    r.append(temperature);
    r.append("}");
    r
}

fn fill(t: &str, placeholder: &str, value: &str) -> (r: Vec<char>)
    ensures
        r@ == replaced(t@, placeholder@, value@),
{
    replace_all(&chars_of(t), &chars_of(placeholder), &chars_of(value))
}

/// The request body for `prompt`. With a template it is always given; without
/// one it is `None` only where a string could not be written as JSON.
pub fn build_request_body(shape: &RequestShape, prompt: &str) -> (r: Option<String>)
    ensures
        shape.template matches Some(t) ==> r matches Some(b) && b@ == filled_template(
            t@,
            shape.model@,
            prompt@,
            shape.temperature@,
        ),
        shape.template is None ==> (r matches Some(b) ==> b@ == default_body(
            shape.model@,
            prompt@,
            shape.temperature_json@,
        )),
{
    match &shape.template {
        Some(t) => {
            let a = fill(t.as_str(), "{{model}}", shape.model.as_str());
            let a = string_of(&a, 0, a.len());
            let b = fill(a.as_str(), "{{prompt}}", prompt);
            let b = string_of(&b, 0, b.len());
            let c = fill(b.as_str(), "{{temperature}}", shape.temperature.as_str());
            proof {
                assert(a@ =~= replaced(t@, "{{model}}"@, shape.model@));
                assert(b@ =~= replaced(a@, "{{prompt}}"@, prompt@));
            }
            let body = string_of(&c, 0, c.len());
            assert(body@ =~= c@);
            Some(body)
        },
        None => {
            let qp = json_quote(prompt);
            let qm = json_quote(shape.model.as_str());
            match (qp, qm) {
                (Some(p), Some(m)) => Some(
                    default_body_around(p.as_str(), m.as_str(), shape.temperature_json.as_str()),
                ),
                _ => None,
            }
        },
    }
}

/// The translation in a response: none where the status was not a success
/// or the body was not JSON, else the string at `path` in the body.
pub fn translation_from_response(success: bool, body: Option<&JsonValue>, path: &str) -> (r: Option<
    String,
>)
    ensures
        !success ==> r is None,
        body is None ==> r is None,
        success && body is Some ==> (r matches Some(t) ==> extracted(*body.unwrap(), path@) == Some(
            t@,
        )) && (r is None ==> extracted(*body.unwrap(), path@) is None),
{
    if !success {
        return None;
    }
    match body {
        Some(v) => extract_json_path(v, path),
        None => None,
    }
}

/// The response path used when none is configured.
pub fn default_response_path() -> (r: String)
    ensures
        r@ == "choices.0.message.content"@,
{
    String::from_str("choices.0.message.content")
}

/// The target language used when none is configured.
pub fn default_language() -> (r: String)
    ensures
        r@ == "zh-CN"@,
{
    String::from_str("zh-CN")
}

/// The rate, in requests per second, for a configured value: 8 when there
/// is none, and at least 1.
pub fn effective_rate(configured: Option<u32>) -> (r: u32)
    ensures
        r == match configured {
            Some(v) => if v < 1 {
                1
            } else {
                v
            },
            None => 8,
        },
{
    match configured {
        Some(v) => if v < 1 {
            1
        } else {
            v
        },
        None => 8,
    }
}

} // verus!
