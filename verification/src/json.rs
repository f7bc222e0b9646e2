//! Reading the JSON replies of the local engine, the online provider, the
//! translation server and the speech recognizer. serde_json parses; the
//! library decides what each reply means.
use vstd::prelude::*;

verus! {

/// `serde_json::Error`.
#[verifier::external_type_specification]
#[verifier::external_body]
pub struct ExJsonError(serde_json::Error);

/// Whether `serde_json::from_str::<serde_json::Value>` accepts the text.
pub uninterp spec fn spec_json_valid(text: Seq<char>) -> bool;

/// `value["message"]["content"].as_str()` of the parsed text.
pub uninterp spec fn spec_message_content(text: Seq<char>) -> Option<Seq<char>>;

/// `value["choices"][0]["message"]["content"].as_str()` of the parsed text.
pub uninterp spec fn spec_choice_content(text: Seq<char>) -> Option<Seq<char>>;

/// `value.get("translatedText").and_then(|t| t.as_str())` of the parsed text.
pub uninterp spec fn spec_translated_text(text: Seq<char>) -> Option<Seq<char>>;

/// The entries of `value["transcription"].as_array()` of the parsed text, each
/// as `(["offsets"]["from"].as_u64(), ["offsets"]["to"].as_u64(),
/// ["text"].as_str())`.
pub uninterp spec fn spec_whisper_items(text: Seq<char>) -> Option<
    Seq<(Option<u64>, Option<u64>, Option<Seq<char>>)>,
>;

/// The entries of `value["models"].as_array()` of the parsed text, each as
/// `["name"].as_str()`.
pub uninterp spec fn spec_model_names(text: Seq<char>) -> Option<Seq<Option<Seq<char>>>>;

/// `serde_json::from_str::<Vec<String>>` of the text, if it succeeds.
pub uninterp spec fn spec_string_list(text: Seq<char>) -> Option<Seq<Seq<char>>>;

/// The text reqwest's `Response::json` fails with when the body is not
/// JSON: the `Display` of its decode error, which is the fixed text of that
/// error kind (the error carries no URL).
pub open spec fn body_decode_message() -> Seq<char> {
    "error decoding response body"@
}

/// The refusal of a response body that is not JSON (see
/// [`body_decode_message`]).
pub fn body_decode_error() -> (r: String)
    ensures
        r@ == body_decode_message(),
{
    "error decoding response body".to_owned()
}

/// An optional string as plain characters.
pub open spec fn opt_str(o: Option<String>) -> Option<Seq<char>> {
    match o {
        Some(s) => Some(s@),
        None => None,
    }
}

/// A whisper entry as plain values.
pub open spec fn item_view(i: (Option<u64>, Option<u64>, Option<String>)) -> (
    Option<u64>,
    Option<u64>,
    Option<Seq<char>>,
) {
    (i.0, i.1, opt_str(i.2))
}

/// Whisper entries as plain values.
pub open spec fn items_view(v: Seq<(Option<u64>, Option<u64>, Option<String>)>) -> Seq<
    (Option<u64>, Option<u64>, Option<Seq<char>>),
> {
    v.map_values(|i: (Option<u64>, Option<u64>, Option<String>)| item_view(i))
}

/// Optional strings as plain values.
pub open spec fn opt_strs(v: Seq<Option<String>>) -> Seq<Option<Seq<char>>> {
    v.map_values(|o: Option<String>| opt_str(o))
}

/// `serde_json` reading `["message"]["content"]` of a local-engine reply:
/// `Ok` exactly when the text is JSON, then with the named field.
#[verifier::external_body]
pub(crate) fn message_content(text: &str) -> (r: Result<Option<String>, serde_json::Error>)
    ensures
        (r is Ok) == spec_json_valid(text@),
        r is Ok ==> opt_str(r->Ok_0) == spec_message_content(text@),
{
    let v: serde_json::Value = serde_json::from_str(text)?;
    Ok(v["message"]["content"].as_str().map(|s| s.to_string()))
}

/// `serde_json` reading `["choices"][0]["message"]["content"]` of an online
/// provider's reply: `Ok` exactly when the text is JSON, then with the named
/// field.
#[verifier::external_body]
pub(crate) fn choice_content(text: &str) -> (r: Result<Option<String>, serde_json::Error>)
    ensures
        (r is Ok) == spec_json_valid(text@),
        r is Ok ==> opt_str(r->Ok_0) == spec_choice_content(text@),
{
    let v: serde_json::Value = serde_json::from_str(text)?;
    Ok(v["choices"][0]["message"]["content"].as_str().map(|s| s.to_string()))
}

/// `serde_json` reading `translatedText` of a translation server's reply:
/// `Ok` exactly when the text is JSON, then with the named field.
#[verifier::external_body]
pub(crate) fn translated_text(text: &str) -> (r: Result<Option<String>, serde_json::Error>)
    ensures
        (r is Ok) == spec_json_valid(text@),
        r is Ok ==> opt_str(r->Ok_0) == spec_translated_text(text@),
{
    let v: serde_json::Value = serde_json::from_str(text)?;
    Ok(v.get("translatedText").and_then(|t| t.as_str()).map(|s| s.to_string()))
}

/// `serde_json` reading the `transcription` entries of a whisper.cpp JSON
/// output: `Ok` exactly when the text is JSON, then with the named entries.
#[verifier::external_body]
pub(crate) fn whisper_items(text: &str) -> (r: Result<
    Option<Vec<(Option<u64>, Option<u64>, Option<String>)>>,
    serde_json::Error,
>)
    ensures
        (r is Ok) == spec_json_valid(text@),
        r is Ok ==> match r->Ok_0 {
            Some(v) => spec_whisper_items(text@) == Some(items_view(v@)),
            None => spec_whisper_items(text@) is None,
        },
{
    let v: serde_json::Value = serde_json::from_str(text)?;
    let items = v["transcription"].as_array().map(|arr| {
        arr.iter().map(|seg| (seg["offsets"]["from"].as_u64(), seg["offsets"]["to"].as_u64(),
            seg["text"].as_str().map(|s| s.to_string()))).collect()
    });
    Ok(items)
}

/// `serde_json` reading the `models` entries of the local engine's model
/// list: `Ok` exactly when the text is JSON, then with the named entries.
#[verifier::external_body]
pub(crate) fn model_names(text: &str) -> (r: Result<Option<Vec<Option<String>>>, serde_json::Error>)
    ensures
        (r is Ok) == spec_json_valid(text@),
        r is Ok ==> match r->Ok_0 {
            Some(v) => spec_model_names(text@) == Some(opt_strs(v@)),
            None => spec_model_names(text@) is None,
        },
{
    let v: serde_json::Value = serde_json::from_str(text)?;
    let names = v["models"].as_array().map(|arr| {
        arr.iter().map(|m| m["name"].as_str().map(|s| s.to_string())).collect()
    });
    Ok(names)
}

/// `serde_json::from_str::<Vec<String>>`: the named list when it parses.
#[verifier::external_body]
pub(crate) fn string_list(text: &str) -> (r: Option<Vec<String>>)
    ensures
        match r {
            Some(v) => spec_string_list(text@) == Some(crate::text::str_views(v@)),
            None => spec_string_list(text@) is None,
        },
{
    serde_json::from_str::<Vec<String>>(text).ok()
}

/// The `Display` text of a JSON error; nothing is stated of it.
#[verifier::external_body]
pub(crate) fn json_error_text(e: &serde_json::Error) -> String {
    e.to_string()
}

} // verus!
