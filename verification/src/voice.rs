//! Speech: recording the microphone for a fixed time and recognizing it
//! with whisper.cpp, reading a text aloud with piper, and asking the model
//! to rewrite a text in fluent, grammatical form without changing its
//! meaning.
use crate::json::{items_view, json_error_text, message_content, spec_json_valid, spec_message_content, spec_whisper_items, whisper_items};
use crate::stamps::{new_uuid, random_failure_prefix, starts_with};
use crate::text::{append_str, decimal, push_decimal, str_views, trim, trim_str};
use vstd::prelude::*;

verus! {

/// The speech file piper wrote.
pub struct SpeechResult {
    pub wav_path: String,
}

// ---------------------------------------------------------------------
// Specifications
// ---------------------------------------------------------------------

/// The texts of the recognized entries, one after the other.
pub open spec fn spoken_text(items: Seq<(Option<u64>, Option<u64>, Option<Seq<char>>)>) -> Seq<char>
    decreases items.len(),
{
    if items.len() == 0 {
        Seq::empty()
    } else {
        spoken_text(items.drop_last()) + match items.last().2 {
            Some(t) => t,
            None => Seq::empty(),
        }
    }
}

/// What the recognizer's JSON output says was spoken: the entries' texts
/// joined and trimmed.
pub open spec fn transcript_of(raw: Seq<char>) -> Seq<char> {
    trim(
        match spec_whisper_items(raw) {
            Some(items) => spoken_text(items),
            None => Seq::empty(),
        },
    )
}

/// The arguments of ffmpeg that record `secs` seconds of the default
/// microphone as 16 kHz mono into `wav`.
pub open spec fn record_arg_list(secs: u32, wav: Seq<char>) -> Seq<Seq<char>> {
    seq![
        "-y"@,
        "-f"@,
        "pulse"@,
        "-i"@,
        "default"@,
        "-ar"@,
        "16000"@,
        "-ac"@,
        "1"@,
        "-t"@,
        decimal(secs as nat),
        wav,
    ]
}

/// The arguments of whisper.cpp that recognize `wav` in `language`, with
/// JSON output next to it.
pub open spec fn recognize_arg_list(model: Seq<char>, wav: Seq<char>, language: Seq<char>) -> Seq<Seq<char>> {
    seq!["-m"@, model, "-f"@, wav, "-oj"@, "-of"@, wav, "-l"@, language]
}

pub open spec fn refine_head() -> &'static str {
    "Aşağıdaki metni "
}

pub open spec fn refine_middle() -> &'static str {
    " dilinde, dilbilgisi kurallarına tamamen uygun, akıcı ve doğal cümlelerle YENİDEN YAZ. Anlamı ASLA değiştirme, hiçbir bilgi ekleme veya çıkarma — sadece cümle kuruluşunu ve dilbilgisini düzelt. SADECE düzeltilmiş metni döndür, başka hiçbir açıklama, önsöz ya da not ekleme.\n\nMetin:\n"
}

pub open spec fn mic_error_head() -> &'static str {
    "Mikrofon kaydı başlatılamadı (ffmpeg + PulseAudio/PipeWire gerekir). Detay: "
}

// ---------------------------------------------------------------------
// Recording and recognition
// ---------------------------------------------------------------------

/// A new temporary file name `/tmp/amorfly_{id}{suffix}` with a fresh
/// random id; the refusal when the random source fails.
pub fn temp_path(suffix: &str) -> (r: Result<String, String>)
    ensures
        r matches Ok(p) ==> exists|id: Seq<char>| id.len() == 36 && p@ == "/tmp/amorfly_"@ + id + suffix@,
        r matches Err(e) ==> starts_with(e@, random_failure_prefix()),
{
    let id = new_uuid()?;
    let mut r = "/tmp/amorfly_".to_owned();
    append_str(&mut r, id.as_str());
    append_str(&mut r, suffix);
    assert(r@ == "/tmp/amorfly_"@ + id@ + suffix@);
    Ok(r)
}

/// The arguments of the microphone recording.
pub fn record_args(duration_secs: u32, wav: &str) -> (r: Vec<String>)
    ensures
        str_views(r@) == record_arg_list(duration_secs, wav@),
{
    let r = vec![
        "-y".to_owned(),
        "-f".to_owned(),
        "pulse".to_owned(),
        "-i".to_owned(),
        "default".to_owned(),
        "-ar".to_owned(),
        "16000".to_owned(),
        "-ac".to_owned(),
        "1".to_owned(),
        "-t".to_owned(),
        crate::text::u64_to_string(duration_secs as u64),
        wav.to_owned(),
    ];
    assert(str_views(r@) =~= record_arg_list(duration_secs, wav@));
    r
}

/// The arguments of the recognition.
pub fn recognize_args(model: &str, wav: &str, language: &str) -> (r: Vec<String>)
    ensures
        str_views(r@) == recognize_arg_list(model@, wav@, language@),
{
    let r = vec![
        "-m".to_owned(),
        model.to_owned(),
        "-f".to_owned(),
        wav.to_owned(),
        "-oj".to_owned(),
        "-of".to_owned(),
        wav.to_owned(),
        "-l".to_owned(),
        language.to_owned(),
    ];
    assert(str_views(r@) =~= recognize_arg_list(model@, wav@, language@));
    r
}

/// The recognizer's JSON output file for `wav`.
pub fn recognition_output_path(wav: &str) -> (r: String)
    ensures
        r@ == wav@ + ".json"@,
{
    let mut r = wav.to_owned();
    append_str(&mut r, ".json");
    r
}

fn mic_error_head_text() -> (s: &'static str)
    ensures
        s@ == mic_error_head()@,
{
    "Mikrofon kaydı başlatılamadı (ffmpeg + PulseAudio/PipeWire gerekir). Detay: "
}

/// The error when the recording cannot be started.
pub fn mic_start_error(detail: &str) -> (r: String)
    ensures
        r@ == mic_error_head()@ + detail@,
{
    let mut r = mic_error_head_text().to_owned();
    append_str(&mut r, detail);
    r
}

/// What was said, from the recognizer's JSON output: the entries' texts
/// joined and trimmed; refused when the output is not JSON (the parser's
/// message) or nothing was recognized.
pub fn transcript_text(raw: &str) -> (r: Result<String, String>)
    ensures
        !spec_json_valid(raw@) ==> r is Err,
        spec_json_valid(raw@) && transcript_of(raw@).len() > 0 ==> r is Ok && r->Ok_0@ == transcript_of(raw@),
        spec_json_valid(raw@) && transcript_of(raw@).len() == 0 ==> r is Err && r->Err_0@
            == "Konuşma algılanamadı — mikrofona daha yakın/açık konuşmayı deneyin."@,
{
    match whisper_items(raw) {
        Err(e) => Err(json_error_text(&e)),
        Ok(items) => {
            let mut text = String::new();
            match &items {
                Some(v) => {
                    let ghost iv = items_view(v@);
                    let mut i: usize = 0;
                    while i < v.len()
                        invariant
                            i <= v@.len(),
                            iv == items_view(v@),
                            text@ == spoken_text(iv.take(i as int)),
                        decreases v.len() - i,
                    {
                        proof {
                            assert(iv.take(i + 1).drop_last() =~= iv.take(i as int));
                            assert(iv.take(i + 1).last() == crate::json::item_view(v@[i as int]));
                        }
                        match &v[i].2 {
                            Some(t) => append_str(&mut text, t.as_str()),
                            None => {
                                assert(text@ + Seq::<char>::empty() =~= text@);
                            },
                        }
                        i = i + 1;
                    }
                    assert(iv.take(i as int) =~= iv);
                },
                None => {},
            }
            let t = trim_str(text.as_str());
            if t.as_str().is_empty() {
                Err("Konuşma algılanamadı — mikrofona daha yakın/açık konuşmayı deneyin.".to_owned())
            } else {
                Ok(t)
            }
        },
    }
}

// ---------------------------------------------------------------------
// Speaking
// ---------------------------------------------------------------------

/// The arguments of ffplay that play `wav` without a window and exit.
pub fn playback_args(wav: &str) -> (r: Vec<String>)
    ensures
        str_views(r@) == seq!["-nodisp"@, "-autoexit"@, "-loglevel"@, "quiet"@, wav@],
{
    let r = vec!["-nodisp".to_owned(), "-autoexit".to_owned(), "-loglevel".to_owned(), "quiet".to_owned(), wav.to_owned()];
    assert(str_views(r@) =~= seq!["-nodisp"@, "-autoexit"@, "-loglevel"@, "quiet"@, wav@]);
    r
}

/// The outcome of a piper run from its exit status.
pub fn speech_outcome(succeeded: bool, wav_path: String) -> (r: Result<SpeechResult, String>)
    ensures
        succeeded ==> r is Ok && r->Ok_0.wav_path@ == wav_path@,
        !succeeded ==> r is Err && r->Err_0@ == "Seslendirme (piper) başarısız oldu."@,
{
    if succeeded {
        Ok(SpeechResult { wav_path })
    } else {
        Err("Seslendirme (piper) başarısız oldu.".to_owned())
    }
}

// ---------------------------------------------------------------------
// Rewriting
// ---------------------------------------------------------------------

fn refine_middle_text() -> (s: &'static str)
    ensures
        s@ == refine_middle()@,
{
    " dilinde, dilbilgisi kurallarına tamamen uygun, akıcı ve doğal cümlelerle YENİDEN YAZ. Anlamı ASLA değiştirme, hiçbir bilgi ekleme veya çıkarma — sadece cümle kuruluşunu ve dilbilgisini düzelt. SADECE düzeltilmiş metni döndür, başka hiçbir açıklama, önsöz ya da not ekleme.\n\nMetin:\n"
}

/// The request that asks the model to rewrite `text` in `target_language`.
pub fn refine_prompt(text: &str, target_language: &str) -> (r: String)
    ensures
        r@ == refine_head()@ + target_language@ + refine_middle()@ + text@,
{
    let mut r = "Aşağıdaki metni ".to_owned();
    append_str(&mut r, target_language);
    append_str(&mut r, refine_middle_text());
    append_str(&mut r, text);
    r
}

/// The rewritten text in a reply body of the local engine: its
/// `message.content`, trimmed.
pub fn refined_reply(body: &str) -> (r: Result<String, String>)
    ensures
        !spec_json_valid(body@) ==> r is Err && r->Err_0@ == crate::json::body_decode_message(),
        spec_json_valid(body@) ==> match spec_message_content(body@) {
            Some(c) => r is Ok && r->Ok_0@ == trim(c),
            None => r is Err && r->Err_0@ == "Dil düzeltmesi başarısız oldu."@,
        },
{
    match message_content(body) {
        Err(_) => Err(crate::json::body_decode_error()),
        Ok(None) => Err("Dil düzeltmesi başarısız oldu.".to_owned()),
        Ok(Some(c)) => Ok(trim_str(c.as_str())),
    }
}

} // verus!
