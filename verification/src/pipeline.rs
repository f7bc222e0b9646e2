//! The steps of the subtitle and dubbing pipeline around the subtitle
//! formats: the command lines of ffmpeg and whisper.cpp, which translation
//! engine runs, how the translation server is addressed and how often
//! progress is reported, what the user is told, and the plan of a dub: one
//! speech file per subtitle, their concatenation list, and the files that
//! come out.
use crate::json::{message_content, spec_json_valid, spec_message_content, spec_translated_text, translated_text};
use crate::subtitles::{parse_srt, sibling, sibling_path, spec_file_stem, srt_parse, srt_seg_texts, SubtitleProgress, SubtitleSegment};
use crate::text::{append_str, decimal, push_decimal, push_padded, str_eq, str_views, to_chars, trim, trim_end_char, trim_end_char_index, trim_str, zero_pad, string_of_range};
use vstd::prelude::*;

verus! {

/// Everything a dub needs, decided before any speech is synthesized.
pub struct DubPlan {
    /// The text of each subtitle, in order.
    pub texts: Vec<String>,
    /// The directory the speech files go to.
    pub work_dir: String,
    /// The speech file of each subtitle.
    pub segment_wavs: Vec<String>,
    /// The concatenation list handed to ffmpeg.
    pub concat_list: String,
    pub list_path: String,
    /// The joined speech track.
    pub dub_audio: String,
    /// The dubbed video.
    pub output_video: String,
}

// ---------------------------------------------------------------------
// Specifications
// ---------------------------------------------------------------------

/// The ffmpeg arguments that extract 16 kHz mono PCM audio for whisper.cpp.
pub open spec fn extract_arg_list(video: Seq<char>, wav: Seq<char>) -> Seq<Seq<char>> {
    seq!["-y"@, "-i"@, video, "-ar"@, "16000"@, "-ac"@, "1"@, "-c:a"@, "pcm_s16le"@, wav]
}

/// The speech file of subtitle `i`: `{work_dir}/{i:04}.wav`.
pub open spec fn segment_wav(work_dir: Seq<char>, i: nat) -> Seq<char> {
    work_dir + "/"@ + zero_pad(decimal(i), 4) + ".wav"@
}

/// The concatenation list: one `file '{path}'` line per speech file.
pub open spec fn concat_lines(wavs: Seq<Seq<char>>) -> Seq<char>
    decreases wavs.len(),
{
    if wavs.len() == 0 {
        Seq::empty()
    } else {
        concat_lines(wavs.drop_last()) + "file '"@ + wavs.last() + "'\n"@
    }
}

/// The plan of a dub as plain values: texts, work directory, speech files,
/// concatenation list, list path, speech track, dubbed video.
pub open spec fn dub_plan_spec(video: Seq<char>, srt_content: Seq<char>) -> Option<
    (Seq<Seq<char>>, Seq<char>, Seq<Seq<char>>, Seq<char>, Seq<char>, Seq<char>, Seq<char>),
> {
    let texts = srt_parse(srt_content);
    if texts.len() == 0 {
        None
    } else {
        let work_dir = video + ".dub_segments"@;
        let wavs = Seq::new(texts.len(), |i: int| segment_wav(work_dir, i as nat));
        Some(
            (
                texts,
                work_dir,
                wavs,
                concat_lines(wavs),
                work_dir + "/list.txt"@,
                video + ".dub.wav"@,
                sibling(video, ".dublajli.mp4"@),
            ),
        )
    }
}

/// A plan as plain values.
pub open spec fn plan_view(p: DubPlan) -> (
    Seq<Seq<char>>,
    Seq<char>,
    Seq<Seq<char>>,
    Seq<char>,
    Seq<char>,
    Seq<char>,
    Seq<char>,
) {
    (
        str_views(p.texts@),
        p.work_dir@,
        str_views(p.segment_wavs@),
        p.concat_list@,
        p.list_path@,
        p.dub_audio@,
        p.output_video@,
    )
}

/// The ffmpeg arguments that mux the video with the dubbed speech track.
pub open spec fn mux_arg_list(video: Seq<char>, audio: Seq<char>, output: Seq<char>) -> Seq<Seq<char>> {
    seq![
        "-y"@,
        "-i"@,
        video,
        "-i"@,
        audio,
        "-map"@,
        "0:v:0"@,
        "-map"@,
        "1:a:0"@,
        "-c:v"@,
        "copy"@,
        "-shortest"@,
        output,
    ]
}

/// Whether progress is reported after segment `i` of `total` (counting
/// from 0): after every fifth one and after the last.
pub open spec fn reports_after(i: nat, total: nat) -> bool {
    (i + 1) % 5 == 0 || i + 1 == total
}

pub open spec fn libretranslate_unreachable_tail() -> &'static str {
    "). Çalıştığından emin ol: docker run -ti -p 5000:5000 libretranslate/libretranslate — Detay: "
}

pub open spec fn no_speech_head() -> &'static str {
    "Videoda konuşma tespit edilemedi. Teşhis: ses dosyası "
}

pub open spec fn no_speech_tail() -> &'static str {
    " KB olarak çıkarıldı. Eğer bu süre videonun gerçek uzunluğuna yakınsa ama içinde konuşma varsa, whisper.cpp modeli (küçük 'small' model bazı aksan/arka plan gürültüsünde zorlanabilir — 'medium' modeli dene) ya da sesin çok kısık olması sebep olabilir. Süre 0 ya da çok küçükse, videonun ses kanalı olmayabilir ya da ffmpeg'in desteklemediği bir codec kullanıyor olabilir."
}

// ---------------------------------------------------------------------
// Audio extraction and recognition
// ---------------------------------------------------------------------

/// The temporary audio file of a video: `{video}.amorfly.wav`.
pub fn temp_wav_path(video: &str) -> (r: String)
    ensures
        r@ == video@ + ".amorfly.wav"@,
{
    let mut r = video.to_owned();
    append_str(&mut r, ".amorfly.wav");
    r
}

/// The ffmpeg arguments that extract the audio whisper.cpp reads.
pub fn extract_audio_args(video: &str, out_wav: &str) -> (r: Vec<String>)
    ensures
        str_views(r@) == extract_arg_list(video@, out_wav@),
{
    let r = vec![
        "-y".to_owned(),
        "-i".to_owned(),
        video.to_owned(),
        "-ar".to_owned(),
        "16000".to_owned(),
        "-ac".to_owned(),
        "1".to_owned(),
        "-c:a".to_owned(),
        "pcm_s16le".to_owned(),
        out_wav.to_owned(),
    ];
    assert(str_views(r@) =~= extract_arg_list(video@, out_wav@));
    r
}

/// The error when whisper.cpp cannot be started.
pub fn whisper_missing_error(whisper_bin: &str, detail: &str) -> (r: String)
    ensures
        r@ == "whisper.cpp binary'si ('"@ + whisper_bin@ + "') bulunamadı. Kurulum: github.com/ggerganov/whisper.cpp. Detay: "@
            + detail@,
{
    let mut r = "whisper.cpp binary'si ('".to_owned();
    append_str(&mut r, whisper_bin);
    append_str(&mut r, "') bulunamadı. Kurulum: github.com/ggerganov/whisper.cpp. Detay: ");
    append_str(&mut r, detail);
    r
}

/// Whether whisper.cpp's own voice-activity detection is used: a model
/// path that is not blank.
pub fn uses_vad(vad_model_path: &str) -> (r: bool)
    ensures
        r == (trim(vad_model_path@).len() > 0),
{
    let t = trim_str(vad_model_path);
    !t.as_str().is_empty()
}

/// The periodic "still recognizing" report.
pub fn recognizing_progress(using_vad: bool, elapsed_secs: u64) -> (r: SubtitleProgress)
    ensures
        r.status@ == "Konuşma tanınıyor"@ + (if using_vad {
            " (VAD aktif)"@
        } else {
            Seq::<char>::empty()
        }) + "… ("@ + decimal(elapsed_secs as nat) + " saniye geçti)"@,
        r.current == 0,
        r.total == 0,
        !r.done,
{
    let mut status = "Konuşma tanınıyor".to_owned();
    if using_vad {
        append_str(&mut status, " (VAD aktif)");
    }
    append_str(&mut status, "… (");
    push_decimal(&mut status, elapsed_secs);
    append_str(&mut status, " saniye geçti)");
    proof {
        if !using_vad {
            assert("Konuşma tanınıyor"@ + Seq::<char>::empty() =~= "Konuşma tanınıyor"@);
        }
    }
    SubtitleProgress { status, current: 0, total: 0, done: false }
}

fn no_speech_head_text() -> (s: &'static str)
    ensures
        s@ == no_speech_head()@,
{
    "Videoda konuşma tespit edilemedi. Teşhis: ses dosyası "
}

fn no_speech_tail_text() -> (s: &'static str)
    ensures
        s@ == no_speech_tail()@,
{
    " KB olarak çıkarıldı. Eğer bu süre videonun gerçek uzunluğuna yakınsa ama içinde konuşma varsa, whisper.cpp modeli (küçük 'small' model bazı aksan/arka plan gürültüsünde zorlanabilir — 'medium' modeli dene) ya da sesin çok kısık olması sebep olabilir. Süre 0 ya da çok küçükse, videonun ses kanalı olmayabilir ya da ffmpeg'in desteklemediği bir codec kullanıyor olabilir."
}

/// The error when no speech was recognized, with what is known of the
/// extracted audio: its duration as the caller printed it (or `okunamadı`)
/// and its size in whole KiB.
pub fn no_speech_error(duration_text: &str, file_size_bytes: u64) -> (r: String)
    ensures
        r@ == no_speech_head()@ + duration_text@ + " saniye, "@ + decimal((file_size_bytes / 1024) as nat)
            + no_speech_tail()@,
{
    let mut r = no_speech_head_text().to_owned();
    append_str(&mut r, duration_text);
    append_str(&mut r, " saniye, ");
    push_decimal(&mut r, file_size_bytes / 1024);
    append_str(&mut r, no_speech_tail_text());
    r
}

// ---------------------------------------------------------------------
// Translation
// ---------------------------------------------------------------------

/// Whether the translation server (rather than the local engine)
/// translates.
pub fn uses_libretranslate(engine: &str) -> (r: bool)
    ensures
        r == (engine@ == "libretranslate"@),
{
    str_eq(engine, "libretranslate")
}

/// The translation server's endpoint: the base URL without trailing
/// slashes, then `/translate`.
pub fn libretranslate_endpoint(base_url: &str) -> (r: String)
    ensures
        r@ == trim_end_char(base_url@, '/') + "/translate"@,
{
    let v = to_chars(base_url);
    let k = trim_end_char_index(&v, '/');
    let mut r = string_of_range(&v, 0, k);
    proof {
        assert(v@.subrange(0, k as int) =~= v@.take(k as int));
    }
    append_str(&mut r, "/translate");
    r
}

/// The translated lines in the local engine's reply body: its
/// `message.content`, empty when it has none; a body that is not JSON is
/// refused with the parser's message.
pub fn translation_reply_content(body: &str) -> (r: Result<String, String>)
    ensures
        !spec_json_valid(body@) ==> r is Err && r->Err_0@ == crate::json::body_decode_message(),
        spec_json_valid(body@) ==> r is Ok && r->Ok_0@ == match spec_message_content(body@) {
            Some(c) => c,
            None => Seq::<char>::empty(),
        },
{
    match message_content(body) {
        Err(_) => Err(crate::json::body_decode_error()),
        Ok(Some(c)) => Ok(c),
        Ok(None) => Ok(String::new()),
    }
}

/// Whether progress is reported after segment `i` (counting from 0) of
/// `total`.
pub fn reports_progress_after(i: usize, total: usize) -> (r: bool)
    requires
        i < total,
    ensures
        r == reports_after(i as nat, total as nat),
{
    (i + 1) % 5 == 0 || i + 1 == total
}

/// A translation progress report: `done` of `total` segments translated by
/// `engine`.
pub fn translating_progress(done: usize, total: usize, engine: &str) -> (r: SubtitleProgress)
    ensures
        r.status@ == "Çevriliyor… "@ + decimal(done as nat) + "/"@ + decimal(total as nat) + " segment tamamlandı ("@
            + engine@ + ")"@,
        r.current == done as u32,
        r.total == total as u32,
        !r.done,
{
    let mut status = "Çevriliyor… ".to_owned();
    push_decimal(&mut status, done as u64);
    append_str(&mut status, "/");
    push_decimal(&mut status, total as u64);
    append_str(&mut status, " segment tamamlandı (");
    append_str(&mut status, engine);
    append_str(&mut status, ")");
    SubtitleProgress { status, current: done as u32, total: total as u32, done: false }
}

fn libretranslate_unreachable_tail_text() -> (s: &'static str)
    ensures
        s@ == libretranslate_unreachable_tail()@,
{
    "). Çalıştığından emin ol: docker run -ti -p 5000:5000 libretranslate/libretranslate — Detay: "
}

/// The error when the translation server cannot be reached.
pub fn libretranslate_unreachable(base_url: &str, detail: &str) -> (r: String)
    ensures
        r@ == "LibreTranslate'e ulaşılamadı ("@ + base_url@ + libretranslate_unreachable_tail()@ + detail@,
{
    let mut r = "LibreTranslate'e ulaşılamadı (".to_owned();
    append_str(&mut r, base_url);
    append_str(&mut r, libretranslate_unreachable_tail_text());
    append_str(&mut r, detail);
    r
}

/// The error when the translation server refuses a request.
pub fn libretranslate_refused(status: &str, body: &str) -> (r: String)
    ensures
        r@ == "LibreTranslate hata döndürdü ("@ + status@ + "): "@ + body@,
{
    let mut r = "LibreTranslate hata döndürdü (".to_owned();
    append_str(&mut r, status);
    append_str(&mut r, "): ");
    append_str(&mut r, body);
    r
}

/// Takes the translation server's reply for one segment: its
/// `translatedText` becomes the segment's translation when there is one;
/// a reply that is not JSON is refused with the parser's message and the
/// segment is left as it was.
pub fn apply_libretranslate_reply(seg: &mut SubtitleSegment, body: &str) -> (r: Result<(), String>)
    ensures
        !spec_json_valid(body@) ==> r is Err && r->Err_0@ == crate::json::body_decode_message() && *final(seg) == *old(seg),
        spec_json_valid(body@) ==> r is Ok && final(seg).start_ms == old(seg).start_ms
            && final(seg).end_ms == old(seg).end_ms && final(seg).source_text == old(seg).source_text
            && match spec_translated_text(body@) {
            Some(t) => final(seg).translated_text matches Some(x) && x@ == t,
            None => final(seg).translated_text == old(seg).translated_text,
        },
{
    match translated_text(body) {
        Err(_) => Err(crate::json::body_decode_error()),
        Ok(None) => Ok(()),
        Ok(Some(t)) => {
            seg.translated_text = Some(t);
            Ok(())
        },
    }
}

/// The last report of the pipeline, for `count` segments.
pub fn subtitles_done(count: usize) -> (r: SubtitleProgress)
    ensures
        r.status@ == "tamamlandı"@,
        r.current == count as u32,
        r.total == count as u32,
        r.done,
{
    SubtitleProgress { status: "tamamlandı".to_owned(), current: count as u32, total: count as u32, done: true }
}

/// The memory note of a subtitled video.
pub fn subtitles_note(video: &str, count: usize) -> (r: String)
    ensures
        r@ == "'"@ + video@ + "' videosu için Türkçe altyazı üretti ("@ + decimal(count as nat) + " segment)"@,
{
    let mut r = "'".to_owned();
    append_str(&mut r, video);
    append_str(&mut r, "' videosu için Türkçe altyazı üretti (");
    push_decimal(&mut r, count as u64);
    append_str(&mut r, " segment)");
    r
}

// ---------------------------------------------------------------------
// Dubbing
// ---------------------------------------------------------------------

/// The plan of a dub of `video` from the subtitles `srt_content`; refused
/// when the subtitles hold no text.
pub fn dub_plan(video: &str, srt_content: &str) -> (r: Result<DubPlan, String>)
    ensures
        match dub_plan_spec(video@, srt_content@) {
            Some(p) => r is Ok && plan_view(r->Ok_0) == p,
            None => r is Err && r->Err_0@ == "SRT dosyasında segment bulunamadı."@,
        },
{
    let segs = parse_srt(srt_content);
    if segs.len() == 0 {
        return Err("SRT dosyasında segment bulunamadı.".to_owned());
    }
    let mut work_dir = video.to_owned();
    append_str(&mut work_dir, ".dub_segments");
    let ghost texts = srt_parse(srt_content@);
    let ghost wd = work_dir@;
    let ghost wavs_all = Seq::new(texts.len(), |i: int| segment_wav(wd, i as nat));
    let mut texts_out: Vec<String> = Vec::new();
    let mut wavs: Vec<String> = Vec::new();
    let mut list = String::new();
    let mut i: usize = 0;
    while i < segs.len()
        invariant
            i <= segs@.len(),
            srt_seg_texts(segs@) == texts,
            work_dir@ == wd,
            wavs_all == Seq::new(texts.len(), |i: int| segment_wav(wd, i as nat)),
            str_views(texts_out@) == texts.take(i as int),
            str_views(wavs@) == wavs_all.take(i as int),
            list@ == concat_lines(wavs_all.take(i as int)),
        decreases segs.len() - i,
    {
        let mut wav = work_dir.clone();
        append_str(&mut wav, "/");
        push_padded(&mut wav, i as u64, 4);
        append_str(&mut wav, ".wav");
        append_str(&mut list, "file '");
        append_str(&mut list, wav.as_str());
        append_str(&mut list, "'\n");
        let ghost t0 = texts_out@;
        let ghost w0 = wavs@;
        texts_out.push(segs[i].text.clone());
        wavs.push(wav);
        proof {
            assert(wavs_all[i as int] == segment_wav(wd, i as nat));
            assert(str_views(texts_out@) =~= str_views(t0).push(texts[i as int]));
            assert(texts.take(i + 1) =~= texts.take(i as int).push(texts[i as int]));
            assert(str_views(wavs@) =~= str_views(w0).push(wavs_all[i as int]));
            assert(wavs_all.take(i + 1) =~= wavs_all.take(i as int).push(wavs_all[i as int]));
            assert(wavs_all.take(i + 1).drop_last() =~= wavs_all.take(i as int));
        }
        i = i + 1;
    }
    proof {
        assert(texts.take(i as int) =~= texts);
        assert(wavs_all.take(i as int) =~= wavs_all);
    }
    let mut list_path = work_dir.clone();
    append_str(&mut list_path, "/list.txt");
    let mut dub_audio = video.to_owned();
    append_str(&mut dub_audio, ".dub.wav");
    let output_video = sibling_path(video, ".dublajli.mp4");
    Ok(
        DubPlan {
            texts: texts_out,
            work_dir,
            segment_wavs: wavs,
            concat_list: list,
            list_path,
            dub_audio,
            output_video,
        },
    )
}

/// The ffmpeg arguments that join the speech files listed in `list_path`
/// into `dub_audio`.
pub fn concat_args(list_path: &str, dub_audio: &str) -> (r: Vec<String>)
    ensures
        str_views(r@) == seq!["-y"@, "-f"@, "concat"@, "-safe"@, "0"@, "-i"@, list_path@, dub_audio@],
{
    let r = vec![
        "-y".to_owned(),
        "-f".to_owned(),
        "concat".to_owned(),
        "-safe".to_owned(),
        "0".to_owned(),
        "-i".to_owned(),
        list_path.to_owned(),
        dub_audio.to_owned(),
    ];
    assert(str_views(r@) =~= seq!["-y"@, "-f"@, "concat"@, "-safe"@, "0"@, "-i"@, list_path@, dub_audio@]);
    r
}

/// The ffmpeg arguments that put the speech track under the video's
/// picture.
pub fn mux_args(video: &str, dub_audio: &str, output: &str) -> (r: Vec<String>)
    ensures
        str_views(r@) == mux_arg_list(video@, dub_audio@, output@),
{
    let r = vec![
        "-y".to_owned(),
        "-i".to_owned(),
        video.to_owned(),
        "-i".to_owned(),
        dub_audio.to_owned(),
        "-map".to_owned(),
        "0:v:0".to_owned(),
        "-map".to_owned(),
        "1:a:0".to_owned(),
        "-c:v".to_owned(),
        "copy".to_owned(),
        "-shortest".to_owned(),
        output.to_owned(),
    ];
    assert(str_views(r@) =~= mux_arg_list(video@, dub_audio@, output@));
    r
}

/// The arguments of piper that speak into `wav` with `voice_model`.
pub fn piper_args(voice_model: &str, wav: &str) -> (r: Vec<String>)
    ensures
        str_views(r@) == seq!["--model"@, voice_model@, "--output_file"@, wav@],
{
    let r = vec!["--model".to_owned(), voice_model.to_owned(), "--output_file".to_owned(), wav.to_owned()];
    assert(str_views(r@) =~= seq!["--model"@, voice_model@, "--output_file"@, wav@]);
    r
}

// ---------------------------------------------------------------------
// Laws
// ---------------------------------------------------------------------

/// The speech files of different subtitles are different files.
pub proof fn lemma_dub_files_distinct(work_dir: Seq<char>, i: nat, j: nat)
    requires
        i != j,
    ensures
        segment_wav(work_dir, i) != segment_wav(work_dir, j),
{
    let a = zero_pad(decimal(i), 4);
    let b = zero_pad(decimal(j), 4);
    let pa = work_dir + "/"@;
    let x = segment_wav(work_dir, i);
    let y = segment_wav(work_dir, j);
    if x == y {
        assert(x =~= pa + a + ".wav"@);
        assert(y =~= pa + b + ".wav"@);
        assert(a.len() == b.len());
        assert(a =~= x.subrange(pa.len() as int, (pa.len() + a.len()) as int));
        assert(b =~= y.subrange(pa.len() as int, (pa.len() + b.len()) as int));
        lemma_padded_value(i, 4);
        lemma_padded_value(j, 4);
    }
}

/// A leading zero does not change the value of a digit string.
proof fn lemma_leading_zero(t: Seq<char>)
    ensures
        crate::text::digits_value(seq!['0'] + t) == crate::text::digits_value(t),
    decreases t.len(),
{
    let s = seq!['0'] + t;
    if t.len() == 0 {
        assert(s.drop_last() =~= Seq::<char>::empty());
        assert(crate::text::digits_value(Seq::<char>::empty()) == 0);
        assert(crate::text::digit_value('0') == 0);
        assert(crate::text::digits_value(s) == crate::text::digits_value(s.drop_last()) * 10
            + crate::text::digit_value(s.last()));
    } else {
        lemma_leading_zero(t.drop_last());
        assert(s.drop_last() =~= seq!['0'] + t.drop_last());
        assert(s.last() == t.last());
        assert(crate::text::digits_value(s) == crate::text::digits_value(s.drop_last()) * 10
            + crate::text::digit_value(s.last()));
        assert(crate::text::digits_value(t) == crate::text::digits_value(t.drop_last()) * 10
            + crate::text::digit_value(t.last()));
    }
}

/// Zero padding keeps the value of a decimal number.
proof fn lemma_padded_value(n: nat, w: nat)
    ensures
        crate::text::digits_value(zero_pad(decimal(n), w)) == n,
{
    crate::text::lemma_decimal_digits(n);
    let d = decimal(n);
    if d.len() < w {
        lemma_zeros_value((w - d.len()) as nat, d);
    }
}

/// `k` leading zeros do not change the value.
proof fn lemma_zeros_value(k: nat, d: Seq<char>)
    ensures
        crate::text::digits_value(Seq::new(k, |i: int| '0') + d) == crate::text::digits_value(d),
    decreases k,
{
    if k > 0 {
        lemma_zeros_value((k - 1) as nat, d);
        let rest = Seq::new((k - 1) as nat, |i: int| '0') + d;
        lemma_leading_zero(rest);
        assert(Seq::new(k, |i: int| '0') + d =~= seq!['0'] + rest);
    } else {
        assert(Seq::new(k, |i: int| '0') + d =~= d);
    }
}

} // verus!
