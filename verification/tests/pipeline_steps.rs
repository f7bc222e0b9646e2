use amorfly_ai::pipeline::{
    apply_libretranslate_reply, concat_args, dub_plan, extract_audio_args, libretranslate_endpoint,
    libretranslate_refused, libretranslate_unreachable, mux_args, no_speech_error, piper_args,
    recognizing_progress, reports_progress_after, subtitles_done, subtitles_note, temp_wav_path,
    translating_progress, uses_libretranslate, uses_vad, whisper_missing_error,
};
use amorfly_ai::subtitles::{segments_to_srt, SubtitleSegment};

fn seg(start: u64, end: u64, text: &str) -> SubtitleSegment {
    SubtitleSegment { start_ms: start, end_ms: end, source_text: text.to_string(), translated_text: None }
}

#[test]
fn audio_is_extracted_next_to_the_video() {
    assert_eq!(temp_wav_path("/v/a.mp4"), "/v/a.mp4.amorfly.wav");
    assert_eq!(
        extract_audio_args("/v/a.mp4", "/v/a.mp4.amorfly.wav"),
        vec!["-y", "-i", "/v/a.mp4", "-ar", "16000", "-ac", "1", "-c:a", "pcm_s16le", "/v/a.mp4.amorfly.wav"]
    );
}

#[test]
fn recognizer_messages() {
    assert_eq!(
        whisper_missing_error("whisper-cli", "no such file"),
        "whisper.cpp binary'si ('whisper-cli') bulunamadı. Kurulum: github.com/ggerganov/whisper.cpp. Detay: no such file"
    );
    assert!(uses_vad(" vad.bin "));
    assert!(!uses_vad("   "));
    assert_eq!(recognizing_progress(true, 12).status, "Konuşma tanınıyor (VAD aktif)… (12 saniye geçti)");
    let p = recognizing_progress(false, 3);
    assert_eq!(p.status, "Konuşma tanınıyor… (3 saniye geçti)");
    assert_eq!((p.current, p.total, p.done), (0, 0, false));
}

#[test]
fn no_speech_error_reports_the_audio() {
    let e = no_speech_error("12.5", 5000);
    assert!(e.starts_with("Videoda konuşma tespit edilemedi. Teşhis: ses dosyası 12.5 saniye, 4 KB olarak çıkarıldı."));
    let e = no_speech_error("okunamadı", 0);
    assert!(e.contains("okunamadı saniye, 0 KB"));
}

#[test]
fn translation_engine_choice() {
    assert!(uses_libretranslate("libretranslate"));
    assert!(!uses_libretranslate("ollama"));
    assert!(!uses_libretranslate("LibreTranslate"));
}

#[test]
fn translation_server_endpoint_drops_trailing_slashes() {
    assert_eq!(libretranslate_endpoint("http://127.0.0.1:5000"), "http://127.0.0.1:5000/translate");
    assert_eq!(libretranslate_endpoint("http://127.0.0.1:5000//"), "http://127.0.0.1:5000/translate");
    assert_eq!(libretranslate_endpoint(""), "/translate");
}

#[test]
fn progress_every_fifth_and_last() {
    let reported: Vec<usize> = (0..12).filter(|&i| reports_progress_after(i, 12)).collect();
    assert_eq!(reported, vec![4, 9, 11]);
    assert!(reports_progress_after(0, 1));
}

#[test]
fn translation_progress_text() {
    let p = translating_progress(20, 45, "Ollama");
    assert_eq!(p.status, "Çevriliyor… 20/45 segment tamamlandı (Ollama)");
    assert_eq!((p.current, p.total, p.done), (20, 45, false));
}

#[test]
fn translation_server_reply_is_taken() {
    let mut s = seg(0, 1, "hello");
    apply_libretranslate_reply(&mut s, r#"{"translatedText":"merhaba"}"#).unwrap();
    assert_eq!(s.translated_text.as_deref(), Some("merhaba"));
    let mut t = seg(0, 1, "hello");
    apply_libretranslate_reply(&mut t, r#"{"other":1}"#).unwrap();
    assert_eq!(t.translated_text, None);
    assert!(apply_libretranslate_reply(&mut t, "<html>").is_err());
    assert_eq!(t.source_text, "hello");
}

#[test]
fn translation_server_errors() {
    assert_eq!(
        libretranslate_refused("500 Internal Server Error", "boom"),
        "LibreTranslate hata döndürdü (500 Internal Server Error): boom"
    );
    let e = libretranslate_unreachable("http://x:5000", "refused");
    assert!(e.starts_with("LibreTranslate'e ulaşılamadı (http://x:5000). Çalıştığından emin ol: docker run"));
    assert!(e.ends_with("Detay: refused"));
}

#[test]
fn finishing_the_subtitles() {
    let p = subtitles_done(7);
    assert_eq!((p.status.as_str(), p.current, p.total, p.done), ("tamamlandı", 7, 7, true));
    assert_eq!(subtitles_note("/v/a.mp4", 7), "'/v/a.mp4' videosu için Türkçe altyazı üretti (7 segment)");
}

#[test]
fn dub_plan_from_written_subtitles() {
    let mut segs = vec![seg(0, 1000, "one"), seg(1000, 2000, "two")];
    segs[0].translated_text = Some("bir".to_string());
    let srt = segments_to_srt(&segs);
    let plan = dub_plan("/v/film.mp4", &srt).unwrap();
    assert_eq!(plan.texts, vec!["bir", "two"]);
    assert_eq!(plan.work_dir, "/v/film.mp4.dub_segments");
    assert_eq!(plan.segment_wavs, vec!["/v/film.mp4.dub_segments/0000.wav", "/v/film.mp4.dub_segments/0001.wav"]);
    assert_eq!(
        plan.concat_list,
        "file '/v/film.mp4.dub_segments/0000.wav'\nfile '/v/film.mp4.dub_segments/0001.wav'\n"
    );
    assert_eq!(plan.list_path, "/v/film.mp4.dub_segments/list.txt");
    assert_eq!(plan.dub_audio, "/v/film.mp4.dub.wav");
    assert_eq!(plan.output_video, "/v/film.dublajli.mp4");
}

#[test]
fn dub_without_subtitles_is_refused() {
    assert_eq!(dub_plan("/v/film.mp4", "").err().unwrap(), "SRT dosyasında segment bulunamadı.");
}

#[test]
fn dub_speech_files_are_distinct() {
    let srt: String = (0..12).map(|i| format!("{}\n00:00:00,000 --> 00:00:01,000\nline {}\n\n", i + 1, i)).collect();
    let plan = dub_plan("a.mp4", &srt).unwrap();
    let mut files = plan.segment_wavs.clone();
    files.sort();
    files.dedup();
    assert_eq!(files.len(), 12);
    assert_eq!(plan.segment_wavs[10], "a.mp4.dub_segments/0010.wav");
}

#[test]
fn dub_commands() {
    assert_eq!(concat_args("l.txt", "d.wav"), vec!["-y", "-f", "concat", "-safe", "0", "-i", "l.txt", "d.wav"]);
    assert_eq!(
        mux_args("v.mp4", "d.wav", "o.mp4"),
        vec!["-y", "-i", "v.mp4", "-i", "d.wav", "-map", "0:v:0", "-map", "1:a:0", "-c:v", "copy", "-shortest", "o.mp4"]
    );
    assert_eq!(piper_args("tr.onnx", "x.wav"), vec!["--model", "tr.onnx", "--output_file", "x.wav"]);
}
