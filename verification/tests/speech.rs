use amorfly_ai::voice::{
    mic_start_error, playback_args, recognition_output_path, recognize_args, record_args,
    refine_prompt, refined_reply, speech_outcome, temp_path, transcript_text,
};

#[test]
fn temporary_files_are_unique() {
    let a = temp_path(".wav").unwrap();
    let b = temp_path(".wav").unwrap();
    assert!(a.starts_with("/tmp/amorfly_") && a.ends_with(".wav"));
    assert_eq!(a.len(), "/tmp/amorfly_".len() + 36 + 4);
    assert_ne!(a, b);
}

#[test]
fn recording_and_recognition_commands() {
    assert_eq!(
        record_args(5, "/tmp/x.wav"),
        vec!["-y", "-f", "pulse", "-i", "default", "-ar", "16000", "-ac", "1", "-t", "5", "/tmp/x.wav"]
    );
    assert_eq!(
        recognize_args("m.bin", "x.wav", "tr"),
        vec!["-m", "m.bin", "-f", "x.wav", "-oj", "-of", "x.wav", "-l", "tr"]
    );
    assert_eq!(recognition_output_path("x.wav"), "x.wav.json");
    assert_eq!(
        mic_start_error("no ffmpeg"),
        "Mikrofon kaydı başlatılamadı (ffmpeg + PulseAudio/PipeWire gerekir). Detay: no ffmpeg"
    );
}

#[test]
fn transcript_joins_and_trims() {
    let raw = r#"{"transcription":[{"text":" Merhaba"},{"text":" dünya "},{"offsets":{}}]}"#;
    assert_eq!(transcript_text(raw), Ok("Merhaba dünya".to_string()));
}

#[test]
fn silence_and_bad_output() {
    assert_eq!(
        transcript_text(r#"{"transcription":[{"text":"  "}]}"#),
        Err("Konuşma algılanamadı — mikrofona daha yakın/açık konuşmayı deneyin.".to_string())
    );
    assert!(transcript_text(r#"{}"#).is_err());
    assert!(transcript_text("not json").is_err());
}

#[test]
fn speaking() {
    assert_eq!(playback_args("a.wav"), vec!["-nodisp", "-autoexit", "-loglevel", "quiet", "a.wav"]);
    assert_eq!(speech_outcome(true, "a.wav".into()).unwrap().wav_path, "a.wav");
    assert_eq!(speech_outcome(false, "a.wav".into()).err().unwrap(), "Seslendirme (piper) başarısız oldu.");
}

#[test]
fn rewriting() {
    let p = refine_prompt("metin", "Türkçe");
    assert!(p.starts_with("Aşağıdaki metni Türkçe dilinde, dilbilgisi kurallarına tamamen uygun, akıcı ve doğal cümlelerle YENİDEN YAZ."));
    assert!(p.ends_with("\n\nMetin:\nmetin"));
    assert_eq!(refined_reply(r#"{"message":{"content":" Düzgün. "}}"#), Ok("Düzgün.".to_string()));
    assert_eq!(refined_reply(r#"{}"#), Err("Dil düzeltmesi başarısız oldu.".to_string()));
}
