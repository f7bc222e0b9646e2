use amorfly_ai::subtitles::{
    apply_translation_reply, available_memory_mb, batch_end, check_memory_or_warn, ms_to_srt_time,
    ms_to_vtt_time, parse_srt, segments_to_srt, segments_to_vtt, sibling_path, sort_segments,
    translation_prompt, whisper_args, whisper_segments, SubtitleSegment,
};

fn seg(start: u64, end: u64, text: &str, tr: Option<&str>) -> SubtitleSegment {
    SubtitleSegment {
        start_ms: start,
        end_ms: end,
        source_text: text.to_string(),
        translated_text: tr.map(|t| t.to_string()),
    }
}

#[test]
fn srt_time_has_all_fields_padded() {
    assert_eq!(ms_to_srt_time(3_723_004), "01:02:03,004");
    assert_eq!(ms_to_srt_time(0), "00:00:00,000");
    assert_eq!(ms_to_srt_time(59_999), "00:00:59,999");
}

#[test]
fn srt_time_hours_grow_past_two_digits() {
    assert_eq!(ms_to_srt_time(360_000_000), "100:00:00,000");
}

#[test]
fn vtt_time_uses_a_dot() {
    assert_eq!(ms_to_vtt_time(3_723_004), "01:02:03.004");
    assert_eq!(ms_to_vtt_time(12), "00:00:00.012");
}

#[test]
fn srt_document_prefers_the_translation() {
    let segs = vec![seg(1000, 2500, "Hello", Some("Merhaba")), seg(3000, 4000, "World", None)];
    assert_eq!(
        segments_to_srt(&segs),
        "1\n00:00:01,000 --> 00:00:02,500\nMerhaba\n\n2\n00:00:03,000 --> 00:00:04,000\nWorld\n\n"
    );
}

#[test]
fn vtt_document_has_its_header() {
    let segs = vec![seg(1000, 2500, "Hello", Some("Merhaba"))];
    assert_eq!(segments_to_vtt(&segs), "WEBVTT\n\n1\n00:00:01.000 --> 00:00:02.500\nMerhaba\n\n");
}

#[test]
fn empty_documents() {
    assert_eq!(segments_to_srt(&[]), "");
    assert_eq!(segments_to_vtt(&[]), "WEBVTT\n\n");
}

#[test]
fn srt_written_then_read_gives_the_texts_back() {
    let segs = vec![
        seg(0, 900, "one", Some("bir")),
        seg(1000, 1900, "two", None),
        seg(2000, 2900, "three", Some("üç")),
    ];
    let read = parse_srt(&segments_to_srt(&segs));
    let texts: Vec<String> = read.into_iter().map(|s| s.text).collect();
    assert_eq!(texts, vec!["bir", "two", "üç"]);
}

#[test]
fn parse_srt_joins_lines_and_skips_empty_blocks() {
    let content = "1\n00:00:01,000 --> 00:00:02,000\nfirst line\nsecond line\n\n2\n00:00:03,000 --> 00:00:04,000\n   \n\nshort\n";
    let texts: Vec<String> = parse_srt(content).into_iter().map(|s| s.text).collect();
    assert_eq!(texts, vec!["first line second line"]);
}

#[test]
fn sibling_replaces_the_extension() {
    assert_eq!(sibling_path("/videos/film.mp4", ".tr.srt"), "/videos/film.tr.srt");
    assert_eq!(sibling_path("film.mp4", ".tr.vtt"), "film.tr.vtt");
    assert_eq!(sibling_path("/videos/archive.tar.gz", ".x"), "/videos/archive.tar.x");
}

#[test]
fn memory_is_read_from_meminfo() {
    let info = "MemTotal:       16000000 kB\nMemAvailable:    4194304 kB\n";
    assert_eq!(available_memory_mb(info), Some(4096));
    assert_eq!(available_memory_mb("MemTotal: 1 kB\n"), None);
    assert_eq!(available_memory_mb("MemAvailable: lots\n"), None);
}

#[test]
fn low_memory_is_refused() {
    let info = "MemAvailable: 1048576 kB\n";
    let err = check_memory_or_warn(Some(info)).unwrap_err();
    assert!(err.starts_with("Boş bellek kritik derecede az (1024 MB). Bu işlem (whisper.cpp + Ollama birlikte)"));
    assert!(err.ends_with("kapatıp tekrar dene."));
}

#[test]
fn enough_or_unknown_memory_is_accepted() {
    assert_eq!(check_memory_or_warn(Some("MemAvailable: 2097152 kB\n")), Ok(()));
    assert_eq!(check_memory_or_warn(Some("nothing here")), Ok(()));
    assert_eq!(check_memory_or_warn(None), Ok(()));
}

#[test]
fn whisper_output_becomes_segments() {
    let raw = r#"{"transcription":[
        {"offsets":{"from":0,"to":1500},"text":"  Hello there "},
        {"offsets":{"from":1500,"to":2000},"text":"   "},
        {"offsets":{"to":3000},"text":"again"}
    ]}"#;
    let segs = whisper_segments(raw).unwrap();
    assert_eq!(segs.len(), 2);
    assert_eq!((segs[0].start_ms, segs[0].end_ms, segs[0].source_text.as_str()), (0, 1500, "Hello there"));
    assert_eq!((segs[1].start_ms, segs[1].end_ms, segs[1].source_text.as_str()), (0, 3000, "again"));
    assert!(segs.iter().all(|s| s.translated_text.is_none()));
}

#[test]
fn whisper_output_that_is_not_json_is_refused() {
    assert!(whisper_segments("not json").is_err());
    assert_eq!(whisper_segments("{}").unwrap().len(), 0);
}

#[test]
fn sorting_is_by_start_and_stable() {
    let segs = vec![seg(3000, 1, "c", None), seg(1000, 2, "a", None), seg(3000, 3, "d", None), seg(2000, 4, "b", None)];
    let sorted = sort_segments(segs);
    let order: Vec<&str> = sorted.iter().map(|s| s.source_text.as_str()).collect();
    assert_eq!(order, vec!["a", "b", "c", "d"]);
}

#[test]
fn whisper_arguments_with_and_without_vad() {
    assert_eq!(
        whisper_args("m.bin", "a.wav", ""),
        vec!["-m", "m.bin", "-f", "a.wav", "-oj", "-of", "a.wav", "-l", "auto"]
    );
    assert_eq!(
        whisper_args("m.bin", "a.wav", "vad.bin"),
        vec!["-m", "m.bin", "-f", "a.wav", "-oj", "-of", "a.wav", "-l", "auto", "-vm", "vad.bin", "--vad"]
    );
    assert_eq!(whisper_args("m.bin", "a.wav", "   ").len(), 9);
}

#[test]
fn batches_hold_twenty_segments() {
    assert_eq!(batch_end(0, 45), 20);
    assert_eq!(batch_end(40, 45), 45);
}

#[test]
fn translation_prompt_numbers_the_batch() {
    let segs = vec![seg(0, 1, "Hi", None), seg(1, 2, "Bye", None), seg(2, 3, "Later", None)];
    let p = translation_prompt(&segs, 1, 3);
    assert!(p.starts_with("Aşağıdaki numaralı satırları Türkçe'ye çevir."));
    assert!(p.ends_with("\n\n1. Bye\n2. Later"));
}

#[test]
fn reply_lines_become_translations() {
    let segs = vec![seg(0, 1, "a", None), seg(1, 2, "b", None), seg(2, 3, "c", Some("old"))];
    let out = apply_translation_reply(segs, 1, 3, "1. bir\n2)   \n3. fazla");
    assert_eq!(out[0].translated_text, None);
    assert_eq!(out[1].translated_text.as_deref(), Some("bir"));
    assert_eq!(out[2].translated_text.as_deref(), Some("old"));
}

#[test]
fn reply_line_without_a_number_is_kept_whole() {
    let segs = vec![seg(0, 1, "a", None)];
    let out = apply_translation_reply(segs, 0, 1, "  just text  ");
    assert_eq!(out[0].translated_text.as_deref(), Some("just text"));
}

#[test]
fn webvtt_is_the_srt_with_dots_under_a_header() {
    let segs = vec![seg(0, 1500, "Hello", Some("Merhaba")), seg(3_723_004, 3_725_000, "bye", None)];
    let srt = segments_to_srt(&segs);
    assert_eq!(segments_to_vtt(&segs), format!("WEBVTT\n\n{}", srt.replace(',', ".")));
}
