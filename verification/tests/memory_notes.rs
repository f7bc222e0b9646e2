use amorfly_ai::memory::{
    cache_summary, memory_digest, remember, remember_at, summary_from_reply, summary_log,
    summary_prompt, summary_step, MemoryEntry, SummaryStep,
};

fn entry(ts: &str, cat: &str, text: &str) -> MemoryEntry {
    MemoryEntry { timestamp: ts.to_string(), category: cat.to_string(), text: text.to_string() }
}

#[test]
fn remembering_keeps_the_newest_300() {
    let mut v: Vec<MemoryEntry> = Vec::new();
    for i in 0..305 {
        remember_at(&mut v, format!("t{}", i), "islem".to_string(), format!("n{}", i));
    }
    assert_eq!(v.len(), 300);
    assert_eq!(v[0].text, "n5");
    assert_eq!(v[299].text, "n304");
    assert_eq!(v[299].timestamp, "t304");
}

#[test]
fn remembering_now_stamps_the_note() {
    let mut v = vec![entry("a", "tercih", "x")];
    remember(&mut v, "islem".to_string(), "y".to_string());
    assert_eq!(v.len(), 2);
    assert_eq!((v[1].category.as_str(), v[1].text.as_str()), ("islem", "y"));
    assert!(!v[1].timestamp.is_empty());
}

#[test]
fn digest_of_the_latest_notes() {
    let v = vec![entry("1", "islem", "a"), entry("2", "tercih", "b"), entry("3", "islem", "c")];
    assert_eq!(
        memory_digest(&v, 2),
        "Kullanıcı ve geçmiş işlemler hakkında bildiklerin:\n- [2] tercih: b\n- [3] islem: c\n"
    );
    assert_eq!(memory_digest(&Vec::new(), 5), "");
    assert_eq!(memory_digest(&v, 0), "Kullanıcı ve geçmiş işlemler hakkında bildiklerin:\n");
}

#[test]
fn summary_reuses_the_cache_until_twelve_new_notes() {
    assert!(matches!(summary_step(4, &None), SummaryStep::RawDigest));
    assert!(matches!(summary_step(5, &None), SummaryStep::Fresh));
    let c = Some(cache_summary("özet".to_string(), 10));
    match summary_step(21, &c) {
        SummaryStep::Cached { text } => assert_eq!(text, "özet"),
        _ => panic!("cached summary expected"),
    }
    assert!(matches!(summary_step(22, &c), SummaryStep::Fresh));
    assert!(matches!(summary_step(3, &c), SummaryStep::RawDigest));
    let later = Some(cache_summary("x".to_string(), 50));
    assert!(matches!(summary_step(30, &later), SummaryStep::Cached { .. }));
}

#[test]
fn summary_log_holds_the_last_eighty() {
    let v: Vec<MemoryEntry> = (0..90).map(|i| entry(&i.to_string(), "islem", "x")).collect();
    let log = summary_log(&v);
    assert!(log.starts_with("[10] islem: x\n[11] islem: x"));
    assert!(log.ends_with("[89] islem: x"));
    assert_eq!(log.lines().count(), 80);
    let p = summary_prompt(&vec![entry("1", "a", "b")]);
    assert!(p.ends_with("--- KAYITLAR ---\n[1] a: b"));
}

#[test]
fn summary_reply_is_trimmed() {
    assert_eq!(summary_from_reply(r#"{"message":{"content":"  Özet.  "}}"#), Ok("Özet.".to_string()));
    assert_eq!(summary_from_reply(r#"{"message":{"content":"   "}}"#), Err("Özet üretilemedi.".to_string()));
    assert_eq!(summary_from_reply(r#"{"x":1}"#), Err("Özet üretilemedi.".to_string()));
    assert!(summary_from_reply("nope").is_err());
}
