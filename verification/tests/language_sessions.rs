use amorfly_ai::language::{
    copy_session, create_language_session, create_language_session_at, delete_language_session,
    list_language_sessions, save_language_session, save_language_session_at,
    update_language_session_level, update_language_session_level_at, update_language_session_meta_at,
    LanguageMessage, LanguageSession,
};

fn msg(role: &str, content: &str) -> LanguageMessage {
    LanguageMessage { role: role.to_string(), content: content.to_string() }
}

fn sample() -> Vec<LanguageSession> {
    let mut all = Vec::new();
    create_language_session_at(&mut all, "a".into(), "İngilizce".into(), "A1".into(), "Kafe".into(), "2024-01-01T10:00:00+03:00".into());
    create_language_session_at(&mut all, "b".into(), "Almanca".into(), "B1".into(), "Otel".into(), "2024-03-01T10:00:00+03:00".into());
    create_language_session_at(&mut all, "c".into(), "İspanyolca".into(), "A2".into(), "Market".into(), "2024-02-01T10:00:00+03:00".into());
    all
}

#[test]
fn a_new_session_has_no_messages() {
    let all = sample();
    assert_eq!(all.len(), 3);
    assert_eq!(all[0].id, "a");
    assert!(all[0].mesajlar.is_empty());
    assert_eq!(all[2].son_guncelleme, "2024-02-01T10:00:00+03:00");
}

#[test]
fn a_session_created_now_gets_a_fresh_id() {
    let mut all = Vec::new();
    let s = create_language_session(&mut all, "Fransızca".into(), "Seviye Belirleniyor".into(), "Tanışma".into()).unwrap();
    assert_eq!(s.id.len(), 36);
    assert_eq!(all.len(), 1);
    assert_eq!(all[0].id, s.id);
    assert_eq!(all[0].dil, "Fransızca");
}

#[test]
fn saved_messages_are_read_back() {
    let mut all = sample();
    let m = vec![msg("user", "Hello"), msg("assistant", "Hi!")];
    save_language_session_at(&mut all, "b", m, "2024-04-01T00:00:00+00:00".into()).unwrap();
    let b = &all[1];
    assert_eq!(b.mesajlar.len(), 2);
    assert_eq!(b.mesajlar[1].content, "Hi!");
    assert_eq!(b.son_guncelleme, "2024-04-01T00:00:00+00:00");
    assert_eq!((b.dil.as_str(), b.seviye.as_str(), b.senaryo.as_str()), ("Almanca", "B1", "Otel"));
    assert!(all[0].mesajlar.is_empty() && all[2].mesajlar.is_empty());
}

#[test]
fn unknown_sessions_are_refused() {
    let mut all = sample();
    assert_eq!(save_language_session_at(&mut all, "zz", vec![], "t".into()), Err("Oturum bulunamadı.".to_string()));
    assert_eq!(update_language_session_level_at(&mut all, "zz", "B2".into(), "t".into()), Err("Oturum bulunamadı.".to_string()));
    assert_eq!(save_language_session(&mut all, "zz", vec![]), Err("Oturum bulunamadı.".to_string()));
    assert_eq!(update_language_session_level(&mut all, "zz", "B2".into()), Err("Oturum bulunamadı.".to_string()));
}

#[test]
fn level_and_scenario_are_updated() {
    let mut all = sample();
    update_language_session_meta_at(&mut all, "a", "A2".into(), "Restoran".into(), "t1".into()).unwrap();
    assert_eq!((all[0].seviye.as_str(), all[0].senaryo.as_str(), all[0].son_guncelleme.as_str()), ("A2", "Restoran", "t1"));
    update_language_session_level_at(&mut all, "a", "B1".into(), "t2".into()).unwrap();
    assert_eq!((all[0].seviye.as_str(), all[0].senaryo.as_str(), all[0].son_guncelleme.as_str()), ("B1", "Restoran", "t2"));
    save_language_session(&mut all, "c", vec![msg("user", "Hola")]).unwrap();
    assert_eq!(all[2].mesajlar[0].content, "Hola");
}

#[test]
fn deleting_removes_only_that_session() {
    let mut all = sample();
    delete_language_session(&mut all, "b");
    let ids: Vec<&str> = all.iter().map(|s| s.id.as_str()).collect();
    assert_eq!(ids, vec!["a", "c"]);
    delete_language_session(&mut all, "missing");
    assert_eq!(all.len(), 2);
}

#[test]
fn most_recent_first() {
    let sorted = list_language_sessions(sample());
    let ids: Vec<&str> = sorted.iter().map(|s| s.id.as_str()).collect();
    assert_eq!(ids, vec!["b", "c", "a"]);
}

#[test]
fn equal_times_keep_their_order() {
    let mut all = sample();
    let mut d = copy_session(&all[0]);
    d.id = "d".into();
    all.push(d);
    let sorted = list_language_sessions(all);
    let ids: Vec<&str> = sorted.iter().map(|s| s.id.as_str()).collect();
    assert_eq!(ids, vec!["b", "c", "a", "d"]);
}
