use amorfly_ai::habits::{
    active_window_name, no_active_window_error, record_activity_tick, suggest_from_habits,
    xdotool_missing_error, HabitLog,
};

#[test]
fn ticks_add_up_per_window() {
    let mut log = HabitLog::default();
    record_activity_tick(&mut log, "Editor".to_string(), 30, 100);
    record_activity_tick(&mut log, "Browser".to_string(), 30, 130);
    record_activity_tick(&mut log, "Editor".to_string(), 45, 175);
    assert_eq!(log.totals_seconds, vec![("Editor".to_string(), 75), ("Browser".to_string(), 30)]);
    assert_eq!(log.last_active_app, "Editor");
    assert_eq!(log.last_seen_unix, 175);
}

#[test]
fn no_break_under_two_hours() {
    let mut log = HabitLog::default();
    assert_eq!(suggest_from_habits(&log), None);
    record_activity_tick(&mut log, "Editor".to_string(), 7200, 1);
    assert_eq!(suggest_from_habits(&log), None);
}

#[test]
fn break_over_two_hours_names_the_last_window() {
    let mut log = HabitLog::default();
    record_activity_tick(&mut log, "Editor".to_string(), 7260, 1);
    record_activity_tick(&mut log, "Terminal".to_string(), 60, 2);
    assert_eq!(
        suggest_from_habits(&log),
        Some("'Terminal' üzerinde uzun süredir çalışıyorsunuz (121 dakika). Kısa bir mola vermek ister misiniz?".to_string())
    );
}

#[test]
fn window_titles_are_trimmed() {
    assert_eq!(active_window_name(&b"  Terminal - bash\n".to_vec()), "Terminal - bash");
    assert!(xdotool_missing_error().starts_with("xdotool bulunamadı (X11 gerekli)."));
    assert_eq!(no_active_window_error(), "Aktif pencere okunamadı (ör. hiçbir pencere odakta değil).");
}
