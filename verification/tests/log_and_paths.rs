use amorfly_ai::logs::{get_recent_logs, log_record};
use amorfly_ai::paths::{amorfly_bin_dir, join_path, key_path, logs_dir, rag_db_path, vault_dir, vault_file};

#[test]
fn recent_log_lines() {
    let content = "a\nb\nc\nd\n";
    assert_eq!(get_recent_logs(content, 2), vec!["c", "d"]);
    assert_eq!(get_recent_logs(content, 10), vec!["a", "b", "c", "d"]);
    assert!(get_recent_logs(content, 0).is_empty());
    assert_eq!(log_record("2024-01-01 10:00:00", "INFO", "hi"), "[2024-01-01 10:00:00] [INFO] hi");
}

#[test]
fn application_paths() {
    assert_eq!(key_path(Some("/home/u/.config")), "/home/u/.config/Amorfly AI/vault/amorfly.key");
    assert_eq!(key_path(None), "./Amorfly AI/vault/amorfly.key");
    assert_eq!(vault_dir(Some("/c/")), "/c/Amorfly AI/vault");
    assert_eq!(vault_file(Some("/c"), "habits"), "/c/Amorfly AI/vault/habits.enc");
    assert_eq!(amorfly_bin_dir(Some("/d")), "/d/Amorfly AI/bin");
    assert_eq!(logs_dir(Some("/d")), "/d/Amorfly AI/logs");
    assert_eq!(rag_db_path(Some("/d")), "/d/Amorfly AI/rag.sqlite");
    assert_eq!(join_path("/d/bin", "video2x.AppImage"), "/d/bin/video2x.AppImage");
    assert_eq!(join_path("/d/bin", "/abs"), "/abs");
    assert_eq!(join_path("", "x"), "x");
}
