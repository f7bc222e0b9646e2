use amorfly_ai::tasks::{
    batch_final_status, batch_note, batch_summary, confirm_batch, done_line, ext_lower,
    extension_stats, failed_line, is_video_ext, pdf_files, report_rows, sort_by_bytes,
    total_bytes, video_files, BatchTally, ExtStat, TaskTable,
};

fn find<'a>(list: &'a [amorfly_ai::tasks::TaskRecord], id: &str) -> &'a amorfly_ai::tasks::TaskRecord {
    list.iter().find(|t| t.id == id).unwrap()
}

#[test]
fn a_new_task_is_queued() {
    let mut t = TaskTable::new();
    t.insert_manual_task("w1", "workflow", "İş akışı: subtitle");
    let list = t.list_tasks();
    assert_eq!(list.len(), 1);
    let w = find(&list, "w1");
    assert_eq!((w.kind.as_str(), w.title.as_str(), w.status.as_str()), ("workflow", "İş akışı: subtitle", "kuyrukta"));
    assert!(w.log.is_empty());
    assert_eq!(w.result, None);
}

#[test]
fn inserting_under_an_existing_id_replaces() {
    let mut t = TaskTable::new();
    t.insert_manual_task("a", "k1", "first");
    t.push_log("a", "line");
    t.insert_manual_task("a", "k2", "second");
    let list = t.list_tasks();
    assert_eq!(list.len(), 1);
    assert_eq!(find(&list, "a").title, "second");
    assert!(find(&list, "a").log.is_empty());
}

#[test]
fn cancelling_is_seen_and_touches_nothing_else() {
    let mut t = TaskTable::new();
    t.insert_manual_task("a", "k", "A");
    t.insert_manual_task("b", "k", "B");
    assert!(!t.cancelled("a"));
    t.cancel_task("a");
    assert!(t.cancelled("a"));
    assert!(!t.cancelled("b"));
    assert!(!t.cancelled("missing"));
    t.cancel_task("missing");
    assert_eq!(t.list_tasks().len(), 2);
}

#[test]
fn finishing_keeps_the_log() {
    let mut t = TaskTable::new();
    t.insert_manual_task("a", "k", "A");
    t.set_status("a", "çalışıyor");
    t.push_log("a", "▶ subtitle başladı");
    t.complete_task("a", "done!");
    let list = t.list_tasks();
    let a = find(&list, "a");
    assert_eq!(a.status, "tamamlandı");
    assert_eq!(a.result.as_deref(), Some("done!"));
    assert_eq!(a.log, vec!["▶ subtitle başladı"]);
    t.fail_task("a", "oops");
    let list = t.list_tasks();
    assert_eq!(find(&list, "a").status, "hata");
    assert_eq!(find(&list, "a").result.as_deref(), Some("oops"));
}

#[test]
fn extensions_are_lower_case() {
    assert_eq!(ext_lower("/a/B.MP4"), "mp4");
    assert_eq!(ext_lower("/a/noext"), "");
    assert_eq!(ext_lower("/a/.hidden"), "");
    assert_eq!(ext_lower("x.tar.GZ"), "gz");
    assert!(is_video_ext("webm"));
    assert!(!is_video_ext("MP4"));
}

#[test]
fn batch_files_are_selected_by_extension() {
    let files: Vec<String> = vec!["a.MP4", "b.txt", "c.mkv", "d.PDF", "e.mov", "f"].into_iter().map(String::from).collect();
    assert_eq!(video_files(&files), vec!["a.MP4", "c.mkv", "e.mov"]);
    assert_eq!(pdf_files(&files), vec!["d.PDF"]);
}

#[test]
fn batches_are_confirmed_first() {
    assert_eq!(confirm_batch(true), Ok(()));
    assert_eq!(confirm_batch(false), Err("Onaylanmamış toplu işlem — güvenlik nedeniyle çalıştırılmadı.".to_string()));
}

#[test]
fn batch_tally_and_summary() {
    let mut t = BatchTally::start(3);
    t.record(true);
    t.record(false);
    t.record(true);
    assert_eq!((t.total, t.done, t.failed), (3, 2, 1));
    assert_eq!(batch_summary(&t, "PDF"), "3 PDF işlendi, 2 başarılı, 1 hatalı.");
    assert_eq!(batch_final_status(true), "iptal edildi");
    assert_eq!(batch_final_status(false), "tamamlandı");
    assert_eq!(done_line("x.ocr.txt"), "✓ x.ocr.txt");
    assert_eq!(failed_line("x.pdf", "bad"), "✗ x.pdf: bad");
    assert_eq!(
        batch_note("/docs", "toplu OCR", "1 PDF işlendi, 1 başarılı, 0 hatalı."),
        "'/docs' klasöründe toplu OCR yaptı — 1 PDF işlendi, 1 başarılı, 0 hatalı."
    );
}

fn files(v: &[(&str, u64)]) -> Vec<(String, u64)> {
    v.iter().map(|(e, s)| (e.to_string(), *s)).collect()
}

#[test]
fn statistics_group_by_extension() {
    let f = files(&[("pdf", 10), ("mp4", 500), ("pdf", 30), ("", 1), ("mp4", 100)]);
    let stats = extension_stats(&f);
    let v: Vec<(String, u64, u64)> = stats.into_iter().map(|s| (s.ext, s.count, s.bytes)).collect();
    assert_eq!(
        v,
        vec![("pdf".to_string(), 2, 40), ("mp4".to_string(), 2, 600), ("".to_string(), 1, 1)]
    );
    assert_eq!(total_bytes(&f), 641);
}

#[test]
fn statistics_sort_largest_first_keeping_ties() {
    let s = vec![
        ExtStat { ext: "a".into(), count: 1, bytes: 5 },
        ExtStat { ext: "b".into(), count: 1, bytes: 9 },
        ExtStat { ext: "c".into(), count: 1, bytes: 5 },
    ];
    let sorted: Vec<String> = sort_by_bytes(s).into_iter().map(|x| x.ext).collect();
    assert_eq!(sorted, vec!["b", "a", "c"]);
}

#[test]
fn report_keeps_fifteen_rows() {
    let f: Vec<(String, u64)> = (0..20u64).map(|i| (format!("e{}", i), i)).collect();
    let rows = report_rows(&f);
    assert_eq!(rows.len(), 15);
    assert_eq!(rows[0].ext, "e19");
    assert_eq!(rows[14].ext, "e5");
}

#[test]
fn a_created_task_gets_a_fresh_id() {
    let mut t = TaskTable::new();
    let a = t.create_task("folder_scan", "Klasör taraması: /x").unwrap();
    let b = t.create_task("folder_scan", "Klasör taraması: /y").unwrap();
    assert_eq!(a.len(), 36);
    assert_ne!(a, b);
    let list = t.list_tasks();
    assert_eq!(list.len(), 2);
    assert_eq!(find(&list, &a).title, "Klasör taraması: /x");
    assert_eq!(find(&list, &a).status, "kuyrukta");
}

#[test]
fn extensions_of_bare_names_are_lowered() {
    assert_eq!(ext_lower("Report.PDF"), "pdf");
    assert_eq!(ext_lower(".bashrc"), "");
    assert_eq!(ext_lower("noext"), "");
}
