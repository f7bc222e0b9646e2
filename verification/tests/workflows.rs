use amorfly_ai::agent::{workflow_run_start, workflow_step, WorkflowAction, WorkflowEvent};
use amorfly_ai::agent::{
    brackets_in_order, confirm_workflow, plan_from_body, plan_from_reply, plan_prompt, plan_steps,
    step_action, step_done, step_failed_line, step_finished_line, step_started_line,
    workflow_note, workflow_start, workflow_summary, workflow_title, StepAction,
};

fn ids(v: &[&str]) -> Vec<String> {
    v.iter().map(|s| s.to_string()).collect()
}

#[test]
fn plan_keeps_known_steps_in_order() {
    let steps = plan_steps(&ids(&["subtitle", "fly", "dub", "upscale", "dub"]));
    let got: Vec<(&str, &str)> = steps.iter().map(|s| (s.id.as_str(), s.label.as_str())).collect();
    assert_eq!(
        got,
        vec![
            ("subtitle", "Türkçe altyazı üret (whisper.cpp + yerel model çevirisi)"),
            ("dub", "Türkçe dublaj üret (Piper TTS)"),
            ("upscale", "Video kalitesini artır (Video2X)"),
            ("dub", "Türkçe dublaj üret (Piper TTS)"),
        ]
    );
}

#[test]
fn plan_prompt_lists_the_vocabulary() {
    let p = plan_prompt("4K yap");
    assert!(p.starts_with("Kullanıcının isteği: \"4K yap\"\n\nYalnızca şu adımlardan uygun olanları, doğru sırayla seç: \"subtitle\" (Türkçe altyazı üret (whisper.cpp + yerel model çevirisi)), \"dub\" (Türkçe dublaj üret (Piper TTS)), \"upscale\" (Video kalitesini artır (Video2X)).\nSADECE bir JSON dizisi döndür"));
    assert!(p.ends_with("çünkü dublaj altyazıya ihtiyaç duyar."));
}

#[test]
fn plan_is_read_between_the_brackets() {
    let steps = plan_from_reply("Tamam, işte plan: [\"subtitle\", \"upscale\"] umarım yardımcı olur").unwrap();
    let got: Vec<&str> = steps.iter().map(|s| s.id.as_str()).collect();
    assert_eq!(got, vec!["subtitle", "upscale"]);
}

#[test]
fn plan_errors() {
    assert_eq!(
        plan_from_reply("no list here").err().unwrap(),
        "Model geçerli bir plan üretemedi, tekrar dene ya da isteğini daha açık yaz."
    );
    assert_eq!(plan_from_reply("[subtitle]").err().unwrap(), "Plan çözümlenemedi, tekrar dene.");
    assert!(plan_from_reply("[\"dance\"]").err().unwrap().starts_with("İstekten bilinen bir iş akışı adımı çıkarılamadı."));
    assert!(plan_from_reply("[]").is_err());
}

#[test]
fn brackets_out_of_order_are_detected() {
    assert!(!brackets_in_order("] then ["));
    assert!(brackets_in_order("[\"dub\"]"));
    assert!(brackets_in_order("no brackets"));
}

#[test]
fn plan_from_engine_reply() {
    let body = r#"{"message":{"content":"[\"dub\"]"}}"#;
    let steps = plan_from_body(body).unwrap().unwrap();
    assert_eq!(steps[0].id, "dub");
    assert!(plan_from_body(r#"{"message":{}}"#).unwrap().is_err());
    assert!(plan_from_body("garbage").unwrap().is_err());
    assert!(plan_from_body(r#"{"message":{"content":"] ["}}"#).is_none());
}

#[test]
fn workflows_run_only_when_confirmed() {
    assert!(confirm_workflow(true).is_ok());
    assert_eq!(confirm_workflow(false).err().unwrap(), "Onaylanmamış iş akışı — güvenlik nedeniyle çalıştırılmadı.");
}

#[test]
fn dub_before_subtitles_fails() {
    let w = workflow_start("/v/a.mp4".to_string());
    match step_action(&w, "dub") {
        StepAction::Fail { error } => assert_eq!(error, "Önce altyazı üretilmeli (plan sırası hatalı)."),
        _ => panic!("dub must not run without subtitles"),
    }
}

#[test]
fn files_are_handed_from_step_to_step() {
    let mut w = workflow_start("/v/a.mp4".to_string());
    match step_action(&w, "subtitle") {
        StepAction::Subtitle { input, engine, libretranslate_url, vad_model_path } => {
            assert_eq!(input, "/v/a.mp4");
            assert_eq!(engine, "ollama");
            assert_eq!(libretranslate_url, "http://127.0.0.1:5000");
            assert_eq!(vad_model_path, "");
        }
        _ => panic!(),
    }
    step_done(&mut w, "subtitle", "/v/a.tr.srt".to_string());
    assert_eq!(w.current_path, "/v/a.mp4");
    match step_action(&w, "dub") {
        StepAction::Dub { video, srt } => {
            assert_eq!(video, "/v/a.mp4");
            assert_eq!(srt, "/v/a.tr.srt");
        }
        _ => panic!(),
    }
    step_done(&mut w, "dub", "/v/a.dublajli.mp4".to_string());
    match step_action(&w, "upscale") {
        StepAction::Upscale { input, scale } => {
            assert_eq!(input, "/v/a.dublajli.mp4");
            assert_eq!(scale, 2);
        }
        _ => panic!(),
    }
    step_done(&mut w, "upscale", "/v/a.dublajli.mp4.upscaled.mp4".to_string());
    assert_eq!(workflow_summary(&w), "İş akışı tamamlandı. Son dosya: /v/a.dublajli.mp4.upscaled.mp4");
}

#[test]
fn unknown_steps_fail() {
    let w = workflow_start("x".to_string());
    match step_action(&w, "dance") {
        StepAction::Fail { error } => assert_eq!(error, "Bilinmeyen adım: dance"),
        _ => panic!(),
    }
}

#[test]
fn workflow_texts() {
    let s = ids(&["subtitle", "dub"]);
    assert_eq!(workflow_title(&s), "İş akışı: subtitle → dub");
    let w = workflow_start("out.mp4".to_string());
    assert_eq!(workflow_note(&s, &w), "Otomatik iş akışı çalıştırdı (subtitle→dub): out.mp4");
    assert_eq!(step_started_line("dub"), "▶ dub başladı");
    assert_eq!(step_failed_line("dub", "x"), "✗ dub hatası: x");
    assert_eq!(step_finished_line("dub"), "✓ dub tamamlandı");
}

fn run_until_done(steps: &[&str], outcomes: &[Result<&str, &str>], cancel_after: Option<usize>) -> (Vec<String>, String) {
    let steps = ids(steps);
    let mut run = workflow_run_start("/v/in.mp4".to_string());
    let mut logs = Vec::new();
    let mut k = 0usize;
    let mut event = WorkflowEvent::Ready { cancelled: false };
    loop {
        match workflow_step(&mut run, &steps, event) {
            WorkflowAction::RunStep { log, .. } => {
                logs.push(log);
                let o = outcomes[k];
                k += 1;
                event = match o {
                    Ok(out) => WorkflowEvent::StepSucceeded { output: out.to_string() },
                    Err(e) => WorkflowEvent::StepFailed { error: e.to_string() },
                };
            }
            WorkflowAction::StepDone { log, done, total } => {
                logs.push(log);
                assert_eq!(total, steps.len());
                assert_eq!(done, k);
                event = WorkflowEvent::Ready { cancelled: cancel_after == Some(done) };
            }
            WorkflowAction::Fail { log, error } => {
                logs.push(log);
                return (logs, format!("hata: {}", error));
            }
            WorkflowAction::Finish { status, summary, note } => {
                logs.push(note);
                return (logs, format!("{}: {}", status, summary));
            }
        }
    }
}

#[test]
fn a_run_hands_files_from_step_to_step() {
    let (logs, end) = run_until_done(&["subtitle", "dub", "upscale"], &[Ok("/v/in.tr.srt"), Ok("/v/dub.mp4"), Ok("/v/up.mp4")], None);
    assert_eq!(end, "tamamlandı: İş akışı tamamlandı. Son dosya: /v/up.mp4");
    assert_eq!(logs[0], "▶ subtitle başladı");
    assert_eq!(logs[1], "✓ subtitle tamamlandı");
    assert_eq!(logs.last().unwrap(), "Otomatik iş akışı çalıştırdı (subtitle→dub→upscale): /v/up.mp4");
}

#[test]
fn a_cancelled_run_stops_as_cancelled() {
    let (logs, end) = run_until_done(&["subtitle", "upscale"], &[Ok("/v/in.tr.srt"), Ok("/v/up.mp4")], Some(1));
    assert_eq!(end, "iptal edildi: İş akışı tamamlandı. Son dosya: /v/in.mp4");
    assert!(!logs.iter().any(|l| l.contains("upscale başladı")));
}

#[test]
fn a_failed_step_fails_the_run() {
    let (logs, end) = run_until_done(&["upscale", "dub"], &[Err("video2x yok")], None);
    assert_eq!(end, "hata: video2x yok");
    assert_eq!(logs.last().unwrap(), "✗ upscale hatası: video2x yok");
}

#[test]
fn a_reply_with_brackets_back_to_back_does_not_parse() {
    assert!(brackets_in_order("tamam ]["));
    assert_eq!(plan_from_reply("tamam ][").err(), Some("Plan çözümlenemedi, tekrar dene.".to_string()));
    assert!(!brackets_in_order("] x ["));
}

#[test]
fn a_reply_that_is_not_json_is_refused_like_a_body_that_does_not_decode() {
    assert_eq!(plan_from_body("not json").map(|r| r.map(|v| v.len())), Some(Err("error decoding response body".to_string())));
}
