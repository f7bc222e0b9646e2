use amorfly_ai::diagnostics::{
    confirm_install, diagnostics_report, install_command, no_terminal_error, pkexec_args,
    terminal_launch, Probes, Terminals,
};

fn none_found() -> Probes {
    Probes {
        ollama_running: false,
        model_count: 3,
        ffmpeg: false,
        zstd: false,
        libretranslate_running: false,
        video2x_on_path: false,
        video2x_portable: false,
        whisper_cli: false,
        piper_on_path: false,
        piper_portable: false,
        pandoc: false,
        pdftotext: false,
        libreoffice: false,
        xdotool: false,
        tesseract: false,
        python3: false,
    }
}

#[test]
fn report_has_fourteen_lines_in_order() {
    let r = diagnostics_report(&none_found(), "0.1.0".to_string());
    let names: Vec<&str> = r.checks.iter().map(|c| c.name.as_str()).collect();
    assert_eq!(
        names,
        vec![
            "Ollama",
            "İndirilmiş Model",
            "ffmpeg",
            "zstd",
            "LibreTranslate (opsiyonel)",
            "Video2X",
            "whisper.cpp (whisper-cli)",
            "Piper TTS",
            "pandoc",
            "poppler-utils (pdftotext)",
            "LibreOffice",
            "xdotool",
            "tesseract-ocr",
            "Python 3",
        ]
    );
    assert_eq!(r.app_version, "0.1.0");
}

#[test]
fn models_are_counted_only_when_the_engine_runs() {
    let r = diagnostics_report(&none_found(), String::new());
    assert_eq!(r.checks[0].detail, "Bulunamadı ya da çalışmıyor");
    assert!(r.checks[0].auto_installable);
    assert_eq!(r.checks[1].detail, "0 model bulundu");
    assert!(!r.checks[1].ok);
    let mut p = none_found();
    p.ollama_running = true;
    let r = diagnostics_report(&p, String::new());
    assert_eq!(r.checks[0].detail, "Çalışıyor (127.0.0.1:11434)");
    assert!(!r.checks[0].auto_installable);
    assert_eq!(r.checks[1].detail, "3 model bulundu");
    assert!(r.checks[1].ok);
}

#[test]
fn portable_copies_count_as_installed() {
    let mut p = none_found();
    p.video2x_portable = true;
    p.piper_on_path = true;
    let r = diagnostics_report(&p, String::new());
    assert!(r.checks[5].ok && !r.checks[5].auto_installable);
    assert!(r.checks[7].ok && !r.checks[7].auto_installable);
    let r = diagnostics_report(&none_found(), String::new());
    assert!(!r.checks[5].ok && r.checks[5].auto_installable);
}

#[test]
fn packages_are_named() {
    let r = diagnostics_report(&none_found(), String::new());
    assert_eq!(r.checks[2].apt_package.as_deref(), Some("ffmpeg"));
    assert_eq!(r.checks[9].apt_package.as_deref(), Some("poppler-utils"));
    assert_eq!(r.checks[12].apt_package.as_deref(), Some("tesseract-ocr tesseract-ocr-tur"));
    assert_eq!(r.checks[4].apt_package, None);
}

#[test]
fn install_needs_confirmation() {
    assert_eq!(confirm_install(true), Ok(()));
    assert_eq!(
        confirm_install(false),
        Err("Onaylanmamış kurulum isteği — güvenlik nedeniyle çalıştırılmadı.".to_string())
    );
}

#[test]
fn install_commands() {
    let pkgs = vec!["ffmpeg".to_string(), "zstd".to_string()];
    assert_eq!(pkexec_args(&pkgs), vec!["apt-get", "install", "-y", "ffmpeg", "zstd"]);
    let cmd = install_command(&pkgs);
    assert_eq!(
        cmd,
        "sudo apt update && sudo apt install -y ffmpeg zstd; echo; echo 'Kurulum bitti, bu pencereyi kapatabilirsin.'; exec bash"
    );
    assert_eq!(
        no_terminal_error(&pkgs),
        "Desteklenen bir terminal bulunamadı. Elle çalıştır: sudo apt install -y ffmpeg zstd"
    );
}

#[test]
fn first_terminal_found_is_used() {
    let all = Terminals { gnome_terminal: true, konsole: true, xfce4_terminal: true, xterm: true };
    let (p, a) = terminal_launch(&all, "c").unwrap();
    assert_eq!((p.as_str(), a), ("gnome-terminal", vec!["--".to_string(), "bash".into(), "-c".into(), "c".into()]));
    let xfce = Terminals { gnome_terminal: false, konsole: false, xfce4_terminal: true, xterm: true };
    let (p, a) = terminal_launch(&xfce, "ls").unwrap();
    assert_eq!((p.as_str(), a), ("xfce4-terminal", vec!["-e".to_string(), "bash -c \"ls\"".into()]));
    let none = Terminals { gnome_terminal: false, konsole: false, xfce4_terminal: false, xterm: false };
    assert!(terminal_launch(&none, "ls").is_none());
}
