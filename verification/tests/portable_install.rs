use amorfly_ai::installer::{
    install_result, ollama_unpack_args, piper_asset_url, piper_unpack_args, unpack_outcome,
    video2x_asset_url, voice_files,
};

fn assets(v: &[(&str, &str)]) -> Vec<(String, String)> {
    v.iter().map(|(a, b)| (a.to_string(), b.to_string())).collect()
}

#[test]
fn video2x_appimage_is_chosen() {
    let a = assets(&[
        ("video2x-windows-amd64.zip", "u1"),
        ("Video2X-x86_64.AppImage", "u2"),
        ("video2x-x86_64.appimage.sig", "u3"),
    ]);
    assert_eq!(video2x_asset_url(&a), Ok("u2".to_string()));
    assert!(video2x_asset_url(&assets(&[("video2x.zip", "u")])).unwrap_err().starts_with("Uygun bir Linux AppImage dosyası bulunamadı"));
}

#[test]
fn piper_linux_package_is_chosen() {
    let a = assets(&[("piper_macos_x64.tar.gz", "m"), ("piper_linux_aarch64.tar.gz", "arm"), ("piper_Linux_x86_64.tar.gz", "x")]);
    assert_eq!(piper_asset_url(&a), Ok("x".to_string()));
    assert!(piper_asset_url(&vec![]).unwrap_err().starts_with("Uygun bir Linux (x86_64) paketi bulunamadı"));
}

#[test]
fn archives_and_outcomes() {
    assert_eq!(ollama_unpack_args("o.tar.zst", "/b"), vec!["--zstd", "-xf", "o.tar.zst", "-C", "/b"]);
    assert_eq!(piper_unpack_args("/b", "p.tar.gz"), vec!["-C", "/b", "-xzf", "p.tar.gz"]);
    assert_eq!(unpack_outcome(false, true, true), Ok(()));
    assert!(unpack_outcome(false, true, false).unwrap_err().starts_with("Ollama arşivi açılamadı."));
    assert_eq!(
        unpack_outcome(true, false, true),
        Err("Piper arşivi açılamadı ya da beklenen dosya yapısı farklı — elle kurulum gerekebilir.".to_string())
    );
    let r = install_result("/b/ollama".into(), true);
    assert_eq!((r.installed_path.as_str(), r.already_running), ("/b/ollama", true));
}

#[test]
fn turkish_voice_files() {
    let f = voice_files();
    assert_eq!(f[0].0, "https://huggingface.co/rhasspy/piper-voices/resolve/main/tr/tr_TR/dfki/medium/tr_TR-dfki-medium.onnx");
    assert_eq!(f[1].1, "tr_TR-dfki-medium.onnx.json");
}
