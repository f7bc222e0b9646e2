use amorfly_ai::upscale::{
    check_memory_or_warn, choose_video2x, finished, heartbeat, interpolate_args,
    interpolate_outcome, interpolate_output_path, nice_prefix, parse_gpu_list, upscale_args,
    upscale_note, upscale_outcome, upscale_output_path,
};

#[test]
fn gpus_are_read_from_the_list() {
    let out = "Available GPUs:\n0. NVIDIA RTX A6000\n 1 .  Intel(R) UHD 630 \nno number. here\n2: bad\n";
    let gpus = parse_gpu_list(out);
    let v: Vec<(u32, &str)> = gpus.iter().map(|g| (g.index, g.name.as_str())).collect();
    assert_eq!(v, vec![(0, "NVIDIA RTX A6000"), (1, "Intel(R) UHD 630")]);
}

#[test]
fn upscale_command_line() {
    assert_eq!(upscale_output_path("/v/a.mp4"), "/v/a.mp4.upscaled.mp4");
    assert_eq!(
        upscale_args("/v/a.mp4", "/v/a.mp4.upscaled.mp4", 4, "realesr-animevideov3", None),
        vec!["-i", "/v/a.mp4", "-o", "/v/a.mp4.upscaled.mp4", "-p", "realesrgan", "-s", "4", "--realesrgan-model", "realesr-animevideov3"]
    );
    let with_gpu = upscale_args("a", "b", 2, "m", Some(1));
    assert_eq!(&with_gpu[10..], &["-g".to_string(), "1".to_string()]);
    assert_eq!(nice_prefix("video2x"), vec!["-n", "15", "video2x"]);
}

#[test]
fn frame_rate_command_line() {
    assert_eq!(interpolate_output_path("a.mp4"), "a.mp4.smooth.mp4");
    assert_eq!(
        interpolate_args("a.mp4", "a.mp4.smooth.mp4", 60),
        vec!["-i", "a.mp4", "-o", "a.mp4.smooth.mp4", "-p", "rife", "--rife-fps", "60"]
    );
}

#[test]
fn video2x_binary_choice() {
    assert_eq!(choose_video2x(Some("  /usr/bin/video2x\n"), Some("/p/video2x.AppImage".into())), Ok("/usr/bin/video2x".to_string()));
    assert_eq!(choose_video2x(Some("   "), Some("/p/video2x.AppImage".into())), Ok("/p/video2x.AppImage".to_string()));
    assert_eq!(choose_video2x(None, Some("/p/v".into())), Ok("/p/v".to_string()));
    assert!(choose_video2x(None, None).unwrap_err().starts_with("video2x bulunamadı."));
}

#[test]
fn upscale_memory_check_has_its_own_message() {
    let e = check_memory_or_warn(Some("MemAvailable: 102400 kB\n")).unwrap_err();
    assert_eq!(
        e,
        "Boş bellek kritik derecede az (100 MB). video2x bu durumda çalışırsa sistemin kilitlenmesine yol açabilir. Lütfen önce diğer ağır uygulamaları kapatıp tekrar dene."
    );
    assert!(check_memory_or_warn(Some("MemAvailable: 3000000 kB\n")).is_ok());
}

#[test]
fn progress_and_outcome() {
    let h = heartbeat(9);
    assert_eq!(h.status, "İşleniyor… (9 saniye geçti — bu işlem videonun kendisinden çok daha uzun sürebilir, bu normal)");
    assert!(!h.done);
    let f = finished(12);
    assert_eq!((f.status.as_str(), f.elapsed_secs, f.done), ("tamamlandı", 12, true));
    assert_eq!(upscale_outcome(true, "o.mp4".into()).unwrap().output_path, "o.mp4");
    assert!(upscale_outcome(false, "o.mp4".into()).err().unwrap().starts_with("video2x işlemi başarısız oldu."));
    assert_eq!(interpolate_outcome(false, "x".into()).err().unwrap(), "Kare hızı artırma işlemi başarısız oldu.");
    assert_eq!(upscale_note("a.mp4", 4, "RealESRGAN_x4plus"), "'a.mp4' videosunu 4x büyüttü (RealESRGAN_x4plus)");
}
