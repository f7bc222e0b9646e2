use amorfly_ai::chat::ChatMessage;
use amorfly_ai::engine::{conversation_window, gpu_info, installed_models, listed_model_count, text_len, unreachable_engine_error};

fn m(content: &str) -> ChatMessage {
    ChatMessage { role: "user".to_string(), content: content.to_string() }
}

#[test]
fn text_size_is_counted_in_utf8_bytes() {
    assert_eq!(text_len("abc"), 3);
    assert_eq!(text_len("ğüş"), 6);
    assert_eq!(text_len("€"), 3);
    assert_eq!(text_len("😀"), 4);
    assert_eq!(text_len("ğüş"), "ğüş".len());
}

#[test]
fn short_conversations_get_the_smallest_window() {
    assert_eq!(conversation_window(&vec![m("merhaba")]), 2048);
    assert_eq!(conversation_window(&vec![]), 2048);
}

#[test]
fn long_conversations_get_a_third_plus_512() {
    let big = "a".repeat(30_000);
    assert_eq!(conversation_window(&vec![m(&big), m(&big)]), 20_512);
    let huge = "ş".repeat(300_000);
    assert_eq!(conversation_window(&vec![m(&huge)]), 131_072);
}

#[test]
fn installed_models_are_the_named_entries() {
    let body = r#"{"models":[{"name":"llama3.2:latest"},{"size":1},{"name":"llava:7b"}]}"#;
    assert_eq!(installed_models(body), Ok(vec!["llama3.2:latest".to_string(), "llava:7b".to_string()]));
    assert_eq!(listed_model_count(body), 3);
    assert_eq!(installed_models("{}"), Ok(vec![]));
    assert_eq!(listed_model_count("{}"), 0);
    assert_eq!(installed_models("x"), Err("Model listesi çözümlenemedi: error decoding response body".to_string()));
    assert_eq!(listed_model_count("x"), 0);
}

#[test]
fn gpu_from_nvidia_smi() {
    let g = gpu_info(Some(" NVIDIA RTX A6000, 49140, 48000 \n"), Some("VGA compatible controller: X"));
    assert_eq!((g.vendor.as_str(), g.model.as_str(), g.total_vram_mb, g.free_vram_mb, g.source.as_str()),
        ("NVIDIA", "NVIDIA RTX A6000", 49140, 48000, "nvidia-smi"));
    let g = gpu_info(Some("RTX, n/a, 12"), None);
    assert_eq!((g.total_vram_mb, g.free_vram_mb), (0, 12));
}

#[test]
fn gpu_from_lspci_or_unknown() {
    let lspci = "00:02.0 Host bridge: Intel\n00:02.1 vga compatible controller: Intel UHD\n01:00.0 VGA: NVIDIA";
    let g = gpu_info(Some("only, two"), Some(lspci));
    assert_eq!(g.vendor, "Generic");
    assert_eq!(g.model, "00:02.1 vga compatible controller: Intel UHD");
    assert_eq!(g.source, "lspci (VRAM tespiti yok, sürücüye bağlı)");
    let g = gpu_info(None, Some("nothing"));
    assert_eq!((g.vendor.as_str(), g.model.as_str(), g.source.as_str()), ("Bilinmiyor", "Tespit edilemedi", "none"));
}

#[test]
fn engine_unreachable_message() {
    assert_eq!(
        unreachable_engine_error("refused"),
        "Ollama'ya ulaşılamadı. Terminalde 'ollama serve' çalıştığından emin olun. Detay: refused"
    );
}
