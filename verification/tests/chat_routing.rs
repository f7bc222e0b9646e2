use amorfly_ai::chat::{
    chat_completions_url, chat_route, context_window, empty_chat_error, hybrid_review_request,
    missing_provider_error, ollama_model, ollama_reply, online_messages, online_reply,
    require_provider, route, single_review, split_last, ChatMessage, ChatMsgArg, ChatRoute,
    OnlineProviderConfig,
};

fn m(role: &str, content: &str) -> ChatMessage {
    ChatMessage { role: role.to_string(), content: content.to_string() }
}

#[test]
fn modes_route_requests() {
    assert_eq!(route("online"), ChatRoute::Online);
    assert_eq!(route("hibrit"), ChatRoute::Hybrid);
    assert_eq!(route("lokal"), ChatRoute::Local);
    assert_eq!(route("anything"), ChatRoute::Local);
}

#[test]
fn last_message_is_the_prompt() {
    let (p, h) = split_last(&[m("user", "a"), m("assistant", "b"), m("user", "c")]);
    assert_eq!(p, "c");
    let roles: Vec<(&str, &str)> = h.iter().map(|x| (x.role.as_str(), x.content.as_str())).collect();
    assert_eq!(roles, vec![("user", "a"), ("assistant", "b")]);
    let (p, h) = split_last(&[]);
    assert_eq!(p, "");
    assert!(h.is_empty());
}

#[test]
fn online_request_appends_the_prompt() {
    let h = vec![ChatMsgArg { role: "assistant".into(), content: "x".into() }];
    let r = online_messages("soru".into(), h);
    assert_eq!((r[1].role.as_str(), r[1].content.as_str()), ("user", "soru"));
}

#[test]
fn hybrid_review_wraps_the_draft() {
    let (prompt, history) = hybrid_review_request(&[m("user", "soru")], "taslak");
    assert!(prompt.ends_with("--- TASLAK ---\ntaslak\n--- TASLAK SONU ---"));
    assert_eq!(history.len(), 1);
    assert_eq!(history[0].content, "soru");
    let s = single_review("istek", "taslak");
    assert!(s.starts_with("Aşağıda yerel bir modelin ürettiği taslak cevap var. Orijinal istek: \"istek\"\n\n"));
    assert!(s.ends_with("--- TASLAK ---\ntaslak\n--- TASLAK SONU ---"));
}

#[test]
fn context_window_bounds() {
    assert_eq!(context_window(0), 2048);
    assert_eq!(context_window(6000), 2512);
    assert_eq!(context_window(3_000_000), 131072);
}

#[test]
fn engine_model_and_provider_url() {
    assert_eq!(ollama_model(""), "llama3.2");
    assert_eq!(ollama_model("qwen2.5:7b"), "qwen2.5:7b");
    assert_eq!(chat_completions_url("https://openrouter.ai/api/v1/"), "https://openrouter.ai/api/v1/chat/completions");
}

#[test]
fn replies_are_read() {
    assert_eq!(ollama_reply(r#"{"message":{"content":"selam"}}"#), Ok("selam".to_string()));
    assert_eq!(ollama_reply(r#"{"message":{}}"#), Err("Ollama yanıtında beklenen içerik bulunamadı.".to_string()));
    assert_eq!(ollama_reply("x"), Err("Ollama yanıtı çözümlenemedi: error decoding response body".to_string()));
    assert_eq!(online_reply("x"), Err("error decoding response body".to_string()));
    assert_eq!(online_reply(r#"{"choices":[{"message":{"content":"hi"}}]}"#), Ok("hi".to_string()));
    assert_eq!(online_reply(r#"{"choices":[]}"#), Err("Beklenmeyen yanıt formatı.".to_string()));
}

#[test]
fn provider_is_required_for_online_mode() {
    assert_eq!(empty_chat_error(), "Boş mesaj listesi.");
    assert_eq!(require_provider(None).err().unwrap(), missing_provider_error());
    let cfg = OnlineProviderConfig { label: "l".into(), base_url: "u".into(), api_key: "k".into(), model: "m".into() };
    assert_eq!(require_provider(Some(cfg)).unwrap().model, "m");
}

#[test]
fn a_chat_without_messages_is_refused_before_routing() {
    assert_eq!(chat_route("online", &[]), Err("Boş mesaj listesi.".to_string()));
    let msgs = [ChatMessage { role: "user".into(), content: "selam".into() }];
    assert!(matches!(chat_route("online", &msgs), Ok(ChatRoute::Online)));
    assert!(matches!(chat_route("hibrit", &msgs), Ok(ChatRoute::Hybrid)));
    assert!(matches!(chat_route("lokal", &msgs), Ok(ChatRoute::Local)));
}
