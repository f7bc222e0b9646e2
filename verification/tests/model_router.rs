use amorfly_ai::router::{suggest_model_for_task, RouterConfig};

fn models(v: &[&str]) -> Vec<String> {
    v.iter().map(|s| s.to_string()).collect()
}

#[test]
fn preferred_model_ignoring_the_tag() {
    let c = RouterConfig::default();
    assert_eq!(suggest_model_for_task(&c, "genel", &models(&["nomic-embed-text", "llama3.2:latest"])), Ok("llama3.2:latest".to_string()));
}

#[test]
fn keyword_fallback_for_code_and_images() {
    let c = RouterConfig::default();
    assert_eq!(suggest_model_for_task(&c, "kod", &models(&["llama3.2", "deepseek-Coder:6.7b"])), Ok("deepseek-Coder:6.7b".to_string()));
    assert_eq!(suggest_model_for_task(&c, "gorsel_analiz", &models(&["bakllava", "x"])), Ok("bakllava".to_string()));
}

#[test]
fn embedding_models_are_avoided() {
    let c = RouterConfig::default();
    assert_eq!(suggest_model_for_task(&c, "dil_egitimi", &models(&["nomic-embed-text", "mistral"])), Ok("mistral".to_string()));
    assert_eq!(suggest_model_for_task(&c, "dil_egitimi", &models(&["nomic-embed-text"])), Ok("nomic-embed-text".to_string()));
}

#[test]
fn nothing_installed() {
    let c = RouterConfig::default();
    assert_eq!(
        suggest_model_for_task(&c, "genel", &vec![]),
        Err("Hiç model kurulu değil. Önce Modeller sekmesinden bir model indir.".to_string())
    );
}
