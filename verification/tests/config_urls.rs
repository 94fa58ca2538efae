use warp_ollama::config::{
    OllamaConfig, DEFAULT_OLLAMA_MODEL, DEFAULT_OLLAMA_URL, OLLAMA_MODEL_PREFIX,
};

fn config_with_base(base: &str) -> OllamaConfig {
    OllamaConfig { enabled: true, base_url: base.to_string(), model: "llama3.1".to_string() }
}

#[test]
fn default_config_points_at_local_ollama() {
    let config = OllamaConfig::default();
    assert!(config.enabled);
    assert_eq!(config.base_url, "http://localhost:11434");
    assert_eq!(config.model, "llama3.1");
    assert_eq!(DEFAULT_OLLAMA_URL, "http://localhost:11434");
    assert_eq!(DEFAULT_OLLAMA_MODEL, "llama3.1");
}

#[test]
fn default_endpoint_urls() {
    let config = OllamaConfig::default();
    assert_eq!(config.chat_completions_url(), "http://localhost:11434/v1/chat/completions");
    assert_eq!(config.tags_url(), "http://localhost:11434/api/tags");
}

#[test]
fn trailing_slashes_of_the_base_url_are_dropped() {
    for base in ["http://h:1", "http://h:1/", "http://h:1///"] {
        let config = config_with_base(base);
        assert_eq!(config.chat_completions_url(), "http://h:1/v1/chat/completions");
        assert_eq!(config.tags_url(), "http://h:1/api/tags");
    }
}

#[test]
fn inner_slashes_of_the_base_url_are_kept() {
    let config = config_with_base("http://h/prefix/");
    assert_eq!(config.chat_completions_url(), "http://h/prefix/v1/chat/completions");
}

#[test]
fn empty_and_all_slash_base_urls() {
    assert_eq!(config_with_base("").chat_completions_url(), "/v1/chat/completions");
    assert_eq!(config_with_base("///").tags_url(), "/api/tags");
}

#[test]
fn model_id_adds_the_prefix() {
    assert_eq!(OLLAMA_MODEL_PREFIX, "ollama:");
    assert_eq!(OllamaConfig::model_id("llama3.1"), "ollama:llama3.1");
    assert_eq!(OllamaConfig::model_id(""), "ollama:");
}

#[test]
fn ollama_model_ids_are_recognised() {
    assert!(OllamaConfig::is_ollama_model_id("ollama:llama3.1"));
    assert!(OllamaConfig::is_ollama_model_id("ollama:"));
    assert!(!OllamaConfig::is_ollama_model_id("ollama"));
    assert!(!OllamaConfig::is_ollama_model_id("gpt-4o"));
    assert!(!OllamaConfig::is_ollama_model_id("Ollama:llama3.1"));
    assert!(!OllamaConfig::is_ollama_model_id(""));
}

#[test]
fn model_name_is_extracted_from_ollama_ids_only() {
    assert_eq!(OllamaConfig::extract_model_name("ollama:codellama"), Some("codellama"));
    assert_eq!(OllamaConfig::extract_model_name("ollama:"), Some(""));
    assert_eq!(OllamaConfig::extract_model_name("ollama:ollama:x"), Some("ollama:x"));
    assert_eq!(OllamaConfig::extract_model_name("ollama:mod\u{e8}le"), Some("mod\u{e8}le"));
    assert_eq!(OllamaConfig::extract_model_name("ollama:caf\u{e9}"), Some("caf\u{e9}"));
    assert_eq!(OllamaConfig::extract_model_name("gpt-4o"), None);
    assert_eq!(OllamaConfig::extract_model_name("olla"), None);
}

#[test]
fn model_id_round_trip() {
    for name in ["llama3.1", "mistral", "", "qwen2.5-coder:7b", "\u{65e5}\u{672c}"] {
        let id = OllamaConfig::model_id(name);
        assert!(OllamaConfig::is_ollama_model_id(&id));
        assert_eq!(OllamaConfig::extract_model_name(&id), Some(name));
    }
    for id in ["ollama:a", "ollama:", "other", ""] {
        match OllamaConfig::extract_model_name(id) {
            Some(name) => {
                assert!(OllamaConfig::is_ollama_model_id(id));
                assert_eq!(OllamaConfig::model_id(name), id);
            }
            None => assert!(!OllamaConfig::is_ollama_model_id(id)),
        }
    }
}
