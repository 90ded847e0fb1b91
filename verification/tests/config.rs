use rss_digest::config::{AppConfig, Env, UserConfig};

fn env(vars: &[(&str, &str)]) -> Env {
    Env {
        vars: vars
            .iter()
            .map(|(name, value)| (name.to_string(), value.to_string()))
            .collect(),
    }
}

const REQUIRED: [(&str, &str); 8] = [
    ("FRESHRSS_URL", "https://example.com/freshrss"),
    ("FRESHRSS_API_PASSWORD", "api"),
    ("QDRANT_URL", "http://localhost:6334"),
    ("LIBRETRANSLATE_URL", "http://localhost:5000"),
    ("SMTP_HOST", "smtp.example.com"),
    ("SMTP_USERNAME", "user"),
    ("SMTP_PASSWORD", "password"),
    ("SMTP_FROM", "news@example.com"),
];

fn required_and(more: &[(&str, &str)]) -> Env {
    let mut vars = REQUIRED.to_vec();
    vars.extend_from_slice(more);
    env(&vars)
}

fn user() -> UserConfig {
    UserConfig {
        name: "Kim".to_string(),
        freshrss_username: "kim".to_string(),
        freshrss_api_password: Some("own".to_string()),
        email: "kim@example.com".to_string(),
        target_language: Some("en".to_string()),
        shared_feeds: Some(vec!["1".to_string()]),
    }
}

#[test]
fn defaults_stand_in_for_what_is_not_set() {
    let config =
        AppConfig::load_from_env(&required_and(&[("DEFAULT_EMAIL", "me@example.com")]), None)
            .unwrap();
    assert_eq!(config.freshrss.url, "https://example.com/freshrss");
    assert_eq!(config.freshrss.api_password, "api");
    assert_eq!(config.qdrant.collection, "articles");
    assert_eq!(config.qdrant.api_key, None);
    assert_eq!(config.qdrant.embedding_model, "nomic-embed-text");
    assert_eq!(config.qdrant.embedding_url, "http://localhost:11434");
    assert_eq!(config.qdrant.embedding_dim, 768);
    assert_eq!(config.qdrant.context_window_days, 30);
    assert_eq!(config.qdrant.top_k, 5);
    assert_eq!(config.ollama.url, "http://localhost:11434");
    assert_eq!(config.ollama.model, "llama3.1");
    assert_eq!(config.ollama.summarizer_prompt, AppConfig::default_prompt());
    assert_eq!(
        config.ollama.article_summary_prompt,
        AppConfig::default_article_prompt()
    );
    assert_eq!(config.smtp.port, 587);
    assert_eq!(config.smtp.tls_mode, "starttls");
    assert_eq!(config.cron.time, "06:00");
    assert_eq!(config.cron.timezone, "UTC");
    assert_eq!(config.users.len(), 1);
    assert_eq!(config.users[0].name, "Default");
    assert_eq!(config.users[0].freshrss_username, "admin");
    assert_eq!(config.users[0].email, "me@example.com");
    assert_eq!(config.users[0].freshrss_api_password, None);
    assert_eq!(config.users[0].target_language, None);
}

#[test]
fn settings_are_taken_over() {
    let config = AppConfig::load_from_env(
        &required_and(&[
            ("OLLAMA_URL", "http://llm:1"),
            ("RAG_TOP_K", "9"),
            ("EMBEDDING_DIM", "1024"),
            ("CONTEXT_WINDOW_DAYS", "-1"),
            ("SMTP_PORT", "25"),
            ("QDRANT_API_KEY", "secret"),
            ("CRON_TIME", "07:15"),
        ]),
        Some(vec![user()]),
    )
    .unwrap();
    assert_eq!(config.ollama.url, "http://llm:1");
    assert_eq!(config.qdrant.embedding_url, "http://llm:1");
    assert_eq!(config.qdrant.top_k, 9);
    assert_eq!(config.qdrant.embedding_dim, 1024);
    assert_eq!(config.qdrant.context_window_days, -1);
    assert_eq!(config.smtp.port, 25);
    assert_eq!(config.qdrant.api_key.as_deref(), Some("secret"));
    assert_eq!(config.cron.time, "07:15");
    assert_eq!(config.users.len(), 1);
    assert_eq!(config.users[0].name, "Kim");
}

#[test]
fn numbers_that_cannot_be_read_give_defaults() {
    let config = AppConfig::load_from_env(
        &required_and(&[
            ("RAG_TOP_K", "many"),
            ("SMTP_PORT", "65536"),
            ("EMBEDDING_DIM", "-1"),
            ("CONTEXT_WINDOW_DAYS", "x"),
        ]),
        Some(Vec::new()),
    )
    .unwrap();
    assert_eq!(config.qdrant.top_k, 5);
    assert_eq!(config.smtp.port, 587);
    assert_eq!(config.qdrant.embedding_dim, 768);
    assert_eq!(config.qdrant.context_window_days, 30);
    assert!(config.users.is_empty());
}

#[test]
fn each_required_variable_is_asked_for() {
    for i in 0..REQUIRED.len() {
        let mut vars = REQUIRED.to_vec();
        let (name, _) = vars.remove(i);
        let error = AppConfig::load_from_env(&env(&vars), Some(Vec::new())).unwrap_err();
        assert_eq!(error.variable, name);
        assert!(error.message().contains(name));
    }
    let error = AppConfig::load_from_env(&required_and(&[]), None).unwrap_err();
    assert_eq!(error.variable, "DEFAULT_EMAIL");
    let error = AppConfig::load_from_env(&env(&[]), None).unwrap_err();
    assert_eq!(error.variable, "FRESHRSS_URL");
}

#[test]
fn the_old_password_variable_still_works() {
    let mut vars = REQUIRED.to_vec();
    vars[1] = ("FRESHRSS_PASSWORD", "old");
    let config = AppConfig::load_from_env(&env(&vars), Some(Vec::new())).unwrap();
    assert_eq!(config.freshrss.api_password, "old");
    assert!(AppConfig::uses_deprecated_password(&env(&vars)));
    vars.push(("FRESHRSS_API_PASSWORD", "new"));
    let config = AppConfig::load_from_env(&env(&vars), Some(Vec::new())).unwrap();
    assert_eq!(config.freshrss.api_password, "new");
    assert!(!AppConfig::uses_deprecated_password(&env(&vars)));
}

#[test]
fn the_default_prompts_have_their_markers() {
    let prompt = AppConfig::default_prompt();
    for marker in ["{rag_context}", "{articles}", "{date}"] {
        assert!(prompt.contains(marker));
    }
    assert!(prompt.starts_with("You are an expert RSS digest summarizer.\n"));
    let prompt = AppConfig::default_article_prompt();
    for marker in ["{rag_context}", "{article_title}", "{article_content}"] {
        assert!(prompt.contains(marker));
    }
}

#[test]
fn a_user_is_copied_whole() {
    let copy = user().copy();
    assert_eq!(format!("{:?}", copy), format!("{:?}", user()));
}

#[test]
fn the_old_user_name_variable_is_not_read() {
    let vars = [("FRESHRSS_USERNAME", "kim"), ("DEFAULT_EMAIL", "me@example.com")];
    let config = AppConfig::load_from_env(&required_and(&vars), None).unwrap();
    assert_eq!(config.users[0].freshrss_username, "admin");
    let without = AppConfig::load_from_env(&required_and(&vars[1..]), None).unwrap();
    assert_eq!(format!("{:?}", config), format!("{:?}", without));
}
