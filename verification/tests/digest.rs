use rss_digest::config::{
    AppConfig, CronConfig, FreshRSSConfig, LibreTranslateConfig, OllamaConfig, QdrantConfig,
    SmtpConfig, UserConfig,
};
use rss_digest::digest::{
    combine_rag_context, generate_and_send_digest, join_summaries, run_result, start_digests,
};
use rss_digest::freshrss_fever::Article;
use rss_digest::json::Json;
use rss_digest::user_digest::{DigestAction, DigestEvent, Outcome, Stage, UserDigest};

fn stored(members: &[(&str, &str)]) -> Json {
    let mut object = Json::object();
    for (key, value) in members {
        object = object.with(key, Json::text(value));
    }
    object
}

fn user(name: &str, target_language: Option<&str>) -> UserConfig {
    UserConfig {
        name: name.to_string(),
        freshrss_username: name.to_lowercase(),
        freshrss_api_password: Some("api".to_string()),
        email: format!("{}@example.com", name.to_lowercase()),
        target_language: target_language.map(|s| s.to_string()),
        shared_feeds: None,
    }
}

fn config(users: Vec<UserConfig>) -> AppConfig {
    AppConfig {
        freshrss: FreshRSSConfig {
            url: "https://rss.example.com".to_string(),
            api_password: "shared".to_string(),
        },
        qdrant: QdrantConfig {
            url: "http://localhost:6334".to_string(),
            api_key: None,
            collection: "articles".to_string(),
            embedding_model: "nomic-embed-text".to_string(),
            embedding_url: "http://localhost:11434".to_string(),
            embedding_dim: 768,
            context_window_days: 30,
            top_k: 7,
        },
        ollama: OllamaConfig {
            url: "http://localhost:11434".to_string(),
            model: "llama3.1".to_string(),
            summarizer_prompt: String::new(),
            article_summary_prompt: String::new(),
        },
        libretranslate: LibreTranslateConfig {
            url: "http://localhost:5000".to_string(),
            api_key: None,
        },
        smtp: SmtpConfig {
            host: "smtp.example.com".to_string(),
            port: 587,
            username: "u".to_string(),
            password: "p".to_string(),
            from: "digest@example.com".to_string(),
            tls_mode: "starttls".to_string(),
        },
        users,
        cron: CronConfig {
            time: "06:00".to_string(),
            timezone: "UTC".to_string(),
        },
    }
}

fn article(id: u64, url: &str) -> Article {
    Article {
        id,
        title: format!("Title {}", id),
        author: None,
        content: format!("Content {}", id),
        url: url.to_string(),
        feed_title: "Feed".to_string(),
        feed_url: None,
        language: None,
        published: 1_000,
    }
}

fn start(target_language: Option<&str>) -> UserDigest {
    let config = config(vec![user("Kim", target_language)]);
    start_digests(&config, "2025-07-01", 200_000).remove(0)
}

/// Takes a digest with its articles up to the stage where its mail is to be sent.
fn written(digest: UserDigest) -> UserDigest {
    let mut digest = digest;
    loop {
        let event = match digest.action().unwrap() {
            DigestAction::Lookup { .. } => DigestEvent::Found(Vec::new()),
            DigestAction::Upsert { .. } => DigestEvent::Done,
            DigestAction::Search { .. } => DigestEvent::Found(Vec::new()),
            DigestAction::Recent { .. } => DigestEvent::Found(Vec::new()),
            DigestAction::Summarize { title, .. } => {
                DigestEvent::Answer(format!("Summary of {}", title))
            }
            DigestAction::Detect { .. } => DigestEvent::Answer("de".to_string()),
            DigestAction::Translate { text, .. } => DigestEvent::Answer(format!("T: {}", text)),
            DigestAction::Store { .. } => DigestEvent::Done,
            DigestAction::Overall { .. } => DigestEvent::Answer("The digest".to_string()),
            DigestAction::Send { .. } => return digest,
            other => panic!("{:?}", other),
        };
        digest = digest.after(event);
    }
}

fn outcome(digest: &UserDigest) -> &Outcome {
    match &digest.stage {
        Stage::Finished { outcome } => outcome,
        other => panic!("not finished: {:?}", other),
    }
}

#[test]
fn test_combine_rag_context_empty() {
    let semantic: Vec<Json> = Vec::new();
    let recent: Vec<Json> = Vec::new();
    let result = combine_rag_context(&semantic, &recent);
    assert!(result.is_empty());
}

#[test]
fn test_combine_rag_context_with_data() {
    let semantic = vec![stored(&[
        ("summary", "Past event about X"),
        ("title", "Old article"),
    ])];
    let recent = vec![stored(&[
        ("summary", "Recent digest about Y"),
        ("title", "Recent article"),
        ("digest_date", "2025-07-01"),
    ])];
    let result = combine_rag_context(&semantic, &recent);
    assert!(result.contains("Past event about X"));
    assert!(result.contains("Recent digest about Y"));
    assert!(result.contains("## Recent Digest Context"));
}

#[test]
fn the_context_is_written_exactly() {
    let semantic = vec![
        stored(&[("summary", "A")]),
        stored(&[("title", "no summary")]),
        Json::object().with("summary", Json::Null),
        stored(&[("summary", "B")]),
    ];
    let recent = vec![
        stored(&[("summary", "S"), ("title", "T"), ("digest_date", "D")]),
        stored(&[("summary", ""), ("title", "empty")]),
        stored(&[("summary", "bare")]),
    ];
    assert_eq!(
        combine_rag_context(&semantic, &recent),
        "## Related Past Articles\nA\n\nB\n\n## Recent Digest Context\n- **T** (D): S\n- **** (): bare"
    );
    assert_eq!(
        combine_rag_context(&semantic, &Vec::new()),
        "## Related Past Articles\nA\n\nB"
    );
    assert_eq!(join_summaries(&semantic), "A\n\nB");
}

#[test]
fn every_user_has_a_digest_of_the_last_day() {
    let config = config(vec![user("Kim", None), user("Lee", Some("en"))]);
    let digests = generate_and_send_digest(&config, 1_751_328_000).unwrap();
    assert_eq!(digests.len(), 2);
    assert_eq!(digests[0].date, "2025-07-01");
    assert_eq!(digests[0].since, 1_751_241_600);
    assert_eq!(digests[0].top_k, 7);
    assert_eq!(digests[0].context_window_days, 30);
    assert_eq!(digests[1].user.name, "Lee");
    assert_eq!(digests[0].collection, "articles_kim");
    assert_eq!(digests[1].collection, "articles_lee");
    match digests[1].action().unwrap() {
        DigestAction::Fetch {
            username,
            api_password,
            since,
        } => {
            assert_eq!(username, "lee");
            assert_eq!(api_password, Some("api"));
            assert_eq!(since, 1_751_241_600);
        }
        other => panic!("{:?}", other),
    }
}

#[test]
fn the_date_is_that_of_utc() {
    let config = config(vec![user("Kim", None)]);
    let last_second = generate_and_send_digest(&config, 1_751_327_999).unwrap();
    assert_eq!(last_second[0].date, "2025-06-30");
    let epoch = generate_and_send_digest(&config, 0).unwrap();
    assert_eq!(epoch[0].date, "1970-01-01");
    assert!(generate_and_send_digest(&config, i64::MAX).is_none());
}

#[test]
fn a_digest_goes_through_its_actions() {
    let digest = start(None).after(DigestEvent::Fetched(vec![article(7, "u7")]));
    match digest.action().unwrap() {
        DigestAction::Lookup { collection, id } => {
            assert_eq!(collection, "articles_kim");
            assert_eq!(id, 7);
        }
        other => panic!("{:?}", other),
    }
    let digest = digest.after(DigestEvent::Found(Vec::new()));
    match digest.action().unwrap() {
        DigestAction::Upsert {
            collection,
            article,
            known,
            digest_date,
        } => {
            assert_eq!(collection, "articles_kim");
            assert_eq!(article.id, 7);
            assert_eq!(known, None);
            assert_eq!(digest_date, "2025-07-01");
        }
        other => panic!("{:?}", other),
    }
    let digest = digest.after(DigestEvent::Done);
    match digest.action().unwrap() {
        DigestAction::Search {
            collection,
            query,
            top_k,
        } => {
            assert_eq!(collection, "articles_kim");
            assert_eq!(query, "Title 7");
            assert_eq!(top_k, 7);
        }
        other => panic!("{:?}", other),
    }
    let digest = digest.after(DigestEvent::Found(vec![stored(&[("summary", "Before")])]));
    match digest.action().unwrap() {
        DigestAction::Recent {
            collection,
            days,
            limit,
        } => {
            assert_eq!(collection, "articles_kim");
            assert_eq!(days, 30);
            assert_eq!(limit, 5);
        }
        other => panic!("{:?}", other),
    }
    let digest = digest.after(DigestEvent::Found(Vec::new()));
    match digest.action().unwrap() {
        DigestAction::Summarize {
            rag_context,
            title,
            content,
        } => {
            assert_eq!(rag_context, "## Related Past Articles\nBefore");
            assert_eq!(title, "Title 7");
            assert_eq!(content, "Content 7");
        }
        other => panic!("{:?}", other),
    }
    let digest = digest.after(DigestEvent::Answer("Short".to_string()));
    match digest.action().unwrap() {
        DigestAction::Store {
            collection,
            digest_date,
            summary,
        } => {
            assert_eq!(collection, "articles_kim");
            assert_eq!(digest_date, "2025-07-01");
            assert_eq!(summary.url, "u7");
            assert_eq!(summary.summary, "Short");
            assert_eq!(summary.translated, None);
        }
        other => panic!("{:?}", other),
    }
    let digest = digest.after(DigestEvent::Done);
    match digest.action().unwrap() {
        DigestAction::Search {
            collection,
            query,
            top_k,
        } => {
            assert_eq!(collection, "articles_kim");
            assert_eq!(query, "2025-07-01 events predictions reminders");
            assert_eq!(top_k, 5);
        }
        other => panic!("{:?}", other),
    }
    let digest = digest.after(DigestEvent::Found(vec![
        stored(&[("summary", "One")]),
        stored(&[("summary", "Two")]),
    ]));
    match digest.action().unwrap() {
        DigestAction::Overall {
            today_rag,
            summaries,
            date,
            target_language,
        } => {
            assert_eq!(today_rag, "One\n\nTwo");
            assert_eq!(summaries.len(), 1);
            assert_eq!(date, "2025-07-01");
            assert_eq!(target_language, None);
        }
        other => panic!("{:?}", other),
    }
    let digest = digest.after(DigestEvent::Answer("Text".to_string()));
    match digest.action().unwrap() {
        DigestAction::Send {
            subject,
            body,
            recipient,
        } => {
            assert_eq!(subject, "📰 Daily News Digest - 2025-07-01");
            assert_eq!(body, "Text");
            assert_eq!(recipient, "kim@example.com");
        }
        other => panic!("{:?}", other),
    }
    let digest = digest.after(DigestEvent::Done);
    match digest.action().unwrap() {
        DigestAction::Mark { username, ids, .. } => {
            assert_eq!(username, "kim");
            assert_eq!(ids, vec![7]);
        }
        other => panic!("{:?}", other),
    }
    let digest = digest.after(DigestEvent::Done);
    assert!(matches!(outcome(&digest), Outcome::Sent));
    assert!(digest.action().is_none());
}

#[test]
fn a_target_language_asks_for_translations() {
    let digest = written(start(Some("en")).after(DigestEvent::Fetched(vec![article(1, "u1")])));
    assert_eq!(digest.summaries[0].summary, "Summary of Title 1");
    assert_eq!(
        digest.summaries[0].translated.as_deref(),
        Some("T: Summary of Title 1")
    );
    let untranslated = written(start(None).after(DigestEvent::Fetched(vec![article(1, "u1")])));
    assert_eq!(untranslated.summaries[0].translated, None);
}

#[test]
fn a_known_language_is_not_detected() {
    let mut known = article(1, "u1");
    known.language = Some("fr".to_string());
    let digest = start(Some("en"))
        .after(DigestEvent::Fetched(vec![known]))
        .after(DigestEvent::Found(Vec::new()))
        .after(DigestEvent::Done)
        .after(DigestEvent::Found(Vec::new()))
        .after(DigestEvent::Found(Vec::new()))
        .after(DigestEvent::Answer("Court".to_string()));
    match digest.action().unwrap() {
        DigestAction::Translate {
            text,
            source,
            target,
        } => {
            assert_eq!(text, "Court");
            assert_eq!(source, "fr");
            assert_eq!(target, "en");
        }
        other => panic!("{:?}", other),
    }
}

#[test]
fn outside_failures_on_the_way_are_survived() {
    let mut digest = start(Some("en")).after(DigestEvent::Fetched(vec![article(1, "u1")]));
    let mut failures = 0;
    while !matches!(digest.stage, Stage::Send { .. }) {
        digest = digest.after(DigestEvent::Failed("down".to_string()));
        failures += 1;
    }
    assert_eq!(failures, 9);
    assert_eq!(digest.summaries[0].summary, "Title 1");
    assert_eq!(digest.summaries[0].translated, None);
    match &digest.stage {
        Stage::Send { body } => assert_eq!(body, "Unable to generate overall summary."),
        other => panic!("{:?}", other),
    }
}

fn looked_up(summary: Json, target_language: Option<&str>) -> UserDigest {
    start(target_language)
        .after(DigestEvent::Fetched(vec![article(1, "u1")]))
        .after(DigestEvent::Found(vec![Json::object().with("summary", summary)]))
}

#[test]
fn a_summarized_article_is_not_summarized_again() {
    let digest = looked_up(Json::text("Known"), None);
    match digest.action().unwrap() {
        DigestAction::Upsert { known, .. } => assert_eq!(known.as_deref(), Some("Known")),
        other => panic!("{:?}", other),
    }
    let digest = digest.after(DigestEvent::Done);
    match digest.action().unwrap() {
        DigestAction::Store { summary, .. } => assert_eq!(summary.summary, "Known"),
        other => panic!("{:?}", other),
    }
    let digest = looked_up(Json::text("Known"), Some("en")).after(DigestEvent::Done);
    match digest.action().unwrap() {
        DigestAction::Detect { text } => assert_eq!(text, "Known"),
        other => panic!("{:?}", other),
    }
}

#[test]
fn what_is_no_summary_is_not_taken_over() {
    for summary in [Json::Null, Json::text(""), Json::text("Title 1")] {
        let digest = looked_up(summary, None);
        match digest.action().unwrap() {
            DigestAction::Upsert { known, .. } => assert_eq!(known, None),
            other => panic!("{:?}", other),
        }
        let digest = digest.after(DigestEvent::Done);
        assert!(matches!(digest.stage, Stage::Related));
    }
}

#[test]
fn nothing_unread_sends_no_mail() {
    let digest = start(None).after(DigestEvent::Fetched(Vec::new()));
    assert!(matches!(outcome(&digest), Outcome::NothingUnread));
    assert!(run_result(&vec![digest]).is_ok());
}

#[test]
fn an_address_is_summarized_once() {
    let digest = written(start(None).after(DigestEvent::Fetched(vec![
        article(1, "same"),
        article(2, "other"),
        article(3, "same"),
    ])));
    assert_eq!(digest.summaries.len(), 2);
    assert_eq!(digest.summaries[0].url, "same");
    assert_eq!(digest.summaries[0].summary, "Summary of Title 3");
    assert_eq!(digest.summaries[1].url, "other");
}

#[test]
fn a_mail_that_fails_leaves_articles_unread() {
    let digest = written(start(None).after(DigestEvent::Fetched(vec![article(1, "u1")])))
        .after(DigestEvent::Failed("SMTP error: refused".to_string()));
    match outcome(&digest) {
        Outcome::Failed { message } => assert_eq!(message, "SMTP error: refused"),
        other => panic!("{:?}", other),
    }
    assert!(digest.action().is_none());
}

#[test]
fn marks_are_tried_three_times_and_fail_no_digest() {
    let mut digest = written(start(None).after(DigestEvent::Fetched(vec![article(1, "u1")])))
        .after(DigestEvent::Done);
    let mut attempts = 0;
    while let Some(DigestAction::Mark { .. }) = digest.action() {
        digest = digest.after(DigestEvent::Failed("down".to_string()));
        attempts += 1;
    }
    assert_eq!(attempts, 3);
    match outcome(&digest) {
        Outcome::SentUnmarked { message } => assert_eq!(message, "down"),
        other => panic!("{:?}", other),
    }
    assert!(run_result(&vec![digest]).is_ok());
}

#[test]
fn an_event_that_answers_nothing_changes_nothing() {
    let digest = start(None).after(DigestEvent::Done);
    assert!(matches!(digest.stage, Stage::Fetch));
    let digest = digest.after(DigestEvent::Answer("?".to_string()));
    assert!(matches!(digest.stage, Stage::Fetch));
}

#[test]
fn one_failing_user_is_reported_beside_the_others() {
    let config = config(vec![user("Kim", None), user("Lee", None), user("Max", None)]);
    let mut digests = start_digests(&config, "2025-07-01", 200_000);
    let max = digests
        .remove(2)
        .after(DigestEvent::Failed("no key".to_string()));
    let lee = digests.remove(1).after(DigestEvent::Fetched(Vec::new()));
    let kim = digests
        .remove(0)
        .after(DigestEvent::Failed("no API".to_string()));
    assert_eq!(
        run_result(&vec![kim, lee, max]).unwrap_err(),
        "Kim: no API; Max: no key"
    );
}
