use rss_digest::config::{FreshRSSConfig, OllamaConfig};
use rss_digest::freshrss::{FreshRSSClient, GreaderError, MarkReply};
use rss_digest::freshrss_native::{
    FeedInfo, FreshRSSArticle, NativeError, NativeFreshRSSClient,
};
use rss_digest::http::{Body, HttpStatus, Post, Reply};
use rss_digest::json::Json;
use rss_digest::llm::{fill_article_prompt, ArticleSummary, LlmClient};
use rss_digest::ollama::{ChatMessage, ChatResponse, OllamaClient};
use rss_digest::translate::LibreTranslateClient;

fn status(code: u16, text: &str) -> HttpStatus {
    HttpStatus {
        code,
        text: text.to_string(),
    }
}

fn ok(document: Json) -> Reply {
    Reply {
        status: status(200, "200 OK"),
        body: String::new(),
        document: Some(document),
    }
}

fn refused() -> Reply {
    Reply {
        status: status(401, "401 Unauthorized"),
        body: "no".to_string(),
        document: None,
    }
}

fn document(post: &Post) -> &Json {
    match &post.body {
        Body::Document(document) => document,
        other => panic!("{:?}", other),
    }
}

fn llm_config() -> OllamaConfig {
    OllamaConfig {
        url: "http://llm".to_string(),
        model: "llama3.1".to_string(),
        summarizer_prompt: "{rag_context}|{articles}|{date}".to_string(),
        article_summary_prompt: "{rag_context}|{article_title}|{article_content}".to_string(),
    }
}

fn prompt_of(post: &Post) -> String {
    let messages = document(post).get("messages").unwrap();
    assert_eq!(messages.at(0).unwrap().get_str("role"), Some("system"));
    assert_eq!(messages.at(1).unwrap().get_str("role"), Some("user"));
    messages
        .at(1)
        .unwrap()
        .get_str("content")
        .unwrap()
        .to_string()
}

fn summary(url: &str, text: &str, translated: Option<&str>) -> ArticleSummary {
    ArticleSummary {
        url: url.to_string(),
        summary: text.to_string(),
        translated: translated.map(|s| s.to_string()),
    }
}

#[test]
fn an_article_prompt_is_filled() {
    let post = LlmClient::new(llm_config()).summarize_article("ctx", "title", "  text  ");
    assert_eq!(post.url, "http://llm/v1/chat/completions");
    assert_eq!(document(&post).get_str("model"), Some("llama3.1"));
    assert!(matches!(document(&post).get("stream"), Some(Json::Bool(false))));
    assert_eq!(prompt_of(&post), "ctx|title|text");
    let long = "é".repeat(900);
    assert_eq!(
        fill_article_prompt("{article_content}", "", "", &long),
        "é".repeat(800)
    );
    assert_eq!(
        fill_article_prompt("{rag_context}", "{article_title}", "T", ""),
        "T"
    );
}

#[test]
fn a_digest_prompt_lists_the_summaries() {
    let summaries = vec![summary("u1", "One", Some("Eins")), summary("u2", "Two", None)];
    let client = LlmClient::new(llm_config());
    let post = client.generate_overall_digest("today", &summaries, "2025-07-01", None);
    assert_eq!(
        prompt_of(&post),
        "today|  - One ([Link](u1))\n  - Two ([Link](u2))|2025-07-01"
    );
    let target = "de".to_string();
    let post = client.generate_overall_digest("today", &summaries, "2025-07-01", Some(&target));
    assert_eq!(
        prompt_of(&post),
        "today|  - Eins ([Link](u1))\n  - Two ([Link](u2))|2025-07-01"
    );
}

#[test]
fn an_answer_is_read() {
    let client = LlmClient::new(llm_config());
    let message = Json::object().with("content", Json::text("Hello"));
    let choice = Json::object().with("message", message);
    let answer = Json::object().with("choices", Json::list(vec![choice]));
    assert_eq!(client.chat(&ok(answer)).unwrap(), "Hello");
    let error = client.chat(&ok(Json::object())).unwrap_err();
    assert_eq!(
        LlmClient::error_message(&error),
        "Unexpected response format from LLM"
    );
    let error = client.chat(&refused()).unwrap_err();
    assert_eq!(
        LlmClient::error_message(&error),
        "LLM error: 401 Unauthorized - no"
    );
}

#[test]
fn ollama_has_a_path_of_its_own() {
    let client = OllamaClient::new(llm_config());
    let post = client.summarize_article("ctx", "title", "text");
    assert_eq!(post.url, "http://llm/api/chat");
    assert_eq!(prompt_of(&post), "ctx|title|text");
    let post = client.generate_overall_digest(
        "today",
        &vec![("u1".to_string(), "One".to_string())],
        "2025-07-01",
    );
    assert_eq!(prompt_of(&post), "today|  - One ([Link](u1))|2025-07-01");
    let response = ChatResponse {
        message: ChatMessage {
            role: "assistant".to_string(),
            content: "Hello".to_string(),
        },
    };
    assert_eq!(
        client.chat(&status(200, "200 OK"), "", Some(response)).unwrap(),
        "Hello"
    );
    let error = client.chat(&status(500, "500 Down"), "body", None).unwrap_err();
    assert_eq!(
        OllamaClient::error_message(&error),
        "Ollama error: 500 Down - body"
    );
    assert!(client.chat(&status(200, "200 OK"), "", None).is_err());
}

#[test]
fn a_language_is_detected() {
    let client = LibreTranslateClient::new("http://lt".to_string(), Some("key".to_string()));
    let post = client.detect_request("Hallo");
    assert_eq!(post.url, "http://lt/v2/detect");
    assert_eq!(document(&post).get_str("q"), Some("Hallo"));
    assert!(post
        .headers
        .contains(&("Authorization".to_string(), "key".to_string())));
    let found = Json::object().with("0", Json::object().with("language", Json::text("de")));
    assert_eq!(client.detect_language(&ok(found)).unwrap(), "de");
    let error = client.detect_language(&ok(Json::object())).unwrap_err();
    assert_eq!(
        LibreTranslateClient::detection_message(&error),
        "Unexpected detection response format"
    );
    let error = client.detect_language(&refused()).unwrap_err();
    assert_eq!(
        LibreTranslateClient::detection_message(&error),
        "LibreTranslate detection error: 401 Unauthorized - no"
    );
}

#[test]
fn a_text_is_translated() {
    let client = LibreTranslateClient::new("http://lt".to_string(), None);
    let post = client.translate_request("Hallo", "de", "en");
    assert_eq!(post.url, "http://lt/v2/translate");
    assert_eq!(document(&post).get_str("q"), Some("Hallo"));
    assert_eq!(document(&post).get_str("source"), Some("de"));
    assert_eq!(document(&post).get_str("target"), Some("en"));
    assert_eq!(post.headers.len(), 1);
    let answer = Json::object().with("translatedText", Json::text("Hello"));
    assert_eq!(client.translate(&ok(answer)).unwrap(), "Hello");
    let error = client.translate(&ok(Json::Null)).unwrap_err();
    assert_eq!(
        LibreTranslateClient::translation_message(&error),
        "Unexpected translation response format"
    );
    let error = client.translate(&refused()).unwrap_err();
    assert_eq!(
        LibreTranslateClient::translation_message(&error),
        "LibreTranslate translation error: 401 Unauthorized - no"
    );
}

fn rss_config() -> FreshRSSConfig {
    FreshRSSConfig {
        url: "https://rss".to_string(),
        api_password: "shared".to_string(),
    }
}

fn entry(id: &str, ts: i64) -> Json {
    Json::object()
        .with("id", Json::text(id))
        .with("ts", Json::Int(ts))
}

#[test]
fn greader_entries_become_articles() {
    let client = FreshRSSClient::new(rss_config());
    let post = client.fetch_request("kim", None);
    assert_eq!(post.url, "https://rss/api/greader.php");
    assert_eq!(
        post.basic_auth,
        Some(("kim".to_string(), "shared".to_string()))
    );
    assert!(matches!(
        &post.body,
        Body::Text(t) if t == "cmd=reader/api/0/stream/contents&stream=feed/"
    ));
    let full = entry("tag:google.com,2005:reader/item/12", 300)
        .with("title", Json::text("T"))
        .with("author", Json::text("A"))
        .with("summary", Json::text("S"))
        .with(
            "canonical",
            Json::list(vec![Json::object().with("href", Json::text("u"))]),
        )
        .with(
            "streamIds",
            Json::list(vec![Json::object()
                .with("title", Json::text("F"))
                .with("url", Json::text("fu"))]),
        );
    let articles = client
        .fetch_unread_articles(
            &ok(Json::list(vec![entry("7", 200), entry("8", 199), full])),
            200,
        )
        .unwrap();
    assert_eq!(articles.len(), 2);
    assert_eq!(articles[0].id, 12);
    assert_eq!(articles[0].title, "T");
    assert_eq!(articles[0].author.as_deref(), Some("A"));
    assert_eq!(articles[0].content, "S");
    assert_eq!(articles[0].url, "u");
    assert_eq!(articles[0].feed_title, "F");
    assert_eq!(articles[0].feed_url, "fu");
    assert_eq!(articles[1].id, 7);
    assert_eq!(articles[1].feed_title, "Unknown Feed");
    assert_eq!(articles[1].published, 200);
}

#[test]
fn greader_errors_are_told_apart() {
    let client = FreshRSSClient::new(rss_config());
    let error = |document: Json| {
        client
            .fetch_unread_articles(&ok(document), 0)
            .unwrap_err()
            .message()
    };
    assert_eq!(
        error(Json::list(vec![Json::object()])),
        "Missing entry id"
    );
    assert_eq!(
        error(Json::list(vec![entry("a/b", 0)])),
        "Cannot parse entry id: a/b"
    );
    assert_eq!(error(Json::object()), "Unexpected FreshRSS response format");
    assert!(matches!(
        client.fetch_unread_articles(&refused(), 0),
        Err(GreaderError::Reply(_))
    ));
}

fn marked() -> MarkReply {
    MarkReply::Status(status(200, "200 OK"))
}

#[test]
fn greader_marks_one_by_one() {
    let client = FreshRSSClient::new(rss_config());
    let mark = client.mark_as_read("kim", None, vec![4, 5]);
    let post = client.mark_request(&mark).unwrap();
    assert_eq!(post.url, "https://rss/api/greader.php");
    assert_eq!(
        post.basic_auth,
        Some(("kim".to_string(), "shared".to_string()))
    );
    assert!(matches!(
        &post.body,
        Body::Text(t) if t == "cmd=reader/api/0/edit/mark-as-read&i=4"
    ));
    let mark = mark.after(marked());
    assert!(matches!(
        &client.mark_request(&mark).unwrap().body,
        Body::Text(t) if t == "cmd=reader/api/0/edit/mark-as-read&i=5"
    ));
    let mark = mark.after(marked());
    assert!(client.mark_request(&mark).is_none());
    assert!(matches!(mark.result(), Some(Ok(()))));
    let nothing = client.mark_as_read("kim", None, Vec::new());
    assert!(client.mark_request(&nothing).is_none());
    assert!(matches!(nothing.result(), Some(Ok(()))));
    let own = client.mark_as_read("kim", Some("own"), vec![4]);
    assert_eq!(
        client.mark_request(&own).unwrap().basic_auth,
        Some(("kim".to_string(), "own".to_string()))
    );
    assert!(own.result().is_none());
}

#[test]
fn greader_marking_stops_at_a_refusal() {
    let client = FreshRSSClient::new(rss_config());
    let mark = client
        .mark_as_read("kim", None, vec![4, 5, 6])
        .after(marked())
        .after(MarkReply::Status(status(401, "401 Unauthorized")));
    assert!(client.mark_request(&mark).is_none());
    let mark = mark.after(marked());
    assert_eq!(mark.next, 1);
    let error = mark.result().unwrap().unwrap_err();
    assert_eq!(
        error.message(),
        "Failed to mark article 5 as read: 401 Unauthorized"
    );
    let mark = client
        .mark_as_read("kim", None, vec![4, 5])
        .after(MarkReply::Unsent("timed out".to_string()));
    assert!(client.mark_request(&mark).is_none());
    assert_eq!(mark.result().unwrap().unwrap_err().message(), "timed out");
}

#[test]
fn native_marking_says_what_to_do() {
    let client = NativeFreshRSSClient::new(rss_config());
    let post = client.mark_request("kim", None, &vec![4, 5]);
    assert_eq!(post.url, "https://rss/api/entries.json");
    assert_eq!(document(&post).get_str("user"), Some("kim"));
    assert_eq!(document(&post).get_str("password"), Some("shared"));
    assert_eq!(document(&post).get_str("action"), Some("read"));
    let ids = document(&post).get("ids").unwrap();
    assert_eq!(ids.as_list().unwrap().len(), 2);
    assert_eq!(ids.at(0).unwrap().as_i64(), Some(4));
    assert_eq!(ids.at(1).unwrap().as_i64(), Some(5));
    let nothing = client.mark_request("kim", None, &Vec::new());
    let ids = document(&nothing).get("ids").unwrap();
    assert!(ids.as_list().unwrap().is_empty());
}

fn native_entry(id: u64, updated: i64, feed: Option<FeedInfo>) -> FreshRSSArticle {
    FreshRSSArticle {
        id,
        title: "T".to_string(),
        author: None,
        body: "B".to_string(),
        link: "L".to_string(),
        feed,
        language: Some("de".to_string()),
        updated,
    }
}

#[test]
fn native_entries_become_articles() {
    let client = NativeFreshRSSClient::new(rss_config());
    let post = client.fetch_request("kim", Some("own"), 100);
    assert_eq!(post.url, "https://rss/api/entries.json");
    assert_eq!(document(&post).get_str("user"), Some("kim"));
    assert_eq!(document(&post).get_str("password"), Some("own"));
    let feed = FeedInfo {
        title: "F".to_string(),
        url: "fu".to_string(),
    };
    let articles = client.fetch_unread_articles(vec![
        native_entry(1, 10, None),
        native_entry(2, 20, Some(feed)),
    ]);
    assert_eq!(articles[0].id, 2);
    assert_eq!(articles[0].feed_title.as_deref(), Some("F"));
    assert_eq!(articles[0].feed_url.as_deref(), Some("fu"));
    assert_eq!(articles[0].content, "B");
    assert_eq!(articles[0].url, "L");
    assert_eq!(articles[0].language.as_deref(), Some("de"));
    assert_eq!(articles[1].id, 1);
    assert_eq!(articles[1].feed_title, None);
}

#[test]
fn native_errors_are_told_apart() {
    let client = NativeFreshRSSClient::new(rss_config());
    assert!(client.check_fetch(&status(200, "200 OK"), "").is_ok());
    assert_eq!(
        client
            .check_fetch(&status(403, "403 Forbidden"), "no")
            .unwrap_err()
            .message(),
        "FreshRSS entries API error: 403 Forbidden - no"
    );
    assert!(client.mark_as_read(&status(200, "200 OK"), "").is_ok());
    assert_eq!(
        client
            .mark_as_read(&status(403, "403 Forbidden"), "no")
            .unwrap_err()
            .message(),
        "Failed to mark articles as read: 403 Forbidden - no"
    );
    let unreadable = NativeError::Unreadable {
        detail: "eof".to_string(),
    };
    assert_eq!(
        unreadable.message(),
        "Failed to parse FreshRSS entries response as JSON: eof"
    );
}
