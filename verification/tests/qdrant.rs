use qdrant_client::qdrant::{Condition, Filter};

use rss_digest::config::QdrantConfig;
use rss_digest::freshrss_fever::Article;
use rss_digest::http::{Body, HttpStatus, Reply};
use rss_digest::json::Json;
use rss_digest::llm::ArticleSummary;
use rss_digest::qdrant::{
    merge_hits, score_from_bits, Bound, CollectionStep, Direction, Distance, Hit, PointId,
    QdrantClientWrapper, ScoredPoint,
};
use rss_digest::summary_update::{UpdateAction, UpdateEvent, UpdateStage};

fn client() -> QdrantClientWrapper {
    QdrantClientWrapper::new(QdrantConfig {
        url: "http://localhost:6334".to_string(),
        api_key: Some("key".to_string()),
        collection: "articles".to_string(),
        embedding_model: "nomic-embed-text".to_string(),
        embedding_url: "http://localhost:11434".to_string(),
        embedding_dim: 768,
        context_window_days: 30,
        top_k: 5,
    })
}

fn score(value: f32) -> i64 {
    score_from_bits(value.to_bits()).unwrap()
}

fn hit(point: &str, value: f32, payload: &str) -> Hit {
    Hit {
        point: Some(PointId::Uuid(point.to_string())),
        score: score_from_bits(value.to_bits()),
        payload: Json::text(payload),
    }
}

fn under<'a>(points: &'a [ScoredPoint], key: &str) -> &'a ScoredPoint {
    points.iter().find(|p| p.key == key).unwrap()
}

fn texts(found: &[Json]) -> Vec<&str> {
    found.iter().map(|j| j.as_str().unwrap()).collect()
}

#[test]
fn test_score_merge_keeps_higher_score() {
    let points = merge_hits(
        vec![hit("point1", 0.8, "summary_payload")],
        vec![hit("point1", 0.9, "translated_payload")],
    );
    let point = under(&points, "point1");
    assert_eq!(point.score, Some(score(0.9)));
    assert_eq!(points.len(), 1);
    assert_eq!(point.payload.as_str(), Some("summary_payload"));
}

#[test]
fn test_score_merge_keeps_first_score_if_higher() {
    let points = merge_hits(
        vec![hit("point2", 0.9, "summary_payload")],
        vec![hit("point2", 0.8, "translated_payload")],
    );
    assert_eq!(under(&points, "point2").score, Some(score(0.9)));
}

#[test]
fn test_score_merge_keeps_different_points() {
    let points = merge_hits(
        vec![hit("point1", 0.8, "payload1")],
        vec![hit("point2", 0.9, "payload2")],
    );
    assert_eq!(points.len(), 2);
}

#[test]
fn test_update_summaries_filter_includes_digest_date() {
    let url = "https://example.com/article";
    let digest_date = "2025-01-02";
    let update = client().update_article_summaries(digest_date, vec![summary(url, None)]);
    let conditions = match update.action().unwrap() {
        UpdateAction::SetPayload { filter, .. } => filter,
        other => panic!("{:?}", other),
    };
    assert_eq!(
        conditions,
        vec![
            ("url".to_string(), url.to_string()),
            ("digest_date".to_string(), digest_date.to_string()),
        ]
    );
    let filter = Filter::must(
        conditions
            .into_iter()
            .map(|(field, value)| Condition::matches(field, value))
            .collect::<Vec<_>>(),
    );
    assert_eq!(filter.must.len(), 2);
}

#[test]
fn scores_keep_their_order() {
    let values: [f32; 9] = [
        f32::NEG_INFINITY,
        -2.5,
        -0.1,
        -f32::MIN_POSITIVE,
        0.0,
        f32::MIN_POSITIVE,
        0.1,
        2.5,
        f32::INFINITY,
    ];
    for a in values {
        for b in values {
            assert_eq!(a < b, score(a) < score(b));
        }
    }
    assert_eq!(score(-0.0), score(0.0));
    assert_eq!(score(1.0), 0x3f80_0000);
    assert_eq!(score(-1.0), -0x3f80_0000);
    assert!(score_from_bits(f32::NAN.to_bits()).is_none());
    assert!(score_from_bits((-f32::NAN).to_bits()).is_none());
}

#[test]
fn the_best_points_come_first() {
    let best = |top_k: usize, original: Vec<Hit>, translated: Vec<Hit>| {
        client()
            .retrieve_rag_context(top_k, original, translated)
            .unwrap()
    };
    let found = best(
        2,
        vec![hit("a", 0.3, "A"), hit("b", 0.7, "B")],
        vec![hit("a", 0.9, "A again"), hit("c", 0.5, "C")],
    );
    assert_eq!(texts(&found), vec!["A", "B"]);
    let found = best(9, vec![hit("a", 0.3, "A")], Vec::new());
    assert_eq!(texts(&found), vec!["A"]);
    let found = best(0, vec![hit("a", 0.3, "A")], Vec::new());
    assert!(found.is_empty());
}

#[test]
fn a_score_that_is_no_number_matters_only_among_several_points() {
    let nan = f32::NAN;
    let best = |original: Vec<Hit>, translated: Vec<Hit>| {
        client().retrieve_rag_context(5, original, translated)
    };
    let alone = best(vec![hit("a", nan, "A")], vec![hit("a", 0.9, "A again")]).unwrap();
    assert_eq!(texts(&alone), vec!["A"]);
    assert!(best(vec![hit("a", nan, "A"), hit("b", 0.5, "B")], Vec::new()).is_none());
    assert!(best(vec![hit("a", 0.5, "A")], vec![hit("b", nan, "B")]).is_none());
    let passed_over = best(
        vec![hit("a", 0.4, "A"), hit("b", 0.5, "B")],
        vec![hit("a", nan, "A again")],
    )
    .unwrap();
    assert_eq!(texts(&passed_over), vec!["B", "A"]);
}

#[test]
fn points_are_told_apart_by_their_ids() {
    let point = |id: Option<PointId>| Hit {
        point: id,
        score: Some(1),
        payload: Json::Null,
    };
    let points = merge_hits(
        vec![point(Some(PointId::Num(12))), point(None)],
        vec![point(Some(PointId::Uuid("12".to_string()))), point(None)],
    );
    let keys: Vec<&str> = points.iter().map(|p| p.key.as_str()).collect();
    assert_eq!(keys, vec!["num:12", "unknown", "12"]);
}

#[test]
fn a_point_found_twice_in_the_first_search_is_taken_as_found_last() {
    let points = merge_hits(vec![hit("a", 0.9, "1"), hit("a", 0.2, "2")], Vec::new());
    assert_eq!(points.len(), 1);
    assert_eq!(points[0].score, Some(score(0.2)));
    assert_eq!(points[0].payload.as_str(), Some("2"));
}

#[test]
fn a_search_looks_for_more_than_it_gives() {
    let plan = client().search_plan(5);
    assert_eq!(
        plan.vectors,
        vec!["summary_vector", "translated_summary_vector"]
    );
    assert_eq!(plan.limit, 10);
}

#[test]
fn recent_articles_are_those_of_the_last_days() {
    let plan = client().get_recent_articles(1_000_000, 2, 5);
    assert_eq!(plan.key, "published");
    assert_eq!(plan.bound, Bound::Above(1_000_000 - 172_800));
    assert_eq!(plan.direction, Direction::Ascending);
    assert_eq!(plan.limit, 5);
}

#[test]
fn a_missing_collection_is_created() {
    let step = client().ensure_collection(&vec!["other".to_string()]);
    match step {
        CollectionStep::Create { vectors } => {
            assert_eq!(vectors.len(), 2);
            assert_eq!(vectors[0].name, "summary_vector");
            assert_eq!(vectors[1].name, "translated_summary_vector");
            for vector in vectors {
                assert_eq!(vector.dim, 768);
                assert_eq!(vector.distance, Distance::Cosine);
            }
        }
        other => panic!("{:?}", other),
    }
    let step = client().ensure_collection(&vec!["other".to_string(), "articles".to_string()]);
    assert!(matches!(step, CollectionStep::Inspect));
}

#[test]
fn an_old_collection_is_refused() {
    let named = Some(vec!["summary_vector".to_string()]);
    assert!(client().check_schema(&named).is_ok());
    let report = "Existing collection 'articles' uses old single-vector schema. Please delete the collection and re-run the digest generation. Data will be re-created on next run.";
    assert_eq!(client().check_schema(&None).unwrap_err(), report);
    let other = Some(vec!["translated_summary_vector".to_string()]);
    assert_eq!(client().check_schema(&other).unwrap_err(), report);
}

#[test]
fn users_have_collections_of_their_own() {
    let kim = client().for_user("kim");
    assert_eq!(kim.config.collection, "articles_kim");
    assert_eq!(kim.config.embedding_dim, 768);
    assert_eq!(kim.config.api_key.as_deref(), Some("key"));
    assert_ne!(
        kim.config.collection,
        client().for_user("lee").config.collection
    );
}

#[test]
fn an_article_is_stored_with_its_vectors() {
    let long = format!("  {}  ", "x".repeat(600));
    let article = Article {
        id: 42,
        title: "Title".to_string(),
        author: Some("Jo".to_string()),
        content: long.clone(),
        url: "https://example.com/42".to_string(),
        feed_title: "Feed".to_string(),
        feed_url: None,
        language: None,
        published: 1_700_000_000,
    };
    let upsert = client().upsert_article(&article, None, None, "2025-07-01".to_string());
    assert_eq!(upsert.id, 42);
    assert_eq!(
        upsert.vectors,
        vec![(
            "summary_vector".to_string(),
            format!("Title {}", "x".repeat(500))
        )]
    );
    assert_eq!(upsert.payload.content, long);
    let document = upsert.payload.to_json();
    assert_eq!(document.get_str("title"), Some("Title"));
    assert_eq!(document.get_str("digest_date"), Some("2025-07-01"));
    assert_eq!(
        document.get("published").unwrap().as_i64(),
        Some(1_700_000_000)
    );
    assert!(matches!(document.get("summary"), Some(Json::Null)));
    assert!(matches!(document.get("feed_url"), Some(Json::Null)));
    let upsert = client().upsert_article(
        &article,
        Some("S".to_string()),
        Some("T".to_string()),
        "2025-07-01".to_string(),
    );
    assert_eq!(
        upsert.vectors[1],
        ("translated_summary_vector".to_string(), "T".to_string())
    );
    assert_eq!(upsert.payload.to_json().get_str("translated_summary"), Some("T"));
}

fn reply(code: u16, text: &str, document: Option<Json>) -> Reply {
    Reply {
        status: HttpStatus {
            code,
            text: text.to_string(),
        },
        body: "body".to_string(),
        document,
    }
}

#[test]
fn an_embedding_is_asked_for_and_read() {
    let post = client().embed_request("some text");
    assert_eq!(post.url, "http://localhost:11434/v1/embeddings");
    match &post.body {
        Body::Document(document) => {
            assert_eq!(document.get_str("model"), Some("nomic-embed-text"));
            assert_eq!(document.get_str("input"), Some("some text"));
        }
        other => panic!("{:?}", other),
    }
    let embedding = Json::list(vec![
        Json::Real(0.5f64.to_bits()),
        Json::Int(1),
        Json::Null,
    ]);
    let document = Json::object().with(
        "data",
        Json::list(vec![Json::object().with("embedding", embedding)]),
    );
    let ok = reply(200, "200 OK", Some(document));
    let client = client();
    let components = client.embed_text(&ok).unwrap();
    assert_eq!(components.len(), 3);
    assert!(matches!(components[0], Json::Real(bits) if f64::from_bits(bits) == 0.5));
    let bare = reply(200, "200 OK", Some(Json::object()));
    let error = client.embed_text(&bare).unwrap_err();
    assert_eq!(
        QdrantClientWrapper::embedding_message(&error),
        "Unexpected embedding format"
    );
    let down = reply(500, "500 Internal Server Error", None);
    let error = client.embed_text(&down).unwrap_err();
    assert_eq!(
        QdrantClientWrapper::embedding_message(&error),
        "Embedding API error: 500 Internal Server Error - body"
    );
}

fn summary(url: &str, translated: Option<&str>) -> ArticleSummary {
    ArticleSummary {
        url: url.to_string(),
        summary: "S".to_string(),
        translated: translated.map(|s| s.to_string()),
    }
}

#[test]
fn a_summary_without_translation_takes_one_action() {
    let update = client().update_article_summaries("2025-07-01", vec![summary("u", None)]);
    match update.action().unwrap() {
        UpdateAction::SetPayload { payload, .. } => {
            assert_eq!(payload.get_str("summary"), Some("S"));
            assert!(matches!(payload.get("translated_summary"), Some(Json::Null)));
        }
        other => panic!("{:?}", other),
    }
    let update = update.after(UpdateEvent::Done);
    assert!(matches!(update.stage, UpdateStage::Finished));
    assert!(update.action().is_none());
}

#[test]
fn a_translation_gets_its_vector() {
    let update = client()
        .update_article_summaries("2025-07-01", vec![summary("u", Some("T")), summary("v", None)])
        .after(UpdateEvent::Done);
    match update.action().unwrap() {
        UpdateAction::Embed { input } => assert_eq!(input, "T"),
        other => panic!("{:?}", other),
    }
    let update = update.after(UpdateEvent::Done);
    match update.action().unwrap() {
        UpdateAction::FindPoint { filter } => assert_eq!(filter.len(), 2),
        other => panic!("{:?}", other),
    }
    let update = update.after(UpdateEvent::Found(Some(Some(PointId::Num(9)))));
    match update.action().unwrap() {
        UpdateAction::UpdateVector { point, vector } => {
            assert!(matches!(point, PointId::Num(9)));
            assert_eq!(vector, "translated_summary_vector");
        }
        other => panic!("{:?}", other),
    }
    let update = update.after(UpdateEvent::Done);
    match update.action().unwrap() {
        UpdateAction::SetPayload { filter, .. } => assert_eq!(filter[0].1, "v"),
        other => panic!("{:?}", other),
    }
    let update = update.after(UpdateEvent::Done);
    assert!(matches!(update.stage, UpdateStage::Finished));
}

#[test]
fn the_first_failure_of_an_update_ends_it() {
    let report = |events: Vec<UpdateEvent>| {
        let mut update =
            client().update_article_summaries("2025-07-01", vec![summary("u", Some("T"))]);
        for event in events {
            update = update.after(event);
        }
        let update = update.after(UpdateEvent::Done);
        match update.stage {
            UpdateStage::Failed { message } => message,
            other => panic!("{:?}", other),
        }
    };
    let down = || UpdateEvent::Failed("down".to_string());
    assert_eq!(report(vec![down()]), "Failed to update summary for u: down");
    assert_eq!(report(vec![UpdateEvent::Done, down()]), "down");
    let found = |point| vec![UpdateEvent::Done, UpdateEvent::Done, UpdateEvent::Found(point)];
    assert_eq!(report(found(None)), "Point not found for u");
    assert_eq!(report(found(Some(None))), "Point ID is missing for u");
    assert_eq!(
        report(vec![UpdateEvent::Done, UpdateEvent::Done, down()]),
        "Failed to find point for u: down"
    );
    let mut events = found(Some(Some(PointId::Num(1))));
    events.push(down());
    assert_eq!(
        report(events),
        "Failed to update translated vector for u: down"
    );
}

#[test]
fn an_update_of_nothing_is_finished() {
    let update = client().update_article_summaries("2025-07-01", Vec::new());
    assert!(update.action().is_none());
}
