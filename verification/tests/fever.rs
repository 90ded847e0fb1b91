use std::collections::HashMap;

use rss_digest::config::FreshRSSConfig;
use rss_digest::fever_exchange::{FetchStage, FeverFetch, FeverReply};
use rss_digest::freshrss_fever::{
    api_key, item_to_article, parse_id_list, truncate, Article, FeverClient, FeverError, FeverFeed,
    FeverItem, ITEMS_PER_PAGE, MAX_ARTICLES_PER_RUN,
};
use rss_digest::http::{Body, HttpStatus, Post};

fn client() -> FeverClient {
    FeverClient::new(FreshRSSConfig {
        url: "https://example.com/freshrss/".to_string(),
        api_password: "shared".to_string(),
    })
}

fn item(id: u64, created: i64) -> FeverItem {
    FeverItem {
        id,
        feed_id: Some(3),
        title: Some(format!("Title {}", id)),
        author: None,
        html: Some("<p>Body</p>".to_string()),
        url: Some(format!("https://example.com/{}", id)),
        is_read: Some(0),
        created_on_time: Some(created),
    }
}

fn form_of(post: &Post) -> Vec<(String, String)> {
    match &post.body {
        Body::Form(fields) => fields.clone(),
        _ => panic!("the request has no form"),
    }
}

fn list_of(ids: std::ops::Range<u64>) -> String {
    ids.map(|n| n.to_string()).collect::<Vec<_>>().join(",")
}

fn loading(since: i64, ids: &str) -> FeverFetch {
    client()
        .fetch_unread_articles("ab", Some("c"), since)
        .after(FeverReply::Auth(1))
        .after(FeverReply::Feeds(vec![FeverFeed {
            id: 3,
            title: Some("My Feed".to_string()),
            url: Some("https://example.com/rss".to_string()),
        }]))
        .after(FeverReply::UnreadIds(Some(ids.to_string())))
}

fn articles_of(fetch: FeverFetch) -> Vec<Article> {
    match fetch.stage {
        FetchStage::Finished { articles } => articles,
        other => panic!("not finished: {:?}", other),
    }
}

#[test]
fn api_key_matches_md5_of_user_and_password() {
    assert_eq!(api_key("ab", "c"), "9a98e4e96f6f66fa77ad64f3999ebfd7");
    assert_ne!(api_key("ab", "c"), md5_hex("ab"));
    assert_ne!(api_key("ab", "c"), md5_hex("c"));
}

fn md5_hex(s: &str) -> String {
    format!("{:x}", md5::compute(s.as_bytes()))
}

#[test]
fn api_key_is_lowercase_hex() {
    let key = api_key("kevin", "freshrss");
    assert_eq!(key.len(), 32);
    assert!(key.chars().all(|c| c.is_ascii_hexdigit()));
    assert_eq!(key, key.to_lowercase());
}

#[test]
fn parse_id_list_handles_comma_separated_ids() {
    assert_eq!(parse_id_list("1,2,3"), vec![1, 2, 3]);
    assert_eq!(parse_id_list(""), Vec::<u64>::new());
    assert_eq!(parse_id_list(" 7 , , 9 "), vec![7, 9]);
    assert_eq!(parse_id_list("42"), vec![42]);
}

#[test]
fn parse_id_list_leaves_out_what_is_no_id() {
    assert_eq!(parse_id_list("1,x,-2,+3,18446744073709551616,4"), vec![1, 3, 4]);
}

#[test]
fn item_mapping_uses_feed_map_and_filters() {
    let mut feed_map = HashMap::new();
    feed_map.insert(
        3,
        ("My Feed".to_string(), "https://example.com/rss".to_string()),
    );

    let item = FeverItem {
        id: 101,
        feed_id: Some(3),
        title: Some("Hello".to_string()),
        author: Some("  ".to_string()),
        html: Some("<p>Body</p>".to_string()),
        url: Some("https://example.com/article".to_string()),
        is_read: Some(0),
        created_on_time: Some(1_700_000_100),
    };

    let article = item_to_article(&item, &feed_map, 1_700_000_000).unwrap();
    assert_eq!(article.id, 101);
    assert_eq!(article.title, "Hello");
    assert_eq!(article.content, "<p>Body</p>");
    assert_eq!(article.url, "https://example.com/article");
    assert_eq!(article.feed_title, "My Feed");
    assert_eq!(article.feed_url.as_deref(), Some("https://example.com/rss"));
    assert!(article.author.is_none(), "whitespace author becomes None");
    assert!(article.language.is_none());
    assert_eq!(article.published, 1_700_000_100);
}

#[test]
fn item_mapping_skips_read_and_old_items() {
    let feed_map = HashMap::new();

    let read_item = FeverItem {
        id: 1,
        feed_id: None,
        title: None,
        author: None,
        html: None,
        url: None,
        is_read: Some(1),
        created_on_time: Some(2_000_000_000),
    };
    assert!(item_to_article(&read_item, &feed_map, 0).is_none());

    let old_item = FeverItem {
        id: 2,
        feed_id: None,
        title: None,
        author: None,
        html: None,
        url: None,
        is_read: Some(0),
        created_on_time: Some(999),
    };
    assert!(item_to_article(&old_item, &feed_map, 1_000).is_none());
}

#[test]
fn item_mapping_unknown_feed_gets_placeholder_title() {
    let feed_map = HashMap::new();
    let item = FeverItem {
        id: 5,
        feed_id: Some(77),
        title: None,
        author: None,
        html: None,
        url: None,
        is_read: Some(0),
        created_on_time: Some(2_000_000_000),
    };
    let article = item_to_article(&item, &feed_map, 0).unwrap();
    assert_eq!(article.feed_title, "Feed #77");
    assert_eq!(article.feed_url, None);
}

#[test]
fn items_per_page_is_fever_limit() {
    assert_eq!(ITEMS_PER_PAGE, 50);
}

#[test]
fn an_item_of_the_window_edge_is_wanted() {
    let article = item_to_article(&item(1, 1_000), &HashMap::new(), 1_000).unwrap();
    assert_eq!(article.published, 1_000);
}

#[test]
fn truncate_cuts_long_text() {
    assert_eq!(truncate("  short  ", 300), "short");
    assert_eq!(truncate("abcdef", 6), "abcdef");
    assert_eq!(truncate("abcdef", 3), "abc...");
}

#[test]
fn fetching_asks_in_order() {
    let client = client();
    let fetch = client.fetch_unread_articles("ab", Some("c"), 0);
    let post = client.fetch_request(&fetch).unwrap();
    assert_eq!(post.url, "https://example.com/freshrss/api/fever.php?api");
    assert_eq!(
        form_of(&post),
        vec![(
            "api_key".to_string(),
            "9a98e4e96f6f66fa77ad64f3999ebfd7".to_string()
        )]
    );
    let fetch = fetch.after(FeverReply::Auth(1));
    assert_eq!(fetch.query().unwrap(), "api&feeds");
    let fetch = fetch.after(FeverReply::Feeds(Vec::new()));
    assert_eq!(fetch.query().unwrap(), "api&unread_item_ids");
    let fetch = fetch.after(FeverReply::UnreadIds(Some("4,5".to_string())));
    assert_eq!(fetch.query().unwrap(), "api&items&with_ids=4,5");
    let fetch = fetch.after(FeverReply::Items(vec![item(4, 10), item(5, 20)]));
    assert!(fetch.query().is_none());
    let ids: Vec<u64> = articles_of(fetch).iter().map(|a| a.id).collect();
    assert_eq!(ids, vec![5, 4]);
}

#[test]
fn a_user_without_a_password_has_the_shared_one() {
    let fetch = client().fetch_unread_articles("ab", None, 0);
    assert_eq!(fetch.key, api_key("ab", "shared"));
    let fetch = client().fetch_unread_articles("ab", Some("c"), 0);
    assert_eq!(fetch.key, api_key("ab", "c"));
}

#[test]
fn a_reply_to_another_query_changes_nothing() {
    let fetch = client().fetch_unread_articles("ab", None, 0);
    let fetch = fetch.after(FeverReply::Items(vec![item(1, 1)]));
    assert_eq!(fetch.query().unwrap(), "api");
}

#[test]
fn an_unknown_key_ends_the_fetching() {
    let fetch = client()
        .fetch_unread_articles("kevin", None, 0)
        .after(FeverReply::Auth(0));
    assert!(fetch.query().is_none());
    match &fetch.stage {
        FetchStage::Failed { error } => assert_eq!(
            error.message(),
            "FreshRSS Fever API authentication failed for user 'kevin'. The Fever API uses the per-user *API password* (FreshRSS web UI: Settings > Profile > 'External access via API' > 'API password'), NOT the login password. Every user must have an API password set, and it must match the configured freshrss_api_password / FRESHRSS_API_PASSWORD."
        ),
        other => panic!("not failed: {:?}", other),
    }
}

#[test]
fn nothing_unread_gives_no_articles() {
    assert!(articles_of(loading(0, "")).is_empty());
    let fetch = client()
        .fetch_unread_articles("ab", None, 0)
        .after(FeverReply::Auth(1))
        .after(FeverReply::Feeds(Vec::new()))
        .after(FeverReply::UnreadIds(None));
    assert!(articles_of(fetch).is_empty());
}

#[test]
fn items_are_loaded_by_pages_of_fifty() {
    let mut fetch = loading(0, &list_of(1..121));
    let mut sizes = Vec::new();
    while let Some(query) = fetch.query() {
        let ids: Vec<u64> = query
            .strip_prefix("api&items&with_ids=")
            .unwrap()
            .split(',')
            .map(|n| n.parse().unwrap())
            .collect();
        sizes.push(ids.len());
        fetch = fetch.after(FeverReply::Items(
            ids.iter().map(|n| item(*n, *n as i64)).collect(),
        ));
    }
    assert_eq!(sizes, vec![50, 50, 20]);
    let ids: Vec<u64> = articles_of(fetch).iter().map(|a| a.id).collect();
    assert_eq!(ids, (1..121).rev().collect::<Vec<u64>>());
}

#[test]
fn only_the_newest_thousand_ids_are_loaded() {
    match loading(0, &list_of(1..1203)).stage {
        FetchStage::LoadItems { ids, next, .. } => {
            assert_eq!(ids.len(), MAX_ARTICLES_PER_RUN);
            assert_eq!(ids[0], 203);
            assert_eq!(ids[999], 1202);
            assert_eq!(next, 0);
        }
        other => panic!("not loading: {:?}", other),
    }
}

#[test]
fn articles_before_the_window_are_left_out() {
    let fetch = loading(100, "1,2,3").after(FeverReply::Items(vec![
        item(1, 99),
        item(2, 100),
        item(3, 101),
    ]));
    let articles = articles_of(fetch);
    assert_eq!(articles.len(), 2);
    assert_eq!(articles[0].published, 101);
    assert_eq!(articles[1].published, 100);
    assert_eq!(articles[0].feed_title, "My Feed");
}

#[test]
fn marking_goes_by_pages() {
    let client = client();
    let mut mark = client.mark_as_read("ab", Some("c"), (1..61).collect());
    let post = client.mark_request(&mark).unwrap();
    assert_eq!(post.url, "https://example.com/freshrss/api/fever.php?api");
    let form = form_of(&post);
    assert_eq!(form.len(), 4);
    assert!(form.contains(&("mark".to_string(), "item".to_string())));
    assert!(form.contains(&("as".to_string(), "read".to_string())));
    assert!(form.contains(&("with_ids".to_string(), list_of(1..51))));
    mark = mark.after(1);
    let form = form_of(&client.mark_request(&mark).unwrap());
    assert!(form.contains(&("with_ids".to_string(), list_of(51..61))));
    mark = mark.after(1);
    assert!(client.mark_request(&mark).is_none());
    assert!(mark.error().is_none());
}

#[test]
fn marking_stops_when_refused() {
    let client = client();
    let mark = client.mark_as_read("ab", None, (1..61).collect()).after(0);
    assert!(client.mark_request(&mark).is_none());
    assert_eq!(
        mark.error().unwrap().message(),
        "FreshRSS Fever API authentication failed while marking articles as read for user 'ab'"
    );
    assert_eq!(mark.next, 0);
}

#[test]
fn marking_nothing_needs_no_request() {
    let client = client();
    let mark = client.mark_as_read("ab", None, Vec::new());
    assert!(client.mark_request(&mark).is_none());
}

fn status(code: u16, text: &str) -> HttpStatus {
    HttpStatus {
        code,
        text: text.to_string(),
    }
}

#[test]
fn statuses_are_told_apart() {
    assert!(FeverClient::check_status(&status(200, "200 OK"), "").is_ok());
    match FeverClient::check_status(&status(503, "503 Service Unavailable"), "x") {
        Err(FeverError::ApiDisabled) => {}
        other => panic!("{:?}", other),
    }
    let error = FeverClient::check_status(&status(404, "404 Not Found"), " gone ").unwrap_err();
    assert_eq!(error.message(), "FreshRSS Fever API error: 404 Not Found — gone");
}

#[test]
fn an_unreadable_reply_is_reported_with_its_body() {
    let error = FeverError::unreadable("api&feeds", "expected value", "<html>");
    assert_eq!(
        error.message(),
        "Failed to parse FreshRSS Fever API response for 'api&feeds': expected value — body: <html>"
    );
}
