//! The FreshRSS Fever API.
//!
//! Every user authenticates with an API password of their own, which is not the password
//! of the web login: the key `MD5("username:api_password")` goes with each request as a
//! form field.
//!
//! The server gives at most 50 entries for an `items` request, read entries among them;
//! entries name their feed by its id only; `unread_item_ids` is a comma-separated list of
//! all unread ids, oldest first. A reply with status 503 means that API access is switched
//! off for the whole installation.

use crate::config::{FreshRSSConfig, FreshRSSConfigView};
use crate::http;
use crate::http::{Body, BodyView, HttpStatus, Post, PostView};
use crate::ordering;
use crate::text;
use std::collections::HashMap;
use vstd::prelude::*;
use vstd::string::*;

verus! {

/// The most entries that the server gives for one `items` request.
pub const ITEMS_PER_PAGE: usize = 50;

/// The most unread articles of one user that one digest run takes up; the rest stays unread
/// for later runs.
pub const MAX_ARTICLES_PER_RUN: usize = 1000;

/// Seconds after which a request is given up.
pub const TIMEOUT_SECS: u64 = 60;

/// An article, as the digest takes it up.
#[derive(Debug, Clone)]
pub struct Article {
    pub id: u64,
    pub title: String,
    pub author: Option<String>,
    /// HTML content.
    pub content: String,
    pub url: String,
    pub feed_title: String,
    pub feed_url: Option<String>,
    /// ISO 639-1 code. The Fever API gives none, so this is always `None`.
    pub language: Option<String>,
    /// Publication time in Unix seconds.
    pub published: i64,
}

#[verifier::ext_equal]
pub struct ArticleView {
    pub id: u64,
    pub title: Seq<char>,
    pub author: Option<Seq<char>>,
    pub content: Seq<char>,
    pub url: Seq<char>,
    pub feed_title: Seq<char>,
    pub feed_url: Option<Seq<char>>,
    pub language: Option<Seq<char>>,
    pub published: int,
}

impl View for Article {
    type V = ArticleView;

    open spec fn view(&self) -> ArticleView {
        ArticleView {
            id: self.id,
            title: self.title@,
            author: text::text_of(self.author),
            content: self.content@,
            url: self.url@,
            feed_title: self.feed_title@,
            feed_url: text::text_of(self.feed_url),
            language: text::text_of(self.language),
            published: self.published as int,
        }
    }
}

impl ordering::Ranked for Article {
    open spec fn rank_of(entry: ArticleView) -> int {
        entry.published
    }

    fn rank(&self) -> (r: i64) {
        self.published
    }
}

/// An entry of the `items` list.
#[derive(Debug)]
pub struct FeverItem {
    pub id: u64,
    pub feed_id: Option<u64>,
    pub title: Option<String>,
    pub author: Option<String>,
    pub html: Option<String>,
    pub url: Option<String>,
    pub is_read: Option<u64>,
    pub created_on_time: Option<i64>,
}

#[verifier::ext_equal]
pub struct FeverItemView {
    pub id: u64,
    pub feed_id: Option<u64>,
    pub title: Option<Seq<char>>,
    pub author: Option<Seq<char>>,
    pub html: Option<Seq<char>>,
    pub url: Option<Seq<char>>,
    pub is_read: Option<u64>,
    pub created_on_time: Option<i64>,
}

impl View for FeverItem {
    type V = FeverItemView;

    open spec fn view(&self) -> FeverItemView {
        FeverItemView {
            id: self.id,
            feed_id: self.feed_id,
            title: text::text_of(self.title),
            author: text::text_of(self.author),
            html: text::text_of(self.html),
            url: text::text_of(self.url),
            is_read: self.is_read,
            created_on_time: self.created_on_time,
        }
    }
}

/// An entry of the `feeds` list.
#[derive(Debug)]
pub struct FeverFeed {
    pub id: u64,
    pub title: Option<String>,
    pub url: Option<String>,
}

#[verifier::ext_equal]
pub struct FeverFeedView {
    pub id: u64,
    pub title: Option<Seq<char>>,
    pub url: Option<Seq<char>>,
}

impl View for FeverFeed {
    type V = FeverFeedView;

    open spec fn view(&self) -> FeverFeedView {
        FeverFeedView {
            id: self.id,
            title: text::text_of(self.title),
            url: text::text_of(self.url),
        }
    }
}

/// The MD5 digest of a text's UTF-8 bytes, in hexadecimal.
pub uninterp spec fn md5_hex(text: Seq<char>) -> Seq<char>;

/// Whether `c` is a digit of lower-case hexadecimal.
pub open spec fn hex_digit(c: char) -> bool {
    '0' <= c <= '9' || 'a' <= c <= 'f'
}

/// `md5::compute` on the text's UTF-8 bytes, and the digest's `LowerHex` format, which
/// writes two lower-case digits for each of the digest's sixteen bytes. What the digest is
/// goes unsaid but for its name, `md5_hex`.
#[verifier::external_body]
fn md5_text(text: &str) -> (r: String)
    ensures
        r@ == md5_hex(text@),
        r@.len() == 32,
        forall|i: int| 0 <= i < 32 ==> hex_digit(#[trigger] r@[i]),
{
    format!("{:x}", md5::compute(text.as_bytes()))
}

/// The text that the API key is the digest of.
pub open spec fn credentials(username: Seq<char>, api_password: Seq<char>) -> Seq<char> {
    username + seq![':'] + api_password
}

/// The Fever API key of a user: `MD5("username:api_password")` in lower-case hexadecimal.
pub fn api_key(username: &str, api_password: &str) -> (r: String)
    ensures
        r@ == md5_hex(credentials(username@, api_password@)),
        r@.len() == 32,
        forall|i: int| 0 <= i < 32 ==> hex_digit(#[trigger] r@[i]),
{
    let mut joined = username.to_owned();
    joined.push(':');
    joined.append(api_password);
    assert(joined@ == credentials(username@, api_password@));
    md5_text(joined.as_str())
}

/// The ids in the pieces of a list, in order; pieces that are no id are passed over.
pub open spec fn ids_of(pieces: Seq<Seq<char>>) -> Seq<u64>
    decreases pieces.len(),
{
    if pieces.len() == 0 {
        Seq::empty()
    } else {
        match text::unsigned_up_to(text::trimmed(pieces.last()), u64::MAX as int) {
            Some(n) => ids_of(pieces.drop_last()).push(n as u64),
            None => ids_of(pieces.drop_last()),
        }
    }
}

/// The ids in a comma-separated list.
pub open spec fn id_list(list: Seq<char>) -> Seq<u64> {
    ids_of(text::split_on(list, ','))
}

/// The ids in a comma-separated list; pieces that are no id are passed over.
pub fn parse_id_list(list: &str) -> (r: Vec<u64>)
    ensures
        r@ == id_list(list@),
{
    let pieces = text::split(list, ',');
    let ghost all = text::texts(pieces@);
    let mut r: Vec<u64> = Vec::new();
    let mut i: usize = 0;
    while i < pieces.len()
        invariant
            i <= pieces@.len(),
            all == text::texts(pieces@),
            r@ == ids_of(all.take(i as int)),
        decreases pieces@.len() - i,
    {
        assert(all.take(i + 1).drop_last() == all.take(i as int));
        let piece = text::trim(pieces[i].as_str());
        match text::parse_unsigned(piece.as_str(), u64::MAX) {
            Some(n) => r.push(n),
            None => {},
        }
        i = i + 1;
    }
    assert(all.take(i as int) == all);
    r
}

/// The text of an optional field, or the empty text.
pub open spec fn text_or_empty(o: Option<Seq<char>>) -> Seq<char> {
    match o {
        Some(s) => s,
        None => Seq::empty(),
    }
}

/// The feeds by their id: title and URL.
pub open spec fn feed_texts(m: Map<u64, (String, String)>) -> Map<u64, (Seq<char>, Seq<char>)> {
    m.map_values(|p: (String, String)| (p.0@, p.1@))
}

/// Title and URL of the feed of an item.
pub open spec fn feed_of(
    feeds: Map<u64, (Seq<char>, Seq<char>)>,
    feed_id: u64,
) -> (Seq<char>, Option<Seq<char>>) {
    if feeds.contains_key(feed_id) {
        (feeds[feed_id].0, Some(feeds[feed_id].1))
    } else {
        ("Feed #"@ + text::decimal(feed_id as nat), None)
    }
}

/// Whether an item is taken up: it is not marked read, and not older than `since`.
pub open spec fn wanted(item: FeverItemView, since: int) -> bool {
    &&& item.is_read != Some(1u64)
    &&& published_at(item) >= since
}

/// The publication time of an item; one without is as old as can be.
pub open spec fn published_at(item: FeverItemView) -> int {
    match item.created_on_time {
        Some(t) => t as int,
        None => 0,
    }
}

/// The article that an item is about.
pub open spec fn article_of(
    item: FeverItemView,
    feeds: Map<u64, (Seq<char>, Seq<char>)>,
) -> ArticleView {
    let feed = feed_of(
        feeds,
        match item.feed_id {
            Some(id) => id,
            None => 0,
        },
    );
    ArticleView {
        id: item.id,
        title: text_or_empty(item.title),
        author: match item.author {
            Some(a) if text::trimmed(a).len() > 0 => Some(a),
            _ => None,
        },
        content: text_or_empty(item.html),
        url: text_or_empty(item.url),
        feed_title: feed.0,
        feed_url: feed.1,
        language: None,
        published: published_at(item),
    }
}

fn or_empty(o: &Option<String>) -> (r: String)
    ensures
        r@ == text_or_empty(text::text_of(*o)),
{
    match o {
        Some(s) => s.clone(),
        None => String::new(),
    }
}

/// The article that an item is about, unless the item is read or older than `since`.
pub fn item_to_article(
    item: &FeverItem,
    feed_map: &HashMap<u64, (String, String)>,
    since: i64,
) -> (r: Option<Article>)
    ensures
        match r {
            Some(article) => wanted(item@, since as int) && article@ == article_of(
                item@,
                feed_texts(feed_map@),
            ),
            None => !wanted(item@, since as int),
        },
{
    broadcast use vstd::std_specs::hash::group_hash_axioms;

    if item.is_read.unwrap_or(0) == 1 {
        return None;
    }
    let published = item.created_on_time.unwrap_or(0);
    if published < since {
        return None;
    }
    let feed_id = item.feed_id.unwrap_or(0);
    let (feed_title, feed_url) = match feed_map.get(&feed_id) {
        Some((title, url)) => (title.clone(), Some(url.clone())),
        None => ("Feed #".to_owned().concat(text::decimal_string(feed_id).as_str()), None),
    };
    let author = match &item.author {
        Some(a) => {
            let bare = text::trim(a.as_str());
            if bare.as_str().is_empty() {
                None
            } else {
                Some(a.clone())
            }
        },
        None => None,
    };
    Some(
        Article {
            id: item.id,
            title: or_empty(&item.title),
            author,
            content: or_empty(&item.html),
            url: or_empty(&item.url),
            feed_title,
            feed_url,
            language: None,
            published,
        },
    )
}

/// The trimmed text, cut to `max_chars` characters and an ellipsis where it is longer.
pub open spec fn excerpt(s: Seq<char>, max_chars: int) -> Seq<char> {
    let t = text::trimmed(s);
    if t.len() <= max_chars {
        t
    } else {
        t.take(max_chars) + "..."@
    }
}

/// The trimmed text, cut to `max_chars` characters and an ellipsis where it is longer.
pub fn truncate(text: &str, max_chars: usize) -> (r: String)
    ensures
        r@ == excerpt(text@, max_chars as int),
{
    let trimmed = text::trim(text);
    if trimmed.as_str().unicode_len() <= max_chars {
        trimmed
    } else {
        text::preview(text, max_chars).concat("...")
    }
}

/// Why an exchange with the server came to nothing.
#[derive(Debug)]
pub enum FeverError {
    /// API access is switched off for the whole installation.
    ApiDisabled,
    /// The server answered with an error status.
    Status { status: String, excerpt: String },
    /// The reply is not what the request asks for.
    Unreadable { query: String, detail: String, excerpt: String },
    /// The server does not know the API key.
    Unauthorized { username: String },
    /// The server did not know the API key when articles were to be marked.
    MarkUnauthorized { username: String },
}

pub enum FeverErrorView {
    ApiDisabled,
    Status { status: Seq<char>, excerpt: Seq<char> },
    Unreadable { query: Seq<char>, detail: Seq<char>, excerpt: Seq<char> },
    Unauthorized { username: Seq<char> },
    MarkUnauthorized { username: Seq<char> },
}

impl View for FeverError {
    type V = FeverErrorView;

    open spec fn view(&self) -> FeverErrorView {
        match self {
            FeverError::ApiDisabled => FeverErrorView::ApiDisabled,
            FeverError::Status { status, excerpt } => FeverErrorView::Status {
                status: status@,
                excerpt: excerpt@,
            },
            FeverError::Unreadable { query, detail, excerpt } => FeverErrorView::Unreadable {
                query: query@,
                detail: detail@,
                excerpt: excerpt@,
            },
            FeverError::Unauthorized { username } => FeverErrorView::Unauthorized {
                username: username@,
            },
            FeverError::MarkUnauthorized { username } => FeverErrorView::MarkUnauthorized {
                username: username@,
            },
        }
    }
}

/// What is reported of an error.
pub open spec fn error_message(error: FeverErrorView) -> Seq<char> {
    match error {
        FeverErrorView::ApiDisabled =>
            "FreshRSS returned 503 Service Unavailable: API access is disabled system-wide. An administrator must enable it in the FreshRSS web UI (Settings > Authentication > 'Allow API access (required for mobile apps)')."@,
        FeverErrorView::Status { status, excerpt } => "FreshRSS Fever API error: "@ + status
            + " — "@ + excerpt,
        FeverErrorView::Unreadable { query, detail, excerpt } =>
            "Failed to parse FreshRSS Fever API response for '"@ + query + "': "@ + detail
                + " — body: "@ + excerpt,
        FeverErrorView::Unauthorized { username } =>
            "FreshRSS Fever API authentication failed for user '"@ + username
                + "'. The Fever API uses the per-user *API password* (FreshRSS web UI: Settings > Profile > 'External access via API' > 'API password'), NOT the login password. Every user must have an API password set, and it must match the configured freshrss_api_password / FRESHRSS_API_PASSWORD."@,
        FeverErrorView::MarkUnauthorized { username } =>
            "FreshRSS Fever API authentication failed while marking articles as read for user '"@
                + username + "'"@,
    }
}

impl FeverError {
    pub fn message(&self) -> (r: String)
        ensures
            r@ == error_message(self@),
    {
        match self {
            FeverError::ApiDisabled =>
                "FreshRSS returned 503 Service Unavailable: API access is disabled system-wide. An administrator must enable it in the FreshRSS web UI (Settings > Authentication > 'Allow API access (required for mobile apps)').".to_owned(),
            FeverError::Status { status, excerpt } => "FreshRSS Fever API error: ".to_owned().concat(
                status.as_str(),
            ).concat(" — ").concat(excerpt.as_str()),
            FeverError::Unreadable { query, detail, excerpt } =>
                "Failed to parse FreshRSS Fever API response for '".to_owned().concat(
                query.as_str(),
            ).concat("': ").concat(detail.as_str()).concat(" — body: ").concat(excerpt.as_str()),
            FeverError::Unauthorized { username } =>
                "FreshRSS Fever API authentication failed for user '".to_owned().concat(
                username.as_str(),
            ).concat(
                "'. The Fever API uses the per-user *API password* (FreshRSS web UI: Settings > Profile > 'External access via API' > 'API password'), NOT the login password. Every user must have an API password set, and it must match the configured freshrss_api_password / FRESHRSS_API_PASSWORD.",
            ),
            FeverError::MarkUnauthorized { username } =>
                "FreshRSS Fever API authentication failed while marking articles as read for user '".to_owned().concat(
                username.as_str(),
            ).concat("'"),
        }
    }

    /// The error for a reply that cannot be read, with what the reader said of it.
    pub fn unreadable(query: &str, detail: &str, body: &str) -> (r: FeverError)
        ensures
            r@ == (FeverErrorView::Unreadable {
                query: query@,
                detail: detail@,
                excerpt: excerpt(body@, 300),
            }),
    {
        FeverError::Unreadable {
            query: query.to_owned(),
            detail: detail.to_owned(),
            excerpt: truncate(body, 300),
        }
    }
}

/// The error that a reply's status amounts to, if any.
pub open spec fn status_error(code: u16, status: Seq<char>, body: Seq<char>) -> Option<
    FeverErrorView,
> {
    if code == 503 {
        Some(FeverErrorView::ApiDisabled)
    } else if !http::success(code) {
        Some(FeverErrorView::Status { status, excerpt: excerpt(body, 300) })
    } else {
        None
    }
}

/// The address of a query.
pub open spec fn endpoint(url: Seq<char>, query: Seq<char>) -> Seq<char> {
    text::trim_end_char(url, '/') + "/api/fever.php?"@ + query
}

/// The request for a query, with extra form fields.
pub open spec fn fever_post(
    config: FreshRSSConfigView,
    api_key: Seq<char>,
    query: Seq<char>,
    form: Seq<(Seq<char>, Seq<char>)>,
) -> PostView {
    PostView {
        url: endpoint(config.url, query),
        basic_auth: None,
        headers: Seq::empty(),
        body: BodyView::Form(seq![("api_key"@, api_key)] + form),
    }
}

/// The password of a user: their own, or else the global one.
pub open spec fn resolved_password(
    config: FreshRSSConfigView,
    api_password: Option<Seq<char>>,
) -> Seq<char> {
    match api_password {
        Some(p) => p,
        None => config.api_password,
    }
}

/// A client of the Fever API of one FreshRSS installation.
#[derive(Debug)]
pub struct FeverClient {
    pub config: FreshRSSConfig,
}

impl FeverClient {
    pub fn new(config: FreshRSSConfig) -> (r: Self)
        ensures
            r.config == config,
    {
        FeverClient { config }
    }

    /// The password of a user: their own, or else the global one.
    pub fn resolve_api_password(&self, api_password: Option<&str>) -> (r: String)
        ensures
            r@ == resolved_password(self.config@, text::text_of_str(api_password)),
    {
        match api_password {
            Some(p) => p.to_owned(),
            None => self.config.api_password.clone(),
        }
    }

    /// The request for a query. `query` is the read action and goes in the address; `form`
    /// holds the fields of a write action.
    pub fn request(&self, api_key: &str, query: &str, form: Vec<(String, String)>) -> (r: Post)
        ensures
            r@ == fever_post(self.config@, api_key@, query@, http::pairs(form@)),
    {
        let url = text::trim_end_matches(self.config.url.as_str(), '/').concat(
            "/api/fever.php?",
        ).concat(query);
        let mut fields: Vec<(String, String)> = Vec::new();
        fields.push(("api_key".to_owned(), api_key.to_owned()));
        let mut form = form;
        let ghost extra = http::pairs(form@);
        fields.append(&mut form);
        assert(http::pairs(fields@) == seq![("api_key"@, api_key@)] + extra);
        let headers: Vec<(String, String)> = Vec::new();
        assert(http::pairs(headers@) == Seq::<(Seq<char>, Seq<char>)>::empty());
        Post { url, basic_auth: None, headers, body: Body::Form(fields) }
    }

    /// Whether a reply's status lets its body be read.
    pub fn check_status(status: &HttpStatus, body: &str) -> (r: Result<(), FeverError>)
        ensures
            match r {
                Ok(_) => status_error(status.code, status.text@, body@) is None,
                Err(e) => status_error(status.code, status.text@, body@) == Some(e@),
            },
    {
        if status.code == 503 {
            Err(FeverError::ApiDisabled)
        } else if !status.is_success() {
            Err(FeverError::Status { status: status.text.clone(), excerpt: truncate(body, 300) })
        } else {
            Ok(())
        }
    }
}

} // verus!
