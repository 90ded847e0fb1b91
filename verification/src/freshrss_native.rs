//! The native API of FreshRSS (`entries.json`).

use crate::config::{FreshRSSConfig, FreshRSSConfigView};
use crate::freshrss_fever;
use crate::http;
use crate::http::{Body, BodyView, HttpStatus, Post, PostView};
use crate::json::{Json, JsonView};
use crate::ordering;
use crate::text;
use vstd::prelude::*;
use vstd::string::*;

verus! {

/// Seconds after which a request is given up.
pub const TIMEOUT_SECS: u64 = 60;

/// The most entries that one request asks for.
pub const ENTRY_LIMIT: u64 = 500;

/// An article as this API gives it.
#[derive(Debug, Clone)]
pub struct Article {
    pub id: u64,
    pub title: String,
    pub author: Option<String>,
    /// HTML content.
    pub content: String,
    pub url: String,
    pub feed_title: Option<String>,
    pub feed_url: Option<String>,
    /// Language of the feed, if the server knows it.
    pub language: Option<String>,
    /// Publication time in Unix seconds.
    pub published: i64,
}

#[verifier::ext_equal]
pub struct ArticleView {
    pub id: u64,
    pub title: Seq<char>,
    pub author: Option<Seq<char>>,
    pub content: Seq<char>,
    pub url: Seq<char>,
    pub feed_title: Option<Seq<char>>,
    pub feed_url: Option<Seq<char>>,
    pub language: Option<Seq<char>>,
    pub published: int,
}

impl View for Article {
    type V = ArticleView;

    open spec fn view(&self) -> ArticleView {
        ArticleView {
            id: self.id,
            title: self.title@,
            author: text::text_of(self.author),
            content: self.content@,
            url: self.url@,
            feed_title: text::text_of(self.feed_title),
            feed_url: text::text_of(self.feed_url),
            language: text::text_of(self.language),
            published: self.published as int,
        }
    }
}

impl ordering::Ranked for Article {
    open spec fn rank_of(entry: ArticleView) -> int {
        entry.published
    }

    fn rank(&self) -> (r: i64) {
        self.published
    }
}

/// An entry of the server's list.
#[derive(Debug)]
pub struct FreshRSSArticle {
    pub id: u64,
    pub title: String,
    pub author: Option<String>,
    pub body: String,
    pub link: String,
    pub feed: Option<FeedInfo>,
    pub language: Option<String>,
    pub updated: i64,
}

/// The feed that an entry belongs to.
#[derive(Debug)]
pub struct FeedInfo {
    pub title: String,
    pub url: String,
}

#[verifier::ext_equal]
pub struct EntryView {
    pub id: u64,
    pub title: Seq<char>,
    pub author: Option<Seq<char>>,
    pub body: Seq<char>,
    pub link: Seq<char>,
    /// Title and URL of the feed.
    pub feed: Option<(Seq<char>, Seq<char>)>,
    pub language: Option<Seq<char>>,
    pub updated: int,
}

impl View for FreshRSSArticle {
    type V = EntryView;

    open spec fn view(&self) -> EntryView {
        EntryView {
            id: self.id,
            title: self.title@,
            author: text::text_of(self.author),
            body: self.body@,
            link: self.link@,
            feed: match self.feed {
                Some(feed) => Some((feed.title@, feed.url@)),
                None => None,
            },
            language: text::text_of(self.language),
            updated: self.updated as int,
        }
    }
}

/// The article that an entry is about.
pub open spec fn entry_article(entry: EntryView) -> ArticleView {
    ArticleView {
        id: entry.id,
        title: entry.title,
        author: entry.author,
        content: entry.body,
        url: entry.link,
        feed_title: match entry.feed {
            Some((title, _)) => Some(title),
            None => None,
        },
        feed_url: match entry.feed {
            Some((_, url)) => Some(url),
            None => None,
        },
        language: entry.language,
        published: entry.updated,
    }
}

/// The articles of the entries, in order.
pub open spec fn entry_articles(entries: Seq<EntryView>) -> Seq<ArticleView> {
    Seq::new(entries.len(), |i: int| entry_article(entries[i]))
}

pub open spec fn by_date() -> spec_fn(ArticleView) -> int {
    |a: ArticleView| a.published
}

/// Why the server did not do what it was asked for.
#[derive(Debug)]
pub enum NativeError {
    /// Loading the entries.
    Fetch { status: String, body: String },
    /// Marking articles read.
    Mark { status: String, body: String },
    /// The list of entries cannot be read.
    Unreadable { detail: String },
}

pub enum NativeErrorView {
    Fetch { status: Seq<char>, body: Seq<char> },
    Mark { status: Seq<char>, body: Seq<char> },
    Unreadable { detail: Seq<char> },
}

impl View for NativeError {
    type V = NativeErrorView;

    open spec fn view(&self) -> NativeErrorView {
        match self {
            NativeError::Fetch { status, body } => NativeErrorView::Fetch {
                status: status@,
                body: body@,
            },
            NativeError::Mark { status, body } => NativeErrorView::Mark {
                status: status@,
                body: body@,
            },
            NativeError::Unreadable { detail } => NativeErrorView::Unreadable { detail: detail@ },
        }
    }
}

/// What is reported of an error.
pub open spec fn error_message(error: NativeErrorView) -> Seq<char> {
    match error {
        NativeErrorView::Fetch { status, body } => "FreshRSS entries API error: "@ + status
            + " - "@ + body,
        NativeErrorView::Mark { status, body } => "Failed to mark articles as read: "@ + status
            + " - "@ + body,
        NativeErrorView::Unreadable { detail } =>
            "Failed to parse FreshRSS entries response as JSON: "@ + detail,
    }
}

impl NativeError {
    pub fn message(&self) -> (r: String)
        ensures
            r@ == error_message(self@),
    {
        match self {
            NativeError::Fetch { status, body } =>
                "FreshRSS entries API error: ".to_owned().concat(status.as_str()).concat(
                " - ",
            ).concat(body.as_str()),
            NativeError::Mark { status, body } =>
                "Failed to mark articles as read: ".to_owned().concat(status.as_str()).concat(
                " - ",
            ).concat(body.as_str()),
            NativeError::Unreadable { detail } =>
                "Failed to parse FreshRSS entries response as JSON: ".to_owned().concat(
                detail.as_str(),
            ),
        }
    }
}

/// A request of a user with the given further members.
pub open spec fn native_post(
    config: FreshRSSConfigView,
    username: Seq<char>,
    password: Option<Seq<char>>,
    members: Seq<(Seq<char>, JsonView)>,
) -> PostView {
    PostView {
        url: config.url + "/api/entries.json"@,
        basic_auth: None,
        headers: Seq::empty(),
        body: BodyView::Document(
            JsonView::Object(
                seq![
                    ("user"@, JsonView::Text(username)),
                    (
                        "password"@,
                        JsonView::Text(freshrss_fever::resolved_password(config, password)),
                    ),
                ] + members,
            ),
        ),
    }
}

/// A list of article ids.
pub open spec fn id_document(ids: Seq<u64>) -> JsonView {
    JsonView::List(Seq::new(ids.len(), |i: int| JsonView::Number(ids[i] as int)))
}

/// The request for the entries of a user that were updated at `since` or later.
pub open spec fn fetch_post(
    config: FreshRSSConfigView,
    username: Seq<char>,
    password: Option<Seq<char>>,
    since: int,
) -> PostView {
    native_post(
        config,
        username,
        password,
        seq![
            ("since"@, JsonView::Number(since)),
            ("limit"@, JsonView::Number(ENTRY_LIMIT as int)),
        ],
    )
}

/// The request that marks articles of a user read.
pub open spec fn mark_post(
    config: FreshRSSConfigView,
    username: Seq<char>,
    password: Option<Seq<char>>,
    ids: Seq<u64>,
) -> PostView {
    native_post(
        config,
        username,
        password,
        seq![("action"@, JsonView::Text("read"@)), ("ids"@, id_document(ids))],
    )
}

/// A client of this API of one FreshRSS installation.
#[derive(Debug)]
pub struct NativeFreshRSSClient {
    pub config: FreshRSSConfig,
}

impl NativeFreshRSSClient {
    pub fn new(config: FreshRSSConfig) -> (r: Self)
        ensures
            r.config == config,
    {
        NativeFreshRSSClient { config }
    }

    /// The members that every request has.
    fn credentials(&self, username: &str, password: Option<&str>) -> (r: Json)
        ensures
            r@ == JsonView::Object(
                seq![
                    ("user"@, JsonView::Text(username@)),
                    (
                        "password"@,
                        JsonView::Text(
                            freshrss_fever::resolved_password(
                                self.config@,
                                text::text_of_str(password),
                            ),
                        ),
                    ),
                ],
            ),
    {
        let password = match password {
            Some(p) => p.to_owned(),
            None => self.config.api_password.clone(),
        };
        let r = Json::object().with("user", Json::text(username)).with(
            "password",
            Json::Text(password),
        );
        assert(r@->Object_0 =~= seq![
            ("user"@, JsonView::Text(username@)),
            ("password"@, JsonView::Text(password@)),
        ]);
        r
    }

    fn post(&self, document: Json) -> (r: Post)
        ensures
            r@ == (PostView {
                url: self.config.url@ + "/api/entries.json"@,
                basic_auth: None,
                headers: Seq::empty(),
                body: BodyView::Document(document@),
            }),
    {
        let headers: Vec<(String, String)> = Vec::new();
        assert(http::pairs(headers@) =~= Seq::<(Seq<char>, Seq<char>)>::empty());
        Post {
            url: self.config.url.clone().concat("/api/entries.json"),
            basic_auth: None,
            headers,
            body: Body::Document(document),
        }
    }

    /// The request for the unread entries of a user since `since` (Unix seconds).
    pub fn fetch_request(&self, username: &str, password: Option<&str>, since: i64) -> (r: Post)
        ensures
            r@ == fetch_post(self.config@, username@, text::text_of_str(password), since as int),
    {
        let document = self.credentials(username, password).with("since", Json::Int(since)).with(
            "limit",
            Json::UInt(ENTRY_LIMIT),
        );
        let r = self.post(document);
        assert(r@.body->Document_0->Object_0 =~= native_post(
            self.config@,
            username@,
            text::text_of_str(password),
            seq![
                ("since"@, JsonView::Number(since as int)),
                ("limit"@, JsonView::Number(ENTRY_LIMIT as int)),
            ],
        ).body->Document_0->Object_0);
        r
    }

    /// Whether the reply to the request for entries holds a list of entries.
    pub fn check_fetch(&self, status: &HttpStatus, body: &str) -> (r: Result<(), NativeError>)
        ensures
            match r {
                Ok(_) => http::success(status.code),
                Err(e) => !http::success(status.code) && e@ == (NativeErrorView::Fetch {
                    status: status.text@,
                    body: body@,
                }),
            },
    {
        if status.is_success() {
            Ok(())
        } else {
            Err(NativeError::Fetch { status: status.text.clone(), body: body.to_owned() })
        }
    }

    /// The articles of the entries, newest first.
    pub fn fetch_unread_articles(&self, entries: Vec<FreshRSSArticle>) -> (r: Vec<Article>)
        ensures
            ordering::views(r@) == ordering::largest_first(
                entry_articles(ordering::views(entries@)),
                by_date(),
            ),
    {
        let ghost all = entry_articles(ordering::views(entries@));
        let mut articles: Vec<Article> = Vec::new();
        for entry in it: entries
            invariant
                it.seq() == entries@,
                all == entry_articles(ordering::views(entries@)),
                ordering::views(articles@) == all.take(it.index()),
        {
            let ghost before = articles@;
            let ghost entry_view = entry@;
            assert(all[it.index()] == entry_article(entry_view));
            assert(all.take(it.index() + 1) == all.take(it.index()).push(all[it.index()]));
            let (feed_title, feed_url) = match entry.feed {
                Some(feed) => (Some(feed.title), Some(feed.url)),
                None => (None, None),
            };
            articles.push(
                Article {
                    id: entry.id,
                    title: entry.title,
                    author: entry.author,
                    content: entry.body,
                    url: entry.link,
                    feed_title,
                    feed_url,
                    language: entry.language,
                    published: entry.updated,
                },
            );
            assert(ordering::views(articles@) == ordering::views(before).push(
                entry_article(entry_view),
            ));
        }
        assert(all.take(all.len() as int) == all);
        assert(by_date() =~= |e: ArticleView| <Article as ordering::Ranked>::rank_of(e));
        ordering::sort_largest_first(articles)
    }

    /// The request that marks articles read, all at once.
    pub fn mark_request(
        &self,
        username: &str,
        password: Option<&str>,
        article_ids: &Vec<u64>,
    ) -> (r: Post)
        ensures
            r@ == mark_post(self.config@, username@, text::text_of_str(password), article_ids@),
    {
        let mut ids: Vec<Json> = Vec::new();
        let mut i: usize = 0;
        while i < article_ids.len()
            invariant
                i <= article_ids@.len(),
                ids@.len() == i,
                forall|k: int|
                    0 <= k < i ==> (#[trigger] ids@[k])@ == JsonView::Number(
                        article_ids@[k] as int,
                    ),
            decreases article_ids@.len() - i,
        {
            ids.push(Json::UInt(article_ids[i]));
            i = i + 1;
        }
        let list = Json::list(ids);
        assert(list@->List_0 =~= id_document(article_ids@)->List_0);
        let document = self.credentials(username, password).with("action", Json::text("read")).with(
            "ids",
            list,
        );
        let r = self.post(document);
        assert(r@.body->Document_0->Object_0 =~= native_post(
            self.config@,
            username@,
            text::text_of_str(password),
            seq![("action"@, JsonView::Text("read"@)), ("ids"@, id_document(article_ids@))],
        ).body->Document_0->Object_0);
        r
    }

    /// Whether the server marked the articles.
    pub fn mark_as_read(&self, status: &HttpStatus, body: &str) -> (r: Result<(), NativeError>)
        ensures
            match r {
                Ok(_) => http::success(status.code),
                Err(e) => !http::success(status.code) && e@ == (NativeErrorView::Mark {
                    status: status.text@,
                    body: body@,
                }),
            },
    {
        if status.is_success() {
            Ok(())
        } else {
            Err(NativeError::Mark { status: status.text.clone(), body: body.to_owned() })
        }
    }
}

} // verus!
