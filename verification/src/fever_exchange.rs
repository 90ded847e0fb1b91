//! The exchanges with the Fever API that take several requests: loading a user's unread
//! articles, and marking articles read.
//!
//! An exchange holds what it still needs. It says which query comes next, takes the reply,
//! and moves on, until it is finished or has failed.

use crate::freshrss_fever;
use crate::freshrss_fever::{
    Article, ArticleView, FeverClient, FeverError, FeverErrorView, FeverFeed, FeverFeedView,
    FeverItem, FeverItemView, ITEMS_PER_PAGE, MAX_ARTICLES_PER_RUN,
};
use crate::http;
use crate::http::Post;
use crate::ordering;
use crate::text;
use std::collections::HashMap;
use vstd::prelude::*;
use vstd::string::*;

verus! {

/// The ids in decimal.
pub open spec fn decimals(ids: Seq<u64>) -> Seq<Seq<char>> {
    Seq::new(ids.len(), |i: int| text::decimal(ids[i] as nat))
}

/// The ids as a comma-separated list.
pub open spec fn id_csv(ids: Seq<u64>) -> Seq<char> {
    text::joined(decimals(ids), ","@)
}

/// The ids from `from` on that go in one request.
pub open spec fn page(ids: Seq<u64>, from: int) -> Seq<u64> {
    if ids.len() - from <= ITEMS_PER_PAGE {
        ids.subrange(from, ids.len() as int)
    } else {
        ids.subrange(from, from + ITEMS_PER_PAGE)
    }
}

/// The ids from `from` on that go in one request, as a comma-separated list.
fn page_csv(ids: &Vec<u64>, from: usize) -> (r: String)
    requires
        from <= ids@.len(),
    ensures
        r@ == id_csv(page(ids@, from as int)),
{
    let to: usize = if ids.len() - from <= ITEMS_PER_PAGE {
        ids.len()
    } else {
        from + ITEMS_PER_PAGE
    };
    let ghost chunk = page(ids@, from as int);
    let mut parts: Vec<String> = Vec::new();
    let mut i: usize = from;
    while i < to
        invariant
            from <= i <= to <= ids@.len(),
            chunk == ids@.subrange(from as int, to as int),
            text::texts(parts@) == decimals(chunk).take(i - from),
        decreases to - i,
    {
        let ghost before = parts@;
        parts.push(text::decimal_string(ids[i]));
        assert(text::texts(parts@) == text::texts(before).push(text::decimal(ids@[i as int] as nat)));
        assert(decimals(chunk).take(i - from + 1) == decimals(chunk).take(i - from).push(
            text::decimal(ids@[i as int] as nat),
        ));
        i = i + 1;
    }
    assert(decimals(chunk).take(to - from) == decimals(chunk));
    text::join(&parts, ",")
}

/// The most ids that a digest run asks for: enough whole pages for its articles.
pub open spec fn most_ids() -> int {
    (MAX_ARTICLES_PER_RUN + ITEMS_PER_PAGE - 1) / ITEMS_PER_PAGE as int * ITEMS_PER_PAGE
}

/// The newest of the ids, which come oldest first, as many as a run asks for.
pub open spec fn newest_ids(ids: Seq<u64>) -> Seq<u64> {
    if ids.len() > most_ids() {
        ids.skip(ids.len() - most_ids())
    } else {
        ids
    }
}

fn keep_newest_ids(ids: Vec<u64>) -> (r: Vec<u64>)
    ensures
        r@ == newest_ids(ids@),
{
    let most: usize = (MAX_ARTICLES_PER_RUN + ITEMS_PER_PAGE - 1) / ITEMS_PER_PAGE * ITEMS_PER_PAGE;
    let mut ids = ids;
    if ids.len() > most {
        let at: usize = ids.len() - most;
        ids.split_off(at)
    } else {
        ids
    }
}

/// Title and URL of each feed by its id; of two entries with one id the later counts.
pub open spec fn feed_table(feeds: Seq<FeverFeedView>) -> Map<u64, (Seq<char>, Seq<char>)>
    decreases feeds.len(),
{
    if feeds.len() == 0 {
        Map::empty()
    } else {
        feed_table(feeds.drop_last()).insert(
            feeds.last().id,
            (
                freshrss_fever::text_or_empty(feeds.last().title),
                freshrss_fever::text_or_empty(feeds.last().url),
            ),
        )
    }
}

fn collect_feeds(feeds: Vec<FeverFeed>) -> (r: HashMap<u64, (String, String)>)
    ensures
        freshrss_fever::feed_texts(r@) == feed_table(ordering::views(feeds@)),
{
    broadcast use vstd::std_specs::hash::group_hash_axioms;

    let ghost all = ordering::views(feeds@);
    let mut table: HashMap<u64, (String, String)> = HashMap::new();
    assert(freshrss_fever::feed_texts(table@) == feed_table(all.take(0)));
    for feed in it: feeds
        invariant
            it.seq() == feeds@,
            all == ordering::views(feeds@),
            freshrss_fever::feed_texts(table@) == feed_table(all.take(it.index())),
    {
        broadcast use vstd::std_specs::hash::group_hash_axioms;

        let ghost before = table@;
        assert(all.take(it.index() + 1).drop_last() == all.take(it.index()));
        assert(all.take(it.index() + 1).last() == feed@);
        let FeverFeed { id, title, url } = feed;
        let title = match title {
            Some(s) => s,
            None => String::new(),
        };
        let url = match url {
            Some(s) => s,
            None => String::new(),
        };
        table.insert(id, (title, url));
        assert(freshrss_fever::feed_texts(table@) == freshrss_fever::feed_texts(before).insert(
            id,
            (title@, url@),
        ));
    }
    assert(all.take(all.len() as int) == all);
    table
}

/// The articles of the items that are wanted, in order.
pub open spec fn wanted_articles(
    items: Seq<FeverItemView>,
    feeds: Map<u64, (Seq<char>, Seq<char>)>,
    since: int,
) -> Seq<ArticleView>
    decreases items.len(),
{
    if items.len() == 0 {
        Seq::empty()
    } else {
        let before = wanted_articles(items.drop_last(), feeds, since);
        if freshrss_fever::wanted(items.last(), since) {
            before.push(freshrss_fever::article_of(items.last(), feeds))
        } else {
            before
        }
    }
}

fn take_up_items(
    items: &Vec<FeverItem>,
    feeds: &HashMap<u64, (String, String)>,
    since: i64,
    articles: Vec<Article>,
) -> (r: Vec<Article>)
    ensures
        ordering::views(r@) == ordering::views(articles@) + wanted_articles(
            ordering::views(items@),
            freshrss_fever::feed_texts(feeds@),
            since as int,
        ),
{
    let ghost all = ordering::views(items@);
    let ghost table = freshrss_fever::feed_texts(feeds@);
    let ghost start = ordering::views(articles@);
    let mut taken = articles;
    let mut i: usize = 0;
    assert(start == start + wanted_articles(all.take(0), table, since as int));
    while i < items.len()
        invariant
            i <= items@.len(),
            all == ordering::views(items@),
            table == freshrss_fever::feed_texts(feeds@),
            ordering::views(taken@) == start + wanted_articles(
                all.take(i as int),
                table,
                since as int,
            ),
        decreases items@.len() - i,
    {
        let ghost next = all.take(i + 1);
        let ghost before = taken@;
        assert(next.drop_last() == all.take(i as int));
        assert(next.last() == items@[i as int]@);
        if let Some(article) = freshrss_fever::item_to_article(&items[i], feeds, since) {
            taken.push(article);
            assert(ordering::views(taken@) == ordering::views(before).push(article@));
        }
        assert(ordering::views(taken@) == start + wanted_articles(next, table, since as int));
        i = i + 1;
    }
    assert(all.take(i as int) == all);
    taken
}

pub open spec fn by_date() -> spec_fn(ArticleView) -> int {
    |a: ArticleView| a.published
}

/// The articles newest first, as many as a run takes up.
pub open spec fn most_recent(articles: Seq<ArticleView>) -> Seq<ArticleView> {
    let sorted = ordering::largest_first(articles, by_date());
    if sorted.len() > MAX_ARTICLES_PER_RUN {
        sorted.take(MAX_ARTICLES_PER_RUN as int)
    } else {
        sorted
    }
}

fn keep_most_recent(articles: Vec<Article>) -> (r: Vec<Article>)
    ensures
        ordering::views(r@) == most_recent(ordering::views(articles@)),
{
    assert(by_date() =~= |e: ArticleView| <Article as ordering::Ranked>::rank_of(e));
    let mut sorted = ordering::sort_largest_first(articles);
    let ghost all = ordering::views(sorted@);
    if sorted.len() > MAX_ARTICLES_PER_RUN {
        sorted.truncate(MAX_ARTICLES_PER_RUN);
        assert(ordering::views(sorted@) == all.take(MAX_ARTICLES_PER_RUN as int));
    }
    sorted
}

/// What loading a user's unread articles waits for, with what it has so far.
#[derive(Debug)]
pub enum FetchStage {
    /// The server's word on the API key.
    Authenticate,
    /// The list of feeds.
    ListFeeds,
    /// The list of unread ids.
    ListUnread { feeds: HashMap<u64, (String, String)> },
    /// The items `ids[next..]`, a page at a time.
    LoadItems {
        feeds: HashMap<u64, (String, String)>,
        ids: Vec<u64>,
        next: usize,
        articles: Vec<Article>,
    },
    Finished { articles: Vec<Article> },
    Failed { error: FeverError },
}

pub enum FetchStageView {
    Authenticate,
    ListFeeds,
    ListUnread { feeds: Map<u64, (Seq<char>, Seq<char>)> },
    LoadItems {
        feeds: Map<u64, (Seq<char>, Seq<char>)>,
        ids: Seq<u64>,
        next: int,
        articles: Seq<ArticleView>,
    },
    Finished { articles: Seq<ArticleView> },
    Failed { error: FeverErrorView },
}

impl View for FetchStage {
    type V = FetchStageView;

    open spec fn view(&self) -> FetchStageView {
        match self {
            FetchStage::Authenticate => FetchStageView::Authenticate,
            FetchStage::ListFeeds => FetchStageView::ListFeeds,
            FetchStage::ListUnread { feeds } => FetchStageView::ListUnread {
                feeds: freshrss_fever::feed_texts(feeds@),
            },
            FetchStage::LoadItems { feeds, ids, next, articles } => FetchStageView::LoadItems {
                feeds: freshrss_fever::feed_texts(feeds@),
                ids: ids@,
                next: *next as int,
                articles: ordering::views(articles@),
            },
            FetchStage::Finished { articles } => FetchStageView::Finished {
                articles: ordering::views(articles@),
            },
            FetchStage::Failed { error } => FetchStageView::Failed { error: error@ },
        }
    }
}

/// The loading of one user's unread articles.
#[derive(Debug)]
pub struct FeverFetch {
    pub username: String,
    pub key: String,
    pub since: i64,
    pub stage: FetchStage,
}

#[verifier::ext_equal]
pub struct FetchView {
    pub username: Seq<char>,
    pub key: Seq<char>,
    pub since: int,
    pub stage: FetchStageView,
}

impl View for FeverFetch {
    type V = FetchView;

    open spec fn view(&self) -> FetchView {
        FetchView {
            username: self.username@,
            key: self.key@,
            since: self.since as int,
            stage: self.stage@,
        }
    }
}

/// The server's reply to a query.
#[derive(Debug)]
pub enum FeverReply {
    /// 1 where the server knows the API key.
    Auth(u64),
    Feeds(Vec<FeverFeed>),
    UnreadIds(Option<String>),
    Items(Vec<FeverItem>),
}

pub enum FeverReplyView {
    Auth(u64),
    Feeds(Seq<FeverFeedView>),
    UnreadIds(Option<Seq<char>>),
    Items(Seq<FeverItemView>),
}

impl View for FeverReply {
    type V = FeverReplyView;

    open spec fn view(&self) -> FeverReplyView {
        match self {
            FeverReply::Auth(auth) => FeverReplyView::Auth(*auth),
            FeverReply::Feeds(feeds) => FeverReplyView::Feeds(ordering::views(feeds@)),
            FeverReply::UnreadIds(list) => FeverReplyView::UnreadIds(text::text_of(*list)),
            FeverReply::Items(items) => FeverReplyView::Items(ordering::views(items@)),
        }
    }
}

impl FetchView {
    /// The same exchange at another stage.
    pub open spec fn at(self, stage: FetchStageView) -> FetchView {
        FetchView { username: self.username, key: self.key, since: self.since, stage }
    }

    /// The query that comes next, while there is one.
    pub open spec fn query(self) -> Option<Seq<char>> {
        match self.stage {
            FetchStageView::Authenticate => Some("api"@),
            FetchStageView::ListFeeds => Some("api&feeds"@),
            FetchStageView::ListUnread { .. } => Some("api&unread_item_ids"@),
            FetchStageView::LoadItems { ids, next, .. } => Some(
                "api&items&with_ids="@ + id_csv(page(ids, next)),
            ),
            FetchStageView::Finished { .. } => None,
            FetchStageView::Failed { .. } => None,
        }
    }

    /// The exchange after a reply. A reply to another query than the one that was due
    /// changes nothing.
    pub open spec fn after(self, reply: FeverReplyView) -> FetchView {
        match (self.stage, reply) {
            (FetchStageView::Authenticate, FeverReplyView::Auth(auth)) => if auth == 1 {
                self.at(FetchStageView::ListFeeds)
            } else {
                self.at(
                    FetchStageView::Failed {
                        error: FeverErrorView::Unauthorized { username: self.username },
                    },
                )
            },
            (FetchStageView::ListFeeds, FeverReplyView::Feeds(feeds)) => self.at(
                FetchStageView::ListUnread { feeds: feed_table(feeds) },
            ),
            (FetchStageView::ListUnread { feeds }, FeverReplyView::UnreadIds(list)) => {
                let ids = freshrss_fever::id_list(freshrss_fever::text_or_empty(list));
                if ids.len() == 0 {
                    self.at(FetchStageView::Finished { articles: Seq::empty() })
                } else {
                    self.at(
                        FetchStageView::LoadItems {
                            feeds,
                            ids: newest_ids(ids),
                            next: 0,
                            articles: Seq::empty(),
                        },
                    )
                }
            },
            (
                FetchStageView::LoadItems { feeds, ids, next, articles },
                FeverReplyView::Items(items),
            ) => {
                let taken = articles + wanted_articles(items, feeds, self.since);
                if ids.len() - next <= ITEMS_PER_PAGE {
                    self.at(FetchStageView::Finished { articles: most_recent(taken) })
                } else {
                    self.at(
                        FetchStageView::LoadItems {
                            feeds,
                            ids,
                            next: next + ITEMS_PER_PAGE,
                            articles: taken,
                        },
                    )
                }
            },
            _ => self,
        }
    }
}

impl FeverFetch {
    /// Whether the next page starts within the ids.
    pub open spec fn wf(self) -> bool {
        self.stage matches FetchStage::LoadItems { ids, next, .. } ==> next <= ids@.len()
    }

    /// The query that comes next, while there is one.
    pub fn query(&self) -> (r: Option<String>)
        requires
            self.wf(),
        ensures
            text::text_of(r) == self@.query(),
    {
        match &self.stage {
            FetchStage::Authenticate => Some("api".to_owned()),
            FetchStage::ListFeeds => Some("api&feeds".to_owned()),
            FetchStage::ListUnread { .. } => Some("api&unread_item_ids".to_owned()),
            FetchStage::LoadItems { ids, next, .. } => {
                let csv = page_csv(ids, *next);
                Some("api&items&with_ids=".to_owned().concat(csv.as_str()))
            },
            FetchStage::Finished { .. } => None,
            FetchStage::Failed { .. } => None,
        }
    }

    /// The exchange after a reply.
    pub fn after(self, reply: FeverReply) -> (r: FeverFetch)
        requires
            self.wf(),
        ensures
            r@ == self@.after(reply@),
            r.wf(),
    {
        let FeverFetch { username, key, since, stage } = self;
        let stage = match (stage, reply) {
            (FetchStage::Authenticate, FeverReply::Auth(auth)) => if auth == 1 {
                FetchStage::ListFeeds
            } else {
                FetchStage::Failed { error: FeverError::Unauthorized { username: username.clone() } }
            },
            (FetchStage::ListFeeds, FeverReply::Feeds(feeds)) => FetchStage::ListUnread {
                feeds: collect_feeds(feeds),
            },
            (FetchStage::ListUnread { feeds }, FeverReply::UnreadIds(list)) => {
                let list = match list {
                    Some(s) => s,
                    None => String::new(),
                };
                let ids = freshrss_fever::parse_id_list(list.as_str());
                let articles: Vec<Article> = Vec::new();
                assert(ordering::views(articles@) == Seq::<ArticleView>::empty());
                if ids.len() == 0 {
                    FetchStage::Finished { articles }
                } else {
                    FetchStage::LoadItems { feeds, ids: keep_newest_ids(ids), next: 0, articles }
                }
            },
            (FetchStage::LoadItems { feeds, ids, next, articles }, FeverReply::Items(items)) => {
                let taken = take_up_items(&items, &feeds, since, articles);
                if ids.len() - next <= ITEMS_PER_PAGE {
                    FetchStage::Finished { articles: keep_most_recent(taken) }
                } else {
                    FetchStage::LoadItems { feeds, ids, next: next + ITEMS_PER_PAGE, articles: taken }
                }
            },
            (stage, _) => stage,
        };
        FeverFetch { username, key, since, stage }
    }
}

/// The exchange that loads a user's unread articles, before its first request.
pub open spec fn fetch_start(username: Seq<char>, key: Seq<char>, since: int) -> FetchView {
    FetchView { username, key, since, stage: FetchStageView::Authenticate }
}

/// What marking articles read has done so far: the articles `ids[..next]` are marked.
#[derive(Debug)]
pub struct FeverMark {
    pub username: String,
    pub key: String,
    pub ids: Vec<u64>,
    pub next: usize,
    /// The server did not know the API key.
    pub refused: bool,
}

#[verifier::ext_equal]
pub struct MarkView {
    pub username: Seq<char>,
    pub key: Seq<char>,
    pub ids: Seq<u64>,
    pub next: int,
    pub refused: bool,
}

impl View for FeverMark {
    type V = MarkView;

    open spec fn view(&self) -> MarkView {
        MarkView {
            username: self.username@,
            key: self.key@,
            ids: self.ids@,
            next: self.next as int,
            refused: self.refused,
        }
    }
}

impl MarkView {
    pub open spec fn pending(self) -> bool {
        !self.refused && self.next < self.ids.len()
    }

    /// The form fields of the request that comes next, while there is one.
    pub open spec fn form(self) -> Option<Seq<(Seq<char>, Seq<char>)>> {
        if self.pending() {
            Some(
                seq![
                    ("mark"@, "item"@),
                    ("as"@, "read"@),
                    ("with_ids"@, id_csv(page(self.ids, self.next))),
                ],
            )
        } else {
            None
        }
    }

    /// The exchange after the server's word on the API key.
    pub open spec fn after(self, auth: u64) -> MarkView {
        if !self.pending() {
            self
        } else if auth != 1 {
            MarkView { refused: true, ..self }
        } else {
            MarkView { next: self.next + page(self.ids, self.next).len(), ..self }
        }
    }
}

impl FeverMark {
    /// Whether the next page starts within the ids.
    pub open spec fn wf(self) -> bool {
        self.next <= self.ids@.len()
    }

    /// The form fields of the request that comes next, while there is one.
    pub fn form(&self) -> (r: Option<Vec<(String, String)>>)
        requires
            self.wf(),
        ensures
            match r {
                Some(fields) => self@.form() == Some(http::pairs(fields@)),
                None => self@.form() is None,
            },
    {
        if self.refused || self.next >= self.ids.len() {
            return None;
        }
        let fields: Vec<(String, String)> = vec![
            ("mark".to_owned(), "item".to_owned()),
            ("as".to_owned(), "read".to_owned()),
            ("with_ids".to_owned(), page_csv(&self.ids, self.next)),
        ];
        assert(http::pairs(fields@) =~= self@.form()->0);
        Some(fields)
    }

    /// The exchange after the server's word on the API key.
    pub fn after(self, auth: u64) -> (r: FeverMark)
        requires
            self.wf(),
        ensures
            r@ == self@.after(auth),
            r.wf(),
    {
        let mut r = self;
        if r.refused || r.next >= r.ids.len() {
            return r;
        }
        if auth != 1 {
            r.refused = true;
        } else if r.ids.len() - r.next <= ITEMS_PER_PAGE {
            r.next = r.ids.len();
        } else {
            r.next = r.next + ITEMS_PER_PAGE;
        }
        r
    }

    /// The error that the exchange ended in, if any.
    pub fn error(&self) -> (r: Option<FeverError>)
        ensures
            match r {
                Some(e) => self.refused && e@ == (FeverErrorView::MarkUnauthorized {
                    username: self.username@,
                }),
                None => !self.refused,
            },
    {
        if self.refused {
            Some(FeverError::MarkUnauthorized { username: self.username.clone() })
        } else {
            None
        }
    }
}

/// The exchange that marks articles read, before its first request.
pub open spec fn mark_start(username: Seq<char>, key: Seq<char>, ids: Seq<u64>) -> MarkView {
    MarkView { username, key, ids, next: 0, refused: false }
}

impl FeverClient {
    /// Starts loading the unread articles of a user that were published at `since` (Unix
    /// seconds) or later. `api_password` is the user's API password; without one the global
    /// password is used.
    pub fn fetch_unread_articles(
        &self,
        username: &str,
        api_password: Option<&str>,
        since: i64,
    ) -> (r: FeverFetch)
        ensures
            r.wf(),
            r@ == fetch_start(
                username@,
                freshrss_fever::md5_hex(
                    freshrss_fever::credentials(
                        username@,
                        freshrss_fever::resolved_password(
                            self.config@,
                            text::text_of_str(api_password),
                        ),
                    ),
                ),
                since as int,
            ),
    {
        let password = self.resolve_api_password(api_password);
        let key = freshrss_fever::api_key(username, password.as_str());
        FeverFetch { username: username.to_owned(), key, since, stage: FetchStage::Authenticate }
    }

    /// Starts marking articles of a user read.
    pub fn mark_as_read(
        &self,
        username: &str,
        api_password: Option<&str>,
        article_ids: Vec<u64>,
    ) -> (r: FeverMark)
        ensures
            r.wf(),
            r@ == mark_start(
                username@,
                freshrss_fever::md5_hex(
                    freshrss_fever::credentials(
                        username@,
                        freshrss_fever::resolved_password(
                            self.config@,
                            text::text_of_str(api_password),
                        ),
                    ),
                ),
                article_ids@,
            ),
    {
        let password = self.resolve_api_password(api_password);
        let key = freshrss_fever::api_key(username, password.as_str());
        FeverMark { username: username.to_owned(), key, ids: article_ids, next: 0, refused: false }
    }

    /// The request that the loading of articles makes next, while there is one.
    pub fn fetch_request(&self, fetch: &FeverFetch) -> (r: Option<Post>)
        requires
            fetch.wf(),
        ensures
            match (r, fetch@.query()) {
                (Some(post), Some(query)) => post@ == freshrss_fever::fever_post(
                    self.config@,
                    fetch.key@,
                    query,
                    Seq::empty(),
                ),
                (None, None) => true,
                _ => false,
            },
    {
        match fetch.query() {
            Some(query) => {
                let form: Vec<(String, String)> = Vec::new();
                assert(http::pairs(form@) == Seq::<(Seq<char>, Seq<char>)>::empty());
                Some(self.request(fetch.key.as_str(), query.as_str(), form))
            },
            None => None,
        }
    }

    /// The request that the marking of articles makes next, while there is one.
    pub fn mark_request(&self, mark: &FeverMark) -> (r: Option<Post>)
        requires
            mark.wf(),
        ensures
            match (r, mark@.form()) {
                (Some(post), Some(form)) => post@ == freshrss_fever::fever_post(
                    self.config@,
                    mark.key@,
                    "api"@,
                    form,
                ),
                (None, None) => true,
                _ => false,
            },
    {
        match mark.form() {
            Some(form) => Some(self.request(mark.key.as_str(), "api", form)),
            None => None,
        }
    }
}

impl FetchView {
    /// The exchange after a sequence of replies.
    pub open spec fn run(self, replies: Seq<FeverReplyView>) -> FetchView
        decreases replies.len(),
    {
        if replies.len() == 0 {
            self
        } else {
            self.run(replies.drop_last()).after(replies.last())
        }
    }

    /// Every article taken up so far was published at `since` or later; the articles of a
    /// finished exchange are in order, newest first, and no more than a run takes up.
    pub open spec fn in_window(self) -> bool {
        match self.stage {
            FetchStageView::LoadItems { articles, .. } => forall|i: int|
                0 <= i < articles.len() ==> (#[trigger] articles[i]).published >= self.since,
            FetchStageView::Finished { articles } => {
                &&& forall|i: int|
                    0 <= i < articles.len() ==> (#[trigger] articles[i]).published >= self.since
                &&& ordering::descending(articles, by_date())
                &&& articles.len() <= MAX_ARTICLES_PER_RUN
            },
            _ => true,
        }
    }
}

proof fn lemma_wanted_in_window(
    items: Seq<FeverItemView>,
    feeds: Map<u64, (Seq<char>, Seq<char>)>,
    since: int,
)
    ensures
        forall|i: int|
            0 <= i < wanted_articles(items, feeds, since).len() ==> (#[trigger] wanted_articles(
                items,
                feeds,
                since,
            )[i]).published >= since,
    decreases items.len(),
{
    if items.len() > 0 {
        lemma_wanted_in_window(items.drop_last(), feeds, since);
    }
}

proof fn lemma_most_recent(articles: Seq<ArticleView>, since: int)
    requires
        forall|i: int| 0 <= i < articles.len() ==> (#[trigger] articles[i]).published >= since,
    ensures
        ordering::descending(most_recent(articles), by_date()),
        most_recent(articles).len() <= MAX_ARTICLES_PER_RUN,
        forall|i: int|
            0 <= i < most_recent(articles).len() ==> (#[trigger] most_recent(
                articles,
            )[i]).published >= since,
{
    broadcast use vstd::seq_lib::group_to_multiset_ensures;

    let sorted = ordering::largest_first(articles, by_date());
    ordering::law_largest_first_sorts(articles, by_date());
    assert forall|i: int| 0 <= i < sorted.len() implies (#[trigger] sorted[i]).published
        >= since by {
        assert(sorted.contains(sorted[i]));
        assert(articles.to_multiset().contains(sorted[i]));
        assert(articles.contains(sorted[i]));
    }
    let kept = most_recent(articles);
    assert forall|i: int, j: int| 0 <= i <= j < kept.len() implies by_date()(#[trigger] kept[i])
        >= by_date()(#[trigger] kept[j]) by {
        assert(kept[i] == sorted[i] && kept[j] == sorted[j]);
    }
    assert forall|i: int| 0 <= i < kept.len() implies (#[trigger] kept[i]).published >= since by {
        assert(kept[i] == sorted[i]);
    }
}

proof fn lemma_after_in_window(s: FetchView, reply: FeverReplyView)
    requires
        s.in_window(),
    ensures
        s.after(reply).in_window(),
{
    match (s.stage, reply) {
        (
            FetchStageView::LoadItems { feeds, ids, next, articles },
            FeverReplyView::Items(items),
        ) => {
            lemma_wanted_in_window(items, feeds, s.since);
            lemma_most_recent(articles + wanted_articles(items, feeds, s.since), s.since);
        },
        _ => {},
    }
}

/// Whatever the server answers, the articles that loading gives were published at `since`
/// or later, come newest first, and are no more than a run takes up.
pub proof fn law_fetch_stays_in_window(
    username: Seq<char>,
    key: Seq<char>,
    since: int,
    replies: Seq<FeverReplyView>,
)
    ensures
        fetch_start(username, key, since).run(replies).in_window(),
        fetch_start(username, key, since).run(replies).since == since,
    decreases replies.len(),
{
    if replies.len() > 0 {
        law_fetch_stays_in_window(username, key, since, replies.drop_last());
        lemma_after_in_window(
            fetch_start(username, key, since).run(replies.drop_last()),
            replies.last(),
        );
    }
}

/// Where the server does not know the API key, loading fails, and no further reply changes
/// that.
pub proof fn law_unknown_key_fails(
    username: Seq<char>,
    key: Seq<char>,
    since: int,
    auth: u64,
    rest: Seq<FeverReplyView>,
)
    requires
        auth != 1,
    ensures
        fetch_start(username, key, since).run(seq![FeverReplyView::Auth(auth)] + rest).stage
            == (FetchStageView::Failed { error: FeverErrorView::Unauthorized { username } }),
    decreases rest.len(),
{
    let all = seq![FeverReplyView::Auth(auth)] + rest;
    let start = fetch_start(username, key, since);
    if rest.len() == 0 {
        assert(all.drop_last() == Seq::<FeverReplyView>::empty());
        assert(start.run(all.drop_last()) == start);
    } else {
        law_unknown_key_fails(username, key, since, auth, rest.drop_last());
        assert(all.drop_last() == seq![FeverReplyView::Auth(auth)] + rest.drop_last());
    }
}

/// The items of all pages, in order.
pub open spec fn all_items(pages: Seq<Seq<FeverItemView>>) -> Seq<FeverItemView>
    decreases pages.len(),
{
    if pages.len() == 0 {
        Seq::empty()
    } else {
        all_items(pages.drop_last()) + pages.last()
    }
}

/// The replies of a server that knows the key, with the given feeds, list of unread ids
/// and pages of items.
pub open spec fn transcript(
    feeds: Seq<FeverFeedView>,
    list: Seq<char>,
    pages: Seq<Seq<FeverItemView>>,
) -> Seq<FeverReplyView> {
    seq![
        FeverReplyView::Auth(1),
        FeverReplyView::Feeds(feeds),
        FeverReplyView::UnreadIds(Some(list)),
    ] + Seq::new(pages.len(), |i: int| FeverReplyView::Items(pages[i]))
}

proof fn lemma_wanted_concat(
    a: Seq<FeverItemView>,
    b: Seq<FeverItemView>,
    feeds: Map<u64, (Seq<char>, Seq<char>)>,
    since: int,
)
    ensures
        wanted_articles(a + b, feeds, since) == wanted_articles(a, feeds, since) + wanted_articles(
            b,
            feeds,
            since,
        ),
    decreases b.len(),
{
    if b.len() == 0 {
        assert(a + b == a);
    } else {
        lemma_wanted_concat(a, b.drop_last(), feeds, since);
        assert((a + b).drop_last() == a + b.drop_last());
    }
}

proof fn lemma_run_pages(
    start: FetchView,
    feeds: Seq<FeverFeedView>,
    list: Seq<char>,
    pages: Seq<Seq<FeverItemView>>,
)
    requires
        start.stage == FetchStageView::Authenticate,
        freshrss_fever::id_list(list).len() > 0,
        pages.len() > 0 ==> (pages.len() - 1) * ITEMS_PER_PAGE < newest_ids(
            freshrss_fever::id_list(list),
        ).len(),
    ensures
        ({
            let ids = newest_ids(freshrss_fever::id_list(list));
            let taken = wanted_articles(all_items(pages), feed_table(feeds), start.since);
            let end = start.run(transcript(feeds, list, pages));
            &&& pages.len() * ITEMS_PER_PAGE < ids.len() ==> end == start.at(
                FetchStageView::LoadItems {
                    feeds: feed_table(feeds),
                    ids,
                    next: pages.len() * ITEMS_PER_PAGE,
                    articles: taken,
                },
            )
            &&& pages.len() * ITEMS_PER_PAGE >= ids.len() ==> end == start.at(
                FetchStageView::Finished { articles: most_recent(taken) },
            )
        }),
    decreases pages.len(),
{
    let all = transcript(feeds, list, pages);
    let ids = newest_ids(freshrss_fever::id_list(list));
    if pages.len() == 0 {
        let two = all.drop_last();
        let one = two.drop_last();
        assert(one.drop_last() == Seq::<FeverReplyView>::empty());
        assert(start.run(one.drop_last()) == start);
        assert(start.run(one) == start.at(FetchStageView::ListFeeds));
        assert(start.run(two) == start.at(FetchStageView::ListUnread { feeds: feed_table(feeds) }));
        assert(all.last() == FeverReplyView::UnreadIds(Some(list)));
        assert(start.run(all) == start.at(
            FetchStageView::LoadItems {
                feeds: feed_table(feeds),
                ids,
                next: 0,
                articles: Seq::empty(),
            },
        ));
    } else {
        let shorter = pages.drop_last();
        lemma_run_pages(start, feeds, list, shorter);
        lemma_wanted_concat(all_items(shorter), pages.last(), feed_table(feeds), start.since);
        assert(all.drop_last() == transcript(feeds, list, shorter));
        assert(all.last() == FeverReplyView::Items(pages.last()));
    }
}

/// Loading gives the most recent of the wanted articles that the server's pages hold, where
/// the server knows the key, lists unread ids, and answers the request for each page.
pub proof fn law_fetch_gives_recent_unread(
    username: Seq<char>,
    key: Seq<char>,
    since: int,
    feeds: Seq<FeverFeedView>,
    list: Seq<char>,
    pages: Seq<Seq<FeverItemView>>,
)
    requires
        freshrss_fever::id_list(list).len() > 0,
        (pages.len() - 1) * ITEMS_PER_PAGE < newest_ids(freshrss_fever::id_list(list)).len()
            <= pages.len() * ITEMS_PER_PAGE,
    ensures
        fetch_start(username, key, since).run(transcript(feeds, list, pages)).stage
            == (FetchStageView::Finished {
            articles: most_recent(wanted_articles(all_items(pages), feed_table(feeds), since)),
        }),
{
    lemma_run_pages(fetch_start(username, key, since), feeds, list, pages);
}

/// Where no article is unread, loading gives none, without asking for items.
pub proof fn law_nothing_unread_gives_nothing(
    username: Seq<char>,
    key: Seq<char>,
    since: int,
    feeds: Seq<FeverFeedView>,
    list: Option<Seq<char>>,
)
    requires
        freshrss_fever::id_list(freshrss_fever::text_or_empty(list)).len() == 0,
    ensures
        fetch_start(username, key, since).run(
            seq![
                FeverReplyView::Auth(1),
                FeverReplyView::Feeds(feeds),
                FeverReplyView::UnreadIds(list),
            ],
        ).stage == (FetchStageView::Finished { articles: Seq::empty() }),
{
    let all = seq![
        FeverReplyView::Auth(1),
        FeverReplyView::Feeds(feeds),
        FeverReplyView::UnreadIds(list),
    ];
    let start = fetch_start(username, key, since);
    let two = all.drop_last();
    let one = two.drop_last();
    assert(one.drop_last() == Seq::<FeverReplyView>::empty());
    assert(start.run(one.drop_last()) == start);
    assert(start.run(one) == start.at(FetchStageView::ListFeeds));
    assert(start.run(two) == start.at(FetchStageView::ListUnread { feeds: feed_table(feeds) }));
}

/// The pages of the ids from `from` on.
pub open spec fn pages_from(ids: Seq<u64>, from: int) -> Seq<Seq<u64>>
    decreases
            if from < ids.len() {
                ids.len() - from
            } else {
                0
            },
{
    if from < 0 || from >= ids.len() {
        Seq::empty()
    } else {
        seq![page(ids, from)] + pages_from(ids, from + ITEMS_PER_PAGE)
    }
}

/// The pages of the ids hold each id once, in order, and none is longer than the server
/// answers.
pub proof fn law_pages_hold_every_id(ids: Seq<u64>, from: int)
    requires
        0 <= from <= ids.len(),
    ensures
        pages_from(ids, from).flatten() == ids.skip(from),
        forall|i: int|
            0 <= i < pages_from(ids, from).len() ==> 0 < (#[trigger] pages_from(
                ids,
                from,
            )[i]).len() <= ITEMS_PER_PAGE,
    decreases ids.len() - from,
{
    let pages = pages_from(ids, from);
    if from < ids.len() {
        if ids.len() - from <= ITEMS_PER_PAGE {
            assert(pages_from(ids, from + ITEMS_PER_PAGE) == Seq::<Seq<u64>>::empty());
            assert(pages.drop_first() == Seq::<Seq<u64>>::empty());
            assert(pages.drop_first().flatten() == Seq::<u64>::empty());
        } else {
            law_pages_hold_every_id(ids, from + ITEMS_PER_PAGE);
            assert(pages.drop_first() == pages_from(ids, from + ITEMS_PER_PAGE));
        }
        assert(pages.first() == page(ids, from));
        assert(pages.flatten() == page(ids, from) + pages.drop_first().flatten());
        assert(ids.skip(from) == pages.flatten());
        assert forall|i: int| 0 <= i < pages.len() implies 0 < (#[trigger] pages[i]).len()
            <= ITEMS_PER_PAGE by {
            if i > 0 {
                assert(pages[i] == pages_from(ids, from + ITEMS_PER_PAGE)[i - 1]);
            }
        }
    } else {
        assert(ids.skip(from) == Seq::<u64>::empty());
        assert(pages.flatten() == Seq::<u64>::empty());
    }
}

impl MarkView {
    /// The exchange after a sequence of words on the API key.
    pub open spec fn run(self, replies: Seq<u64>) -> MarkView
        decreases replies.len(),
    {
        if replies.len() == 0 {
            self
        } else {
            self.run(replies.drop_last()).after(replies.last())
        }
    }
}

/// While the server knows the key, each reply has one more page of articles marked, in
/// order, until all are.
pub proof fn law_mark_proceeds_by_pages(
    username: Seq<char>,
    key: Seq<char>,
    ids: Seq<u64>,
    replies: Seq<u64>,
)
    requires
        forall|i: int| 0 <= i < replies.len() ==> #[trigger] replies[i] == 1,
    ensures
        ({
            let end = mark_start(username, key, ids).run(replies);
            &&& !end.refused
            &&& end.ids == ids
            &&& end.next == if replies.len() * ITEMS_PER_PAGE <= ids.len() {
                replies.len() * ITEMS_PER_PAGE
            } else {
                ids.len() as int
            }
        }),
    decreases replies.len(),
{
    if replies.len() > 0 {
        law_mark_proceeds_by_pages(username, key, ids, replies.drop_last());
    }
}

/// Once the server does not know the key, nothing more is sent.
pub proof fn law_mark_stops_when_refused(s: MarkView, replies: Seq<u64>)
    requires
        s.refused,
    ensures
        s.run(replies) == s,
        s.form() is None,
    decreases replies.len(),
{
    if replies.len() > 0 {
        law_mark_stops_when_refused(s, replies.drop_last());
    }
}

} // verus!
