//! The Google Reader compatible API of FreshRSS (`greader.php`).

use crate::config::{FreshRSSConfig, FreshRSSConfigView};
use crate::freshrss_fever;
use crate::http;
use crate::http::{Body, BodyView, HttpStatus, Post, PostView, Reply, ReplyError, ReplyErrorView, ReplyView};
use crate::json::{Json, JsonView};
use crate::ordering;
use crate::text;
use vstd::prelude::*;
use vstd::string::*;

verus! {

/// Seconds after which a request is given up.
pub const TIMEOUT_SECS: u64 = 60;

/// An article as this API gives it.
#[derive(Debug, Clone)]
pub struct Article {
    pub id: u64,
    pub title: String,
    pub author: Option<String>,
    /// HTML content.
    pub content: String,
    pub url: String,
    pub feed_title: String,
    pub feed_url: String,
    /// ISO 639-1 code. The API gives none, so this is always `None`.
    pub language: Option<String>,
    /// Publication time in Unix seconds.
    pub published: i64,
}

#[verifier::ext_equal]
pub struct ArticleView {
    pub id: u64,
    pub title: Seq<char>,
    pub author: Option<Seq<char>>,
    pub content: Seq<char>,
    pub url: Seq<char>,
    pub feed_title: Seq<char>,
    pub feed_url: Seq<char>,
    pub language: Option<Seq<char>>,
    pub published: int,
}

impl View for Article {
    type V = ArticleView;

    open spec fn view(&self) -> ArticleView {
        ArticleView {
            id: self.id,
            title: self.title@,
            author: text::text_of(self.author),
            content: self.content@,
            url: self.url@,
            feed_title: self.feed_title@,
            feed_url: self.feed_url@,
            language: text::text_of(self.language),
            published: self.published as int,
        }
    }
}

impl ordering::Ranked for Article {
    open spec fn rank_of(entry: ArticleView) -> int {
        entry.published
    }

    fn rank(&self) -> (r: i64) {
        self.published
    }
}

/// Why articles could not be loaded or marked.
#[derive(Debug)]
pub enum GreaderError {
    Reply(ReplyError),
    /// An entry has no id.
    MissingId,
    /// An entry's id does not end in a number.
    BadId { text: String },
    /// The server refused to mark an article.
    Mark { id: u64, status: String },
    /// A request to mark an article did not get through.
    Unsent { message: String },
}

pub enum GreaderErrorView {
    Reply(ReplyErrorView),
    MissingId,
    BadId { text: Seq<char> },
    Mark { id: u64, status: Seq<char> },
    Unsent { message: Seq<char> },
}

impl View for GreaderError {
    type V = GreaderErrorView;

    open spec fn view(&self) -> GreaderErrorView {
        match self {
            GreaderError::Reply(e) => GreaderErrorView::Reply(e@),
            GreaderError::MissingId => GreaderErrorView::MissingId,
            GreaderError::BadId { text } => GreaderErrorView::BadId { text: text@ },
            GreaderError::Mark { id, status } => GreaderErrorView::Mark {
                id: *id,
                status: status@,
            },
            GreaderError::Unsent { message } => GreaderErrorView::Unsent { message: message@ },
        }
    }
}

/// What is reported of an error.
pub open spec fn error_message(error: GreaderErrorView) -> Seq<char> {
    match error {
        GreaderErrorView::Reply(e) => http::reply_message(
            e,
            "FreshRSS API"@,
            "Unexpected FreshRSS response format"@,
        ),
        GreaderErrorView::MissingId => "Missing entry id"@,
        GreaderErrorView::BadId { text } => "Cannot parse entry id: "@ + text,
        GreaderErrorView::Mark { id, status } => "Failed to mark article "@ + text::decimal(
            id as nat,
        ) + " as read: "@ + status,
        GreaderErrorView::Unsent { message } => message,
    }
}

impl GreaderError {
    pub fn message(&self) -> (r: String)
        ensures
            r@ == error_message(self@),
    {
        match self {
            GreaderError::Reply(e) => e.message(
                "FreshRSS API",
                "Unexpected FreshRSS response format",
            ),
            GreaderError::MissingId => "Missing entry id".to_owned(),
            GreaderError::BadId { text } => "Cannot parse entry id: ".to_owned().concat(text.as_str()),
            GreaderError::Mark { id, status } => "Failed to mark article ".to_owned().concat(
                text::decimal_string(*id).as_str(),
            ).concat(" as read: ").concat(status.as_str()),
            GreaderError::Unsent { message } => message.clone(),
        }
    }
}

/// The number that an entry's id ends in, behind its last slash.
pub open spec fn entry_number(id: Seq<char>) -> Option<int> {
    text::unsigned_up_to(text::split_on(id, '/').last(), u64::MAX as int)
}

/// The id of an entry, or why it has none.
pub open spec fn entry_id(item: JsonView) -> Result<u64, GreaderErrorView> {
    match item.member_text("id"@) {
        None => Err(GreaderErrorView::MissingId),
        Some(id) => match entry_number(id) {
            Some(n) => Ok(n as u64),
            None => Err(GreaderErrorView::BadId { text: id }),
        },
    }
}

/// The publication time of an entry.
pub open spec fn entry_time(item: JsonView) -> int {
    match item.member("ts"@) {
        Some(j) => match j.integer() {
            Some(n) => n,
            None => 0,
        },
        None => 0,
    }
}

/// The first element of the list that is the member under `key`.
pub open spec fn first_of(item: JsonView, key: Seq<char>) -> Option<JsonView> {
    match item.member(key) {
        Some(j) => j.element(0),
        None => None,
    }
}

/// The text under `key` of a document, or else `default`.
pub open spec fn text_under(
    document: Option<JsonView>,
    key: Seq<char>,
    default: Seq<char>,
) -> Seq<char> {
    match document {
        Some(j) => match j.member_text(key) {
            Some(s) => s,
            None => default,
        },
        None => default,
    }
}

/// The article that an entry is about.
pub open spec fn entry_article(item: JsonView, id: u64) -> ArticleView {
    let feed = first_of(item, "streamIds"@);
    ArticleView {
        id,
        title: text_under(Some(item), "title"@, Seq::empty()),
        author: item.member_text("author"@),
        content: text_under(Some(item), "summary"@, Seq::empty()),
        url: text_under(first_of(item, "canonical"@), "href"@, Seq::empty()),
        feed_title: text_under(feed, "title"@, "Unknown Feed"@),
        feed_url: text_under(feed, "url"@, Seq::empty()),
        language: None,
        published: entry_time(item),
    }
}

/// The articles of the entries that were published at `since` or later, in the order of the
/// entries, or the error of the first entry that has no id.
pub open spec fn entry_articles(items: Seq<JsonView>, since: int) -> Result<
    Seq<ArticleView>,
    GreaderErrorView,
>
    decreases items.len(),
{
    if items.len() == 0 {
        Ok(Seq::empty())
    } else {
        match entry_articles(items.drop_last(), since) {
            Err(e) => Err(e),
            Ok(before) => match entry_id(items.last()) {
                Err(e) => Err(e),
                Ok(id) => if entry_time(items.last()) < since {
                    Ok(before)
                } else {
                    Ok(before.push(entry_article(items.last(), id)))
                },
            },
        }
    }
}

pub open spec fn by_date() -> spec_fn(ArticleView) -> int {
    |a: ArticleView| a.published
}

/// What a reply to the request for articles gives.
pub open spec fn fetched(reply: ReplyView, since: int) -> Result<
    Seq<ArticleView>,
    GreaderErrorView,
> {
    match reply.readable() {
        Err(e) => Err(GreaderErrorView::Reply(e)),
        Ok(JsonView::List(items)) => match entry_articles(items, since) {
            Err(e) => Err(e),
            Ok(articles) => Ok(ordering::largest_first(articles, by_date())),
        },
        Ok(_) => Err(GreaderErrorView::Reply(ReplyErrorView::Format)),
    }
}

fn text_under_or(document: Option<&Json>, key: &str, default: &str) -> (r: String)
    ensures
        r@ == text_under(
            match document {
                Some(j) => Some(j@),
                None => None,
            },
            key@,
            default@,
        ),
{
    match document {
        Some(j) => match j.get_str(key) {
            Some(s) => s.to_owned(),
            None => default.to_owned(),
        },
        None => default.to_owned(),
    }
}

fn first_element<'a>(item: &'a Json, key: &str) -> (r: Option<&'a Json>)
    ensures
        match r {
            Some(j) => first_of(item@, key@) == Some(j@),
            None => first_of(item@, key@) is None,
        },
{
    match item.get(key) {
        Some(j) => j.at(0),
        None => None,
    }
}

/// The id of an entry, or why it has none.
fn parse_entry_id(item: &Json) -> (r: Result<u64, GreaderError>)
    ensures
        match r {
            Ok(id) => entry_id(item@) == Ok::<u64, GreaderErrorView>(id),
            Err(e) => entry_id(item@) == Err::<u64, GreaderErrorView>(e@),
        },
{
    match item.get_str("id") {
        None => Err(GreaderError::MissingId),
        Some(id) => {
            let pieces = text::split(id, '/');
            let last = &pieces[pieces.len() - 1];
            assert(last@ == text::texts(pieces@).last());
            match text::parse_unsigned(last.as_str(), u64::MAX) {
                Some(n) => Ok(n),
                None => Err(GreaderError::BadId { text: id.to_owned() }),
            }
        },
    }
}

/// The publication time of an entry.
fn parse_entry_time(item: &Json) -> (r: i64)
    ensures
        r == entry_time(item@),
{
    match item.get("ts") {
        Some(j) => match j.as_i64() {
            Some(n) => n,
            None => 0,
        },
        None => 0,
    }
}

/// The article that an entry is about.
fn parse_entry(item: &Json, id: u64, published: i64) -> (r: Article)
    requires
        published == entry_time(item@),
    ensures
        r@ == entry_article(item@, id),
{
    proof {
        reveal_strlit("");
        assert(""@ =~= Seq::<char>::empty());
    }
    let feed = first_element(item, "streamIds");
    Article {
        id,
        title: text_under_or(Some(item), "title", ""),
        author: match item.get_str("author") {
            Some(s) => Some(s.to_owned()),
            None => None,
        },
        content: text_under_or(Some(item), "summary", ""),
        url: text_under_or(first_element(item, "canonical"), "href", ""),
        feed_title: text_under_or(feed, "title", "Unknown Feed"),
        feed_url: text_under_or(feed, "url", ""),
        language: None,
        published,
    }
}

proof fn lemma_entry_error_stays(items: Seq<JsonView>, since: int, n: int)
    requires
        0 <= n <= items.len(),
        entry_articles(items.take(n), since) is Err,
    ensures
        entry_articles(items, since) == entry_articles(items.take(n), since),
    decreases items.len(),
{
    if n < items.len() {
        assert(items.drop_last().take(n) == items.take(n));
        lemma_entry_error_stays(items.drop_last(), since, n);
    } else {
        assert(items.take(n) == items);
    }
}

/// The request for all unread entries of a user.
pub open spec fn fetch_post(
    config: FreshRSSConfigView,
    username: Seq<char>,
    password: Option<Seq<char>>,
) -> PostView {
    greader_post(
        config,
        username,
        password,
        "cmd=reader/api/0/stream/contents&stream=feed/"@,
    )
}

/// The request that marks an article read.
pub open spec fn mark_post(
    config: FreshRSSConfigView,
    username: Seq<char>,
    password: Option<Seq<char>>,
    id: u64,
) -> PostView {
    greader_post(
        config,
        username,
        password,
        "cmd=reader/api/0/edit/mark-as-read&i="@ + text::decimal(id as nat),
    )
}

/// A request of a user with the given command.
pub open spec fn greader_post(
    config: FreshRSSConfigView,
    username: Seq<char>,
    password: Option<Seq<char>>,
    command: Seq<char>,
) -> PostView {
    PostView {
        url: config.url + "/api/greader.php"@,
        basic_auth: Some((username, freshrss_fever::resolved_password(config, password))),
        headers: seq![("Content-Type"@, "application/x-www-form-urlencoded"@)],
        body: BodyView::Text(command),
    }
}

/// A client of this API of one FreshRSS installation.
#[derive(Debug)]
pub struct FreshRSSClient {
    pub config: FreshRSSConfig,
}

impl FreshRSSClient {
    pub fn new(config: FreshRSSConfig) -> (r: Self)
        ensures
            r.config == config,
    {
        FreshRSSClient { config }
    }

    fn post(&self, username: &str, password: Option<&str>, command: String) -> (r: Post)
        ensures
            r@ == greader_post(self.config@, username@, text::text_of_str(password), command@),
    {
        let password = match password {
            Some(p) => p.to_owned(),
            None => self.config.api_password.clone(),
        };
        let headers: Vec<(String, String)> = vec![
            ("Content-Type".to_owned(), "application/x-www-form-urlencoded".to_owned()),
        ];
        assert(http::pairs(headers@) =~= seq![
            ("Content-Type"@, "application/x-www-form-urlencoded"@),
        ]);
        Post {
            url: self.config.url.clone().concat("/api/greader.php"),
            basic_auth: Some((username.to_owned(), password)),
            headers,
            body: Body::Text(command),
        }
    }

    /// The request for all unread entries of a user.
    pub fn fetch_request(&self, username: &str, password: Option<&str>) -> (r: Post)
        ensures
            r@ == fetch_post(self.config@, username@, text::text_of_str(password)),
    {
        self.post(
            username,
            password,
            "cmd=reader/api/0/stream/contents&stream=feed/".to_owned(),
        )
    }

    /// The articles that the reply to the request for unread entries gives: those published
    /// at `since` (Unix seconds) or later, newest first.
    pub fn fetch_unread_articles(&self, reply: &Reply, since: i64) -> (r: Result<
        Vec<Article>,
        GreaderError,
    >)
        ensures
            match r {
                Ok(articles) => fetched(reply@, since as int) == Ok::<
                    Seq<ArticleView>,
                    GreaderErrorView,
                >(ordering::views(articles@)),
                Err(e) => fetched(reply@, since as int) == Err::<
                    Seq<ArticleView>,
                    GreaderErrorView,
                >(e@),
            },
    {
        let document = match reply.read() {
            Ok(j) => j,
            Err(e) => {
                return Err(GreaderError::Reply(e));
            },
        };
        let entries = match document {
            Json::List(entries) => entries,
            _ => {
                return Err(GreaderError::Reply(ReplyError::Format));
            },
        };
        let ghost items = document@->List_0;
        let mut articles: Vec<Article> = Vec::new();
        let mut i: usize = 0;
        assert(items.take(0) == Seq::<JsonView>::empty());
        assert(ordering::views(articles@) == Seq::<ArticleView>::empty());
        while i < entries.len()
            invariant
                i <= entries@.len(),
                items.len() == entries@.len(),
                forall|k: int| 0 <= k < items.len() ==> #[trigger] items[k] == entries@[k]@,
                reply@.readable() == Ok::<JsonView, ReplyErrorView>(JsonView::List(items)),
                entry_articles(items.take(i as int), since as int) == Ok::<
                    Seq<ArticleView>,
                    GreaderErrorView,
                >(ordering::views(articles@)),
            decreases entries@.len() - i,
        {
            let item = &entries[i];
            let ghost next = items.take(i + 1);
            let ghost before = articles@;
            assert(next.drop_last() == items.take(i as int));
            assert(next.last() == item@);
            let id = match parse_entry_id(item) {
                Ok(id) => id,
                Err(e) => {
                    proof {
                        lemma_entry_error_stays(items, since as int, i + 1);
                    }
                    return Err(e);
                },
            };
            let published = parse_entry_time(item);
            if published >= since {
                articles.push(parse_entry(item, id, published));
                assert(ordering::views(articles@) == ordering::views(before).push(
                    entry_article(item@, id),
                ));
            }
            i = i + 1;
        }
        assert(items.take(i as int) == items);
        assert(by_date() =~= |e: ArticleView| <Article as ordering::Ranked>::rank_of(e));
        Ok(ordering::sort_largest_first(articles))
    }

    /// Starts marking articles of a user read, one by one.
    pub fn mark_as_read(
        &self,
        username: &str,
        password: Option<&str>,
        article_ids: Vec<u64>,
    ) -> (r: GreaderMark)
        ensures
            r@ == mark_start(
                username@,
                freshrss_fever::resolved_password(self.config@, text::text_of_str(password)),
                article_ids@,
            ),
            r@.wf(),
    {
        let password = match password {
            Some(p) => p.to_owned(),
            None => self.config.api_password.clone(),
        };
        GreaderMark {
            username: username.to_owned(),
            password,
            ids: article_ids,
            next: 0,
            error: None,
        }
    }

    /// The request that the marking of articles makes next, while there is one.
    pub fn mark_request(&self, mark: &GreaderMark) -> (r: Option<Post>)
        ensures
            match (r, mark@.current()) {
                (Some(post), Some(id)) => post@ == mark_post(
                    self.config@,
                    mark.username@,
                    Some(mark.password@),
                    id,
                ),
                (None, None) => true,
                _ => false,
            },
    {
        if mark.error.is_some() || mark.next >= mark.ids.len() {
            return None;
        }
        let command = "cmd=reader/api/0/edit/mark-as-read&i=".to_owned().concat(
            text::decimal_string(mark.ids[mark.next]).as_str(),
        );
        Some(self.post(mark.username.as_str(), Some(mark.password.as_str()), command))
    }
}

/// What came of a request to mark an article.
#[derive(Debug)]
pub enum MarkReply {
    /// The server's status.
    Status(HttpStatus),
    /// The request did not get through, with what is reported of it.
    Unsent(String),
}

pub enum MarkReplyView {
    Status { code: u16, status: Seq<char> },
    Unsent(Seq<char>),
}

impl View for MarkReply {
    type V = MarkReplyView;

    open spec fn view(&self) -> MarkReplyView {
        match self {
            MarkReply::Status(status) => MarkReplyView::Status {
                code: status.code,
                status: status.text@,
            },
            MarkReply::Unsent(message) => MarkReplyView::Unsent(message@),
        }
    }
}

impl MarkReplyView {
    /// Whether the server marked the article.
    pub open spec fn marked(self) -> bool {
        self matches MarkReplyView::Status { code, .. } && http::success(code)
    }

    /// The error of a reply that does not say that the article `id` is marked.
    pub open spec fn error(self, id: u64) -> GreaderErrorView {
        match self {
            MarkReplyView::Status { status, .. } => GreaderErrorView::Mark { id, status },
            MarkReplyView::Unsent(message) => GreaderErrorView::Unsent { message },
        }
    }
}

/// What marking articles read has done so far: the articles `ids[..next]` are marked.
#[derive(Debug)]
pub struct GreaderMark {
    pub username: String,
    pub password: String,
    pub ids: Vec<u64>,
    pub next: usize,
    /// The error that ended the marking.
    pub error: Option<GreaderError>,
}

#[verifier::ext_equal]
pub struct GreaderMarkView {
    pub username: Seq<char>,
    pub password: Seq<char>,
    pub ids: Seq<u64>,
    pub next: int,
    pub error: Option<GreaderErrorView>,
}

impl View for GreaderMark {
    type V = GreaderMarkView;

    open spec fn view(&self) -> GreaderMarkView {
        GreaderMarkView {
            username: self.username@,
            password: self.password@,
            ids: self.ids@,
            next: self.next as int,
            error: match self.error {
                Some(e) => Some(e@),
                None => None,
            },
        }
    }
}

/// The marking of articles, before its first request.
pub open spec fn mark_start(
    username: Seq<char>,
    password: Seq<char>,
    ids: Seq<u64>,
) -> GreaderMarkView {
    GreaderMarkView { username, password, ids, next: 0, error: None }
}

impl GreaderMarkView {
    pub open spec fn wf(self) -> bool {
        0 <= self.next <= self.ids.len()
    }

    /// The article that the next request marks, while there is one.
    pub open spec fn current(self) -> Option<u64> {
        if self.error is None && self.next < self.ids.len() {
            Some(self.ids[self.next])
        } else {
            None
        }
    }

    /// The marking after a reply. The first reply that does not say that its article is
    /// marked ends it.
    pub open spec fn after(self, reply: MarkReplyView) -> GreaderMarkView {
        match self.current() {
            None => self,
            Some(id) => if reply.marked() {
                GreaderMarkView { next: self.next + 1, ..self }
            } else {
                GreaderMarkView { error: Some(reply.error(id)), ..self }
            },
        }
    }

    /// The marking after a sequence of replies.
    pub open spec fn run(self, replies: Seq<MarkReplyView>) -> GreaderMarkView
        decreases replies.len(),
    {
        if replies.len() == 0 {
            self
        } else {
            self.run(replies.drop_last()).after(replies.last())
        }
    }

    /// How the marking ended, once no request is left.
    pub open spec fn result(self) -> Option<Result<(), GreaderErrorView>> {
        if self.current() is Some {
            None
        } else {
            match self.error {
                Some(e) => Some(Err(e)),
                None => Some(Ok(())),
            }
        }
    }
}

impl GreaderMark {
    /// The marking after a reply. The first reply that does not say that its article is
    /// marked ends it.
    pub fn after(self, reply: MarkReply) -> (r: GreaderMark)
        requires
            self@.wf(),
        ensures
            r@ == self@.after(reply@),
            r@.wf(),
    {
        let mut r = self;
        if r.error.is_some() || r.next >= r.ids.len() {
            return r;
        }
        let id = r.ids[r.next];
        match reply {
            MarkReply::Status(status) => {
                if status.is_success() {
                    r.next = r.next + 1;
                } else {
                    r.error = Some(GreaderError::Mark { id, status: status.text });
                }
            },
            MarkReply::Unsent(message) => {
                r.error = Some(GreaderError::Unsent { message });
            },
        }
        r
    }

    /// How the marking ended, once no request is left.
    pub fn result(self) -> (r: Option<Result<(), GreaderError>>)
        ensures
            match r {
                Some(Ok(())) => self@.result() == Some(Ok::<(), GreaderErrorView>(())),
                Some(Err(e)) => self@.result() == Some(Err::<(), GreaderErrorView>(e@)),
                None => self@.result() is None,
            },
    {
        match self.error {
            Some(e) => Some(Err(e)),
            None => if self.next < self.ids.len() {
                None
            } else {
                Some(Ok(()))
            },
        }
    }
}

/// Articles are marked one by one in their order: while every reply so far says that its
/// article is marked, the next request is for the next article.
pub proof fn law_marks_go_in_order(start: GreaderMarkView, replies: Seq<MarkReplyView>)
    requires
        start.next == 0,
        start.error is None,
        replies.len() <= start.ids.len(),
        forall|i: int| 0 <= i < replies.len() ==> (#[trigger] replies[i]).marked(),
    ensures
        start.run(replies) == (GreaderMarkView { next: replies.len() as int, ..start }),
        replies.len() < start.ids.len() ==> start.run(replies).current() == Some(
            start.ids[replies.len() as int],
        ),
    decreases replies.len(),
{
    if replies.len() > 0 {
        let shorter = replies.drop_last();
        assert forall|i: int| 0 <= i < shorter.len() implies (#[trigger] shorter[i]).marked() by {
            assert(replies[i].marked());
        }
        law_marks_go_in_order(start, shorter);
        assert(replies[replies.len() - 1].marked());
    }
}

/// Nothing is sent after a refusal: once a request failed there is no other, whatever comes
/// later, and the marking has failed with the error of that request.
pub proof fn law_no_mark_after_a_refusal(
    mark: GreaderMarkView,
    refusal: MarkReplyView,
    later: Seq<MarkReplyView>,
)
    requires
        mark.current() is Some,
        !refusal.marked(),
    ensures
        ({
            let ended = mark.after(refusal).run(later);
            &&& ended == mark.after(refusal)
            &&& ended.current() is None
            &&& ended.result() == Some(
                Err::<(), GreaderErrorView>(refusal.error(mark.current()->0)),
            )
        }),
    decreases later.len(),
{
    if later.len() > 0 {
        law_no_mark_after_a_refusal(mark, refusal, later.drop_last());
    }
}

/// Marking succeeds just where the server marked every article; without articles it succeeds
/// without a request.
pub proof fn law_marking_succeeds_just_by_all(
    start: GreaderMarkView,
    replies: Seq<MarkReplyView>,
)
    requires
        start.next == 0,
        start.error is None,
        replies.len() == start.ids.len(),
    ensures
        start.run(replies).result() is Some,
        start.run(replies).result() == Some(Ok::<(), GreaderErrorView>(())) <==> (forall|i: int|
            0 <= i < replies.len() ==> (#[trigger] replies[i]).marked()),
{
    lemma_marked_so_far(start, replies);
    if forall|i: int| 0 <= i < replies.len() ==> (#[trigger] replies[i]).marked() {
        law_marks_go_in_order(start, replies);
    }
}

proof fn lemma_marked_so_far(start: GreaderMarkView, replies: Seq<MarkReplyView>)
    requires
        start.next == 0,
        start.error is None,
        replies.len() <= start.ids.len(),
    ensures
        ({
            let mark = start.run(replies);
            &&& mark.ids == start.ids
            &&& mark.error is None ==> mark.next == replies.len() && (forall|i: int|
                0 <= i < replies.len() ==> (#[trigger] replies[i]).marked())
        }),
    decreases replies.len(),
{
    if replies.len() > 0 {
        let shorter = replies.drop_last();
        lemma_marked_so_far(start, shorter);
        let mark = start.run(replies);
        if mark.error is None {
            assert forall|i: int| 0 <= i < replies.len() implies (#[trigger] replies[i]).marked() by {
                if i < shorter.len() {
                    assert(shorter[i] == replies[i]);
                }
            }
        }
    }
}

/// Articles that a reply gives were published at `since` or later and come newest first.
pub proof fn law_fetched_in_window(reply: ReplyView, since: int)
    ensures
        fetched(reply, since) matches Ok(articles) ==> {
            &&& ordering::descending(articles, by_date())
            &&& forall|i: int| 0 <= i < articles.len() ==> (#[trigger] articles[i]).published >= since
        },
{
    broadcast use vstd::seq_lib::group_to_multiset_ensures;

    if let Ok(JsonView::List(items)) = reply.readable() {
        if let Ok(unsorted) = entry_articles(items, since) {
            lemma_entries_in_window(items, since);
            ordering::law_largest_first_sorts(unsorted, by_date());
            let sorted = ordering::largest_first(unsorted, by_date());
            assert forall|i: int| 0 <= i < sorted.len() implies (#[trigger] sorted[i]).published
                >= since by {
                assert(sorted.contains(sorted[i]));
                assert(unsorted.to_multiset().contains(sorted[i]));
                assert(unsorted.contains(sorted[i]));
            }
        }
    }
}

proof fn lemma_entries_in_window(items: Seq<JsonView>, since: int)
    ensures
        entry_articles(items, since) matches Ok(articles) ==> forall|i: int|
            0 <= i < articles.len() ==> (#[trigger] articles[i]).published >= since,
    decreases items.len(),
{
    if items.len() > 0 {
        lemma_entries_in_window(items.drop_last(), since);
    }
}

} // verus!
