//! The digest of one user, from the unread articles to the marks that they are read.
//!
//! A digest is a sequence of outside actions, each chosen by what came of those before it.

use crate::config::{UserConfig, UserConfigView};
use crate::digest;
use crate::freshrss_fever::{Article, ArticleView};
use crate::json::{Json, JsonView};
use crate::llm::{ArticleSummary, SummaryView};
use crate::ordering;
use crate::text;
use vstd::prelude::*;
use vstd::string::*;

verus! {

/// Seconds before a run within which an article must be published.
pub const WINDOW_SECS: i64 = 86400;

/// The recent articles that are told to the language model with each article.
pub const RECENT_LIMIT: usize = 5;

/// The stored articles that are told to the language model with the whole digest.
pub const TODAY_LIMIT: usize = 5;

/// How often marking the articles read is tried.
pub const MARK_ATTEMPTS: usize = 3;

/// What stands in for the digest's text where the language model gives none.
pub const NO_DIGEST: &'static str = "Unable to generate overall summary.";

/// How a digest ended.
#[derive(Debug)]
pub enum Outcome {
    NothingUnread,
    /// The mail is sent and its articles are marked read.
    Sent,
    /// The mail is sent, but its articles could not be marked read.
    SentUnmarked { message: String },
    /// There is no mail, and no article is marked read.
    Failed { message: String },
}

#[verifier::ext_equal]
pub enum OutcomeView {
    NothingUnread,
    Sent,
    SentUnmarked { message: Seq<char> },
    Failed { message: Seq<char> },
}

impl View for Outcome {
    type V = OutcomeView;

    open spec fn view(&self) -> OutcomeView {
        match self {
            Outcome::NothingUnread => OutcomeView::NothingUnread,
            Outcome::Sent => OutcomeView::Sent,
            Outcome::SentUnmarked { message } => OutcomeView::SentUnmarked { message: message@ },
            Outcome::Failed { message } => OutcomeView::Failed { message: message@ },
        }
    }
}

/// What a digest does next.
#[derive(Debug)]
pub enum Stage {
    Fetch,
    /// Find what is stored of the article that is next.
    Lookup,
    /// Store it, with the summary that it has from an earlier digest.
    Upsert { known: Option<String> },
    /// Find articles related to it.
    Related,
    /// Find recent articles.
    Recent { related: Vec<Json> },
    Summarize { context: String },
    /// Detect the language of its summary.
    Detect { summary: String },
    Translate { summary: String, source: String },
    /// Store its summary.
    Store { summary: String, translated: Option<String> },
    /// Find what is stored of the day's events.
    Today,
    Overall { today_rag: String },
    Send { body: String },
    Mark { attempts: usize },
    Finished { outcome: Outcome },
}

#[verifier::ext_equal]
pub enum StageView {
    Fetch,
    Lookup,
    Upsert { known: Option<Seq<char>> },
    Related,
    Recent { related: Seq<JsonView> },
    Summarize { context: Seq<char> },
    Detect { summary: Seq<char> },
    Translate { summary: Seq<char>, source: Seq<char> },
    Store { summary: Seq<char>, translated: Option<Seq<char>> },
    Today,
    Overall { today_rag: Seq<char> },
    Send { body: Seq<char> },
    Mark { attempts: int },
    Finished { outcome: OutcomeView },
}

impl View for Stage {
    type V = StageView;

    open spec fn view(&self) -> StageView {
        match self {
            Stage::Fetch => StageView::Fetch,
            Stage::Lookup => StageView::Lookup,
            Stage::Upsert { known } => StageView::Upsert { known: text::text_of(*known) },
            Stage::Related => StageView::Related,
            Stage::Recent { related } => StageView::Recent { related: ordering::views(related@) },
            Stage::Summarize { context } => StageView::Summarize { context: context@ },
            Stage::Detect { summary } => StageView::Detect { summary: summary@ },
            Stage::Translate { summary, source } => StageView::Translate {
                summary: summary@,
                source: source@,
            },
            Stage::Store { summary, translated } => StageView::Store {
                summary: summary@,
                translated: text::text_of(*translated),
            },
            Stage::Today => StageView::Today,
            Stage::Overall { today_rag } => StageView::Overall { today_rag: today_rag@ },
            Stage::Send { body } => StageView::Send { body: body@ },
            Stage::Mark { attempts } => StageView::Mark { attempts: *attempts as int },
            Stage::Finished { outcome } => StageView::Finished { outcome: outcome@ },
        }
    }
}

/// The digest of one user. The articles before `next` are summarized.
#[derive(Debug)]
pub struct UserDigest {
    pub user: UserConfig,
    /// The collection of the vector store that holds the user's articles.
    pub collection: String,
    /// The date of the digest.
    pub date: String,
    /// Articles published before (Unix seconds) are left out.
    pub since: i64,
    pub top_k: usize,
    pub context_window_days: i64,
    pub articles: Vec<Article>,
    pub next: usize,
    pub summaries: Vec<ArticleSummary>,
    pub stage: Stage,
}

#[verifier::ext_equal]
pub struct UserDigestView {
    pub user: UserConfigView,
    pub collection: Seq<char>,
    pub date: Seq<char>,
    pub since: int,
    pub top_k: int,
    pub context_window_days: int,
    pub articles: Seq<ArticleView>,
    pub next: int,
    pub summaries: Seq<SummaryView>,
    pub stage: StageView,
}

impl View for UserDigest {
    type V = UserDigestView;

    open spec fn view(&self) -> UserDigestView {
        UserDigestView {
            user: self.user@,
            collection: self.collection@,
            date: self.date@,
            since: self.since as int,
            top_k: self.top_k as int,
            context_window_days: self.context_window_days as int,
            articles: ordering::views(self.articles@),
            next: self.next as int,
            summaries: ordering::views(self.summaries@),
            stage: self.stage@,
        }
    }
}

/// An outside action.
#[derive(Debug)]
pub enum DigestAction<'a> {
    /// Load the user's unread articles.
    Fetch { username: &'a str, api_password: Option<&'a str>, since: i64 },
    /// Find what is stored of an article in a collection.
    Lookup { collection: &'a str, id: u64 },
    /// Store an article for the digest of a day, with the summary that it has already.
    Upsert {
        collection: &'a str,
        article: &'a Article,
        known: Option<String>,
        digest_date: &'a str,
    },
    /// Find stored articles related to a text.
    Search { collection: &'a str, query: String, top_k: usize },
    /// Find stored articles of the last days.
    Recent { collection: &'a str, days: i64, limit: usize },
    /// Ask the language model for an article's summary.
    Summarize { rag_context: &'a str, title: &'a str, content: &'a str },
    /// Detect the language of a text.
    Detect { text: &'a str },
    Translate { text: &'a str, source: &'a str, target: &'a str },
    /// Write a summary to the stored article.
    Store { collection: &'a str, digest_date: &'a str, summary: ArticleSummary },
    /// Ask the language model for the digest.
    Overall {
        today_rag: &'a str,
        summaries: &'a Vec<ArticleSummary>,
        date: &'a str,
        target_language: Option<&'a String>,
    },
    Send { subject: String, body: &'a str, recipient: &'a str },
    /// Mark articles read.
    Mark { username: &'a str, api_password: Option<&'a str>, ids: Vec<u64> },
}

#[verifier::ext_equal]
pub enum DigestActionView {
    Fetch { username: Seq<char>, api_password: Option<Seq<char>>, since: int },
    Lookup { collection: Seq<char>, id: u64 },
    Upsert {
        collection: Seq<char>,
        article: ArticleView,
        known: Option<Seq<char>>,
        digest_date: Seq<char>,
    },
    Search { collection: Seq<char>, query: Seq<char>, top_k: int },
    Recent { collection: Seq<char>, days: int, limit: int },
    Summarize { rag_context: Seq<char>, title: Seq<char>, content: Seq<char> },
    Detect { text: Seq<char> },
    Translate { text: Seq<char>, source: Seq<char>, target: Seq<char> },
    Store { collection: Seq<char>, digest_date: Seq<char>, summary: SummaryView },
    Overall {
        today_rag: Seq<char>,
        summaries: Seq<SummaryView>,
        date: Seq<char>,
        target_language: Option<Seq<char>>,
    },
    Send { subject: Seq<char>, body: Seq<char>, recipient: Seq<char> },
    Mark { username: Seq<char>, api_password: Option<Seq<char>>, ids: Seq<u64> },
}

impl<'a> View for DigestAction<'a> {
    type V = DigestActionView;

    open spec fn view(&self) -> DigestActionView {
        match self {
            DigestAction::Fetch { username, api_password, since } => DigestActionView::Fetch {
                username: username@,
                api_password: text::text_of_str(*api_password),
                since: *since as int,
            },
            DigestAction::Lookup { collection, id } => DigestActionView::Lookup {
                collection: collection@,
                id: *id,
            },
            DigestAction::Upsert { collection, article, known, digest_date } => DigestActionView::Upsert {
                collection: collection@,
                article: article@,
                known: text::text_of(*known),
                digest_date: digest_date@,
            },
            DigestAction::Search { collection, query, top_k } => DigestActionView::Search {
                collection: collection@,
                query: query@,
                top_k: *top_k as int,
            },
            DigestAction::Recent { collection, days, limit } => DigestActionView::Recent {
                collection: collection@,
                days: *days as int,
                limit: *limit as int,
            },
            DigestAction::Summarize { rag_context, title, content } => DigestActionView::Summarize {
                rag_context: rag_context@,
                title: title@,
                content: content@,
            },
            DigestAction::Detect { text } => DigestActionView::Detect { text: text@ },
            DigestAction::Translate { text, source, target } => DigestActionView::Translate {
                text: text@,
                source: source@,
                target: target@,
            },
            DigestAction::Store { collection, digest_date, summary } => DigestActionView::Store {
                collection: collection@,
                digest_date: digest_date@,
                summary: summary@,
            },
            DigestAction::Overall { today_rag, summaries, date, target_language } => {
                DigestActionView::Overall {
                    today_rag: today_rag@,
                    summaries: ordering::views(summaries@),
                    date: date@,
                    target_language: match target_language {
                        Some(t) => Some(t@),
                        None => None,
                    },
                }
            },
            DigestAction::Send { subject, body, recipient } => DigestActionView::Send {
                subject: subject@,
                body: body@,
                recipient: recipient@,
            },
            DigestAction::Mark { username, api_password, ids } => DigestActionView::Mark {
                username: username@,
                api_password: text::text_of_str(*api_password),
                ids: ids@,
            },
        }
    }
}

/// What came of an action.
#[derive(Debug)]
pub enum DigestEvent {
    /// The unread articles.
    Fetched(Vec<Article>),
    /// The stored articles that were found.
    Found(Vec<Json>),
    /// A summary, a language, a translation or the digest's text.
    Answer(String),
    Done,
    /// The action failed, with what is reported of it.
    Failed(String),
}

#[verifier::ext_equal]
pub enum DigestEventView {
    Fetched(Seq<ArticleView>),
    Found(Seq<JsonView>),
    Answer(Seq<char>),
    Done,
    Failed(Seq<char>),
}

impl View for DigestEvent {
    type V = DigestEventView;

    open spec fn view(&self) -> DigestEventView {
        match self {
            DigestEvent::Fetched(articles) => DigestEventView::Fetched(
                ordering::views(articles@),
            ),
            DigestEvent::Found(found) => DigestEventView::Found(ordering::views(found@)),
            DigestEvent::Answer(answer) => DigestEventView::Answer(answer@),
            DigestEvent::Done => DigestEventView::Done,
            DigestEvent::Failed(message) => DigestEventView::Failed(message@),
        }
    }
}

/// The text that finds what is stored of a day's events.
pub open spec fn today_query(date: Seq<char>) -> Seq<char> {
    date + " events predictions reminders"@
}

/// The subject of a digest's mail.
pub open spec fn mail_subject(date: Seq<char>) -> Seq<char> {
    "📰 Daily News Digest - "@ + date
}

/// The summary that an earlier digest gave an article, in what is stored of it. The title
/// stands in for a summary that could not be had, and is none.
pub open spec fn known_summary(found: Seq<JsonView>, title: Seq<char>) -> Option<Seq<char>> {
    if found.len() == 0 {
        None
    } else {
        match found[0].member_text("summary"@) {
            Some(s) => if s.len() > 0 && s != title {
                Some(s)
            } else {
                None
            },
            None => None,
        }
    }
}

/// The ids of articles.
pub open spec fn ids_of(articles: Seq<ArticleView>) -> Seq<u64> {
    Seq::new(articles.len(), |i: int| articles[i].id)
}

/// Where there is a summary of the article at `url`.
pub open spec fn place_of(summaries: Seq<SummaryView>, url: Seq<char>) -> Option<int>
    decreases summaries.len(),
{
    if summaries.len() == 0 {
        None
    } else if summaries.last().url == url {
        Some(summaries.len() - 1)
    } else {
        place_of(summaries.drop_last(), url)
    }
}

/// The summaries with one more: it takes the place of an earlier one of the same address.
pub open spec fn with_summary(summaries: Seq<SummaryView>, s: SummaryView) -> Seq<SummaryView> {
    match place_of(summaries, s.url) {
        Some(i) => summaries.update(i, s),
        None => summaries.push(s),
    }
}

impl UserDigestView {
    /// The article that is next.
    pub open spec fn current(self) -> ArticleView {
        self.articles[self.next]
    }

    /// Whether the stage is one of those that handle one article.
    pub open spec fn at_article(self) -> bool {
        match self.stage {
            StageView::Lookup => true,
            StageView::Upsert { .. } => true,
            StageView::Related => true,
            StageView::Recent { .. } => true,
            StageView::Summarize { .. } => true,
            StageView::Detect { .. } => true,
            StageView::Translate { .. } => true,
            StageView::Store { .. } => true,
            _ => false,
        }
    }

    /// Whether there is an article for what is next, a language to translate to, and a try
    /// left to mark articles.
    pub open spec fn wf(self) -> bool {
        &&& 0 <= self.next <= self.articles.len()
        &&& self.at_article() ==> self.next < self.articles.len()
        &&& self.stage is Detect || self.stage is Translate ==> self.user.target_language is Some
        &&& self.stage matches StageView::Mark { attempts } ==> 0 <= attempts < MARK_ATTEMPTS
    }

    /// What is to be done next, while there is anything.
    pub open spec fn action(self) -> Option<DigestActionView> {
        let article = self.current();
        match self.stage {
            StageView::Fetch => Some(
                DigestActionView::Fetch {
                    username: self.user.freshrss_username,
                    api_password: self.user.freshrss_api_password,
                    since: self.since,
                },
            ),
            StageView::Lookup => Some(
                DigestActionView::Lookup { collection: self.collection, id: article.id },
            ),
            StageView::Upsert { known } => Some(
                DigestActionView::Upsert {
                    collection: self.collection,
                    article,
                    known,
                    digest_date: self.date,
                },
            ),
            StageView::Related => Some(
                DigestActionView::Search {
                    collection: self.collection,
                    query: article.title,
                    top_k: self.top_k,
                },
            ),
            StageView::Recent { .. } => Some(
                DigestActionView::Recent {
                    collection: self.collection,
                    days: self.context_window_days,
                    limit: RECENT_LIMIT as int,
                },
            ),
            StageView::Summarize { context } => Some(
                DigestActionView::Summarize {
                    rag_context: context,
                    title: article.title,
                    content: article.content,
                },
            ),
            StageView::Detect { summary } => Some(DigestActionView::Detect { text: summary }),
            StageView::Translate { summary, source } => Some(
                DigestActionView::Translate {
                    text: summary,
                    source,
                    target: self.user.target_language->0,
                },
            ),
            StageView::Store { summary, translated } => Some(
                DigestActionView::Store {
                    collection: self.collection,
                    digest_date: self.date,
                    summary: SummaryView { url: article.url, summary, translated },
                },
            ),
            StageView::Today => Some(
                DigestActionView::Search {
                    collection: self.collection,
                    query: today_query(self.date),
                    top_k: TODAY_LIMIT as int,
                },
            ),
            StageView::Overall { today_rag } => Some(
                DigestActionView::Overall {
                    today_rag,
                    summaries: self.summaries,
                    date: self.date,
                    target_language: self.user.target_language,
                },
            ),
            StageView::Send { body } => Some(
                DigestActionView::Send {
                    subject: mail_subject(self.date),
                    body,
                    recipient: self.user.email,
                },
            ),
            StageView::Mark { .. } => Some(
                DigestActionView::Mark {
                    username: self.user.freshrss_username,
                    api_password: self.user.freshrss_api_password,
                    ids: ids_of(self.articles),
                },
            ),
            StageView::Finished { .. } => None,
        }
    }

    pub open spec fn at(self, stage: StageView) -> UserDigestView {
        UserDigestView { stage, ..self }
    }

    pub open spec fn finished(self, outcome: OutcomeView) -> UserDigestView {
        self.at(StageView::Finished { outcome })
    }

    /// The digest with a summary of the article that is next: for a user with a target
    /// language it is translated, from the article's language where that is known.
    pub open spec fn summarized(self, summary: Seq<char>) -> UserDigestView {
        match (self.user.target_language, self.current().language) {
            (None, _) => self.at(StageView::Store { summary, translated: None }),
            (Some(_), None) => self.at(StageView::Detect { summary }),
            (Some(_), Some(source)) => self.at(StageView::Translate { summary, source }),
        }
    }

    /// The digest with the article that is next stored: it is summarized only where no
    /// earlier digest did so.
    pub open spec fn upserted(self, known: Option<Seq<char>>) -> UserDigestView {
        match known {
            Some(summary) => self.summarized(summary),
            None => self.at(StageView::Related),
        }
    }

    /// The digest with the article that was next behind it.
    pub open spec fn stored(
        self,
        summary: Seq<char>,
        translated: Option<Seq<char>>,
    ) -> UserDigestView {
        UserDigestView {
            next: self.next + 1,
            summaries: with_summary(
                self.summaries,
                SummaryView { url: self.current().url, summary, translated },
            ),
            stage: if self.next + 1 < self.articles.len() {
                StageView::Lookup
            } else {
                StageView::Today
            },
            ..self
        }
    }

    /// The digest after an event. An event that does not answer the action changes nothing.
    pub open spec fn after(self, event: DigestEventView) -> UserDigestView {
        match (self.stage, event) {
            (StageView::Fetch, DigestEventView::Fetched(articles)) => if articles.len() == 0 {
                self.finished(OutcomeView::NothingUnread)
            } else {
                UserDigestView {
                    articles,
                    next: 0,
                    summaries: Seq::empty(),
                    stage: StageView::Lookup,
                    ..self
                }
            },
            (StageView::Fetch, DigestEventView::Failed(message)) => self.finished(
                OutcomeView::Failed { message },
            ),
            (StageView::Lookup, DigestEventView::Found(found)) => self.at(
                StageView::Upsert { known: known_summary(found, self.current().title) },
            ),
            (StageView::Lookup, DigestEventView::Failed(_)) => self.at(
                StageView::Upsert { known: None },
            ),
            (StageView::Upsert { known }, DigestEventView::Done) => self.upserted(known),
            (StageView::Upsert { known }, DigestEventView::Failed(_)) => self.upserted(known),
            (StageView::Related, DigestEventView::Found(related)) => self.at(
                StageView::Recent { related },
            ),
            (StageView::Related, DigestEventView::Failed(_)) => self.at(
                StageView::Recent { related: Seq::empty() },
            ),
            (StageView::Recent { related }, DigestEventView::Found(recent)) => self.at(
                StageView::Summarize { context: digest::combined_context(related, recent) },
            ),
            (StageView::Recent { related }, DigestEventView::Failed(_)) => self.at(
                StageView::Summarize { context: digest::combined_context(related, Seq::empty()) },
            ),
            (StageView::Summarize { .. }, DigestEventView::Answer(summary)) => self.summarized(
                summary,
            ),
            (StageView::Summarize { .. }, DigestEventView::Failed(_)) => self.summarized(
                self.current().title,
            ),
            (StageView::Detect { summary }, DigestEventView::Answer(source)) => self.at(
                StageView::Translate { summary, source },
            ),
            (StageView::Detect { summary }, DigestEventView::Failed(_)) => self.at(
                StageView::Store { summary, translated: None },
            ),
            (StageView::Translate { summary, .. }, DigestEventView::Answer(translation)) => self.at(
                StageView::Store { summary, translated: Some(translation) },
            ),
            (StageView::Translate { summary, .. }, DigestEventView::Failed(_)) => self.at(
                StageView::Store { summary, translated: None },
            ),
            (StageView::Store { summary, translated }, DigestEventView::Done) => self.stored(
                summary,
                translated,
            ),
            (StageView::Store { summary, translated }, DigestEventView::Failed(_)) => self.stored(
                summary,
                translated,
            ),
            (StageView::Today, DigestEventView::Found(found)) => self.at(
                StageView::Overall { today_rag: digest::paragraphs(found) },
            ),
            (StageView::Today, DigestEventView::Failed(_)) => self.at(
                StageView::Overall { today_rag: digest::paragraphs(Seq::empty()) },
            ),
            (StageView::Overall { .. }, DigestEventView::Answer(body)) => self.at(
                StageView::Send { body },
            ),
            (StageView::Overall { .. }, DigestEventView::Failed(_)) => self.at(
                StageView::Send { body: NO_DIGEST@ },
            ),
            (StageView::Send { .. }, DigestEventView::Done) => self.at(
                StageView::Mark { attempts: 0 },
            ),
            (StageView::Send { .. }, DigestEventView::Failed(message)) => self.finished(
                OutcomeView::Failed { message },
            ),
            (StageView::Mark { .. }, DigestEventView::Done) => self.finished(OutcomeView::Sent),
            (StageView::Mark { attempts }, DigestEventView::Failed(message)) => if attempts + 1
                < MARK_ATTEMPTS {
                self.at(StageView::Mark { attempts: attempts + 1 })
            } else {
                self.finished(OutcomeView::SentUnmarked { message })
            },
            _ => self,
        }
    }

    /// The digest after a sequence of events.
    pub open spec fn run(self, events: Seq<DigestEventView>) -> UserDigestView
        decreases events.len(),
    {
        if events.len() == 0 {
            self
        } else {
            self.run(events.drop_last()).after(events.last())
        }
    }
}

fn password_of(user: &UserConfig) -> (r: Option<&str>)
    ensures
        text::text_of_str(r) == user@.freshrss_api_password,
{
    match &user.freshrss_api_password {
        Some(p) => Some(p.as_str()),
        None => None,
    }
}

fn find_known(found: &Vec<Json>, title: &str) -> (r: Option<String>)
    ensures
        text::text_of(r) == known_summary(ordering::views(found@), title@),
{
    if found.len() == 0 {
        return None;
    }
    assert(ordering::views(found@)[0] == found@[0]@);
    match found[0].get_str("summary") {
        Some(s) => if s.is_empty() || text::same_text(s, title) {
            None
        } else {
            Some(s.to_owned())
        },
        None => None,
    }
}

fn article_ids(articles: &Vec<Article>) -> (r: Vec<u64>)
    ensures
        r@ == ids_of(ordering::views(articles@)),
{
    let ghost all = ids_of(ordering::views(articles@));
    let mut ids: Vec<u64> = Vec::new();
    for i in 0..articles.len()
        invariant
            all == ids_of(ordering::views(articles@)),
            ids@ == all.take(i as int),
    {
        ids.push(articles[i].id);
        assert(all.take(i + 1) =~= all.take(i as int).push(all[i as int]));
    }
    assert(all.take(all.len() as int) =~= all);
    ids
}

fn find_summary(summaries: &Vec<ArticleSummary>, url: &str) -> (r: Option<usize>)
    ensures
        match r {
            Some(i) => i < summaries@.len() && place_of(ordering::views(summaries@), url@) == Some(
                i as int,
            ),
            None => place_of(ordering::views(summaries@), url@) is None,
        },
{
    let ghost all = ordering::views(summaries@);
    let mut n: usize = summaries.len();
    assert(all.take(n as int) == all);
    while n > 0
        invariant
            n <= summaries@.len(),
            all == ordering::views(summaries@),
            place_of(all.take(n as int), url@) == place_of(all, url@),
        decreases n,
    {
        assert(all.take(n as int).drop_last() == all.take(n - 1));
        if text::same_text(summaries[n - 1].url.as_str(), url) {
            return Some(n - 1);
        }
        n = n - 1;
    }
    None
}

fn put_summary(summaries: Vec<ArticleSummary>, s: ArticleSummary) -> (r: Vec<ArticleSummary>)
    ensures
        ordering::views(r@) == with_summary(ordering::views(summaries@), s@),
{
    let ghost before = ordering::views(summaries@);
    let mut r = summaries;
    match find_summary(&r, s.url.as_str()) {
        Some(i) => {
            r[i] = s;
        },
        None => r.push(s),
    }
    assert(ordering::views(r@) =~= with_summary(before, s@));
    r
}

impl UserDigest {
    /// What is to be done next, while there is anything.
    pub fn action(&self) -> (r: Option<DigestAction<'_>>)
        requires
            self@.wf(),
        ensures
            match r {
                Some(a) => self@.action() == Some(a@),
                None => self@.action() is None,
            },
    {
        match &self.stage {
            Stage::Fetch => Some(
                DigestAction::Fetch {
                    username: self.user.freshrss_username.as_str(),
                    api_password: password_of(&self.user),
                    since: self.since,
                },
            ),
            Stage::Lookup => Some(
                DigestAction::Lookup {
                    collection: self.collection.as_str(),
                    id: self.articles[self.next].id,
                },
            ),
            Stage::Upsert { known } => Some(
                DigestAction::Upsert {
                    collection: self.collection.as_str(),
                    article: &self.articles[self.next],
                    known: text::copy_text(known),
                    digest_date: self.date.as_str(),
                },
            ),
            Stage::Related => Some(
                DigestAction::Search {
                    collection: self.collection.as_str(),
                    query: self.articles[self.next].title.clone(),
                    top_k: self.top_k,
                },
            ),
            Stage::Recent { .. } => Some(
                DigestAction::Recent {
                    collection: self.collection.as_str(),
                    days: self.context_window_days,
                    limit: RECENT_LIMIT,
                },
            ),
            Stage::Summarize { context } => Some(
                DigestAction::Summarize {
                    rag_context: context.as_str(),
                    title: self.articles[self.next].title.as_str(),
                    content: self.articles[self.next].content.as_str(),
                },
            ),
            Stage::Detect { summary } => Some(DigestAction::Detect { text: summary.as_str() }),
            Stage::Translate { summary, source } => match &self.user.target_language {
                Some(target) => Some(
                    DigestAction::Translate {
                        text: summary.as_str(),
                        source: source.as_str(),
                        target: target.as_str(),
                    },
                ),
                None => None,
            },
            Stage::Store { summary, translated } => Some(
                DigestAction::Store {
                    collection: self.collection.as_str(),
                    digest_date: self.date.as_str(),
                    summary: ArticleSummary {
                        url: self.articles[self.next].url.clone(),
                        summary: summary.clone(),
                        translated: text::copy_text(translated),
                    },
                },
            ),
            Stage::Today => Some(
                DigestAction::Search {
                    collection: self.collection.as_str(),
                    query: self.date.clone().concat(" events predictions reminders"),
                    top_k: TODAY_LIMIT,
                },
            ),
            Stage::Overall { today_rag } => Some(
                DigestAction::Overall {
                    today_rag: today_rag.as_str(),
                    summaries: &self.summaries,
                    date: self.date.as_str(),
                    target_language: self.user.target_language.as_ref(),
                },
            ),
            Stage::Send { body } => Some(
                DigestAction::Send {
                    subject: "📰 Daily News Digest - ".to_owned().concat(self.date.as_str()),
                    body: body.as_str(),
                    recipient: self.user.email.as_str(),
                },
            ),
            Stage::Mark { .. } => Some(
                DigestAction::Mark {
                    username: self.user.freshrss_username.as_str(),
                    api_password: password_of(&self.user),
                    ids: article_ids(&self.articles),
                },
            ),
            Stage::Finished { .. } => None,
        }
    }

    fn summarized(self, summary: String) -> (r: UserDigest)
        requires
            self@.next < self@.articles.len(),
        ensures
            r@ == self@.summarized(summary@),
            r@.wf(),
    {
        let mut r = self;
        let ghost before = r@;
        assert(r.articles@[r.next as int]@ == before.current());
        if r.user.target_language.is_none() {
            r.stage = Stage::Store { summary, translated: None };
            return r;
        }
        match text::copy_text(&r.articles[r.next].language) {
            Some(source) => {
                r.stage = Stage::Translate { summary, source };
            },
            None => {
                r.stage = Stage::Detect { summary };
            },
        }
        r
    }

    fn stored(self, summary: String, translated: Option<String>) -> (r: UserDigest)
        requires
            self@.next < self@.articles.len(),
        ensures
            r@ == self@.stored(summary@, text::text_of(translated)),
            r@.wf(),
    {
        let UserDigest {
            user,
            collection,
            date,
            since,
            top_k,
            context_window_days,
            articles,
            next,
            summaries,
            ..
        } = self;
        assert(next < articles.len());
        assert(articles@[next as int]@ == self@.current());
        let url = articles[next].url.clone();
        let summaries = put_summary(summaries, ArticleSummary { url, summary, translated });
        let stage = if next + 1 < articles.len() {
            Stage::Lookup
        } else {
            Stage::Today
        };
        UserDigest {
            user,
            collection,
            date,
            since,
            top_k,
            context_window_days,
            articles,
            next: next + 1,
            summaries,
            stage,
        }
    }

    fn upserted(self, known: Option<String>) -> (r: UserDigest)
        requires
            self@.next < self@.articles.len(),
        ensures
            r@ == self@.upserted(text::text_of(known)),
            r@.wf(),
    {
        match known {
            Some(summary) => self.summarized(summary),
            None => self.at(Stage::Related),
        }
    }

    fn at(self, stage: Stage) -> (r: UserDigest)
        ensures
            r@ == self@.at(stage@),
    {
        let mut r = self;
        r.stage = stage;
        r
    }

    fn take_stage(self) -> (r: (UserDigest, Stage))
        ensures
            r.1 == self.stage,
            r.0@ == self@.at(StageView::Fetch),
    {
        let mut r = self;
        let mut stage = Stage::Fetch;
        std::mem::swap(&mut r.stage, &mut stage);
        (r, stage)
    }

    /// The digest after an event. An event that does not answer the action changes nothing.
    pub fn after(self, event: DigestEvent) -> (r: UserDigest)
        requires
            self@.wf(),
        ensures
            r@ == self@.after(event@),
            r@.wf(),
    {
        let ghost before = self@;
        let (base, stage) = self.take_stage();
        assert(before =~= base@.at(stage@));
        match (stage, event) {
            (Stage::Fetch, DigestEvent::Fetched(articles)) => {
                if articles.len() == 0 {
                    return base.at(Stage::Finished { outcome: Outcome::NothingUnread });
                }
                let mut r = base;
                r.articles = articles;
                r.next = 0;
                r.summaries = Vec::new();
                assert(ordering::views(r.summaries@) =~= Seq::<SummaryView>::empty());
                r.stage = Stage::Lookup;
                r
            },
            (Stage::Fetch, DigestEvent::Failed(message)) => base.at(
                Stage::Finished { outcome: Outcome::Failed { message } },
            ),
            (Stage::Lookup, DigestEvent::Found(found)) => {
                assert(base.articles@[base.next as int]@ == before.current());
                let known = find_known(&found, base.articles[base.next].title.as_str());
                base.at(Stage::Upsert { known })
            },
            (Stage::Lookup, DigestEvent::Failed(_)) => base.at(Stage::Upsert { known: None }),
            (Stage::Upsert { known }, DigestEvent::Done) => base.upserted(known),
            (Stage::Upsert { known }, DigestEvent::Failed(_)) => base.upserted(known),
            (Stage::Related, DigestEvent::Found(related)) => base.at(Stage::Recent { related }),
            (Stage::Related, DigestEvent::Failed(_)) => {
                let related: Vec<Json> = Vec::new();
                assert(ordering::views(related@) =~= Seq::<JsonView>::empty());
                base.at(Stage::Recent { related })
            },
            (Stage::Recent { related }, DigestEvent::Found(recent)) => {
                let context = digest::combine_rag_context(&related, &recent);
                base.at(Stage::Summarize { context })
            },
            (Stage::Recent { related }, DigestEvent::Failed(_)) => {
                let recent: Vec<Json> = Vec::new();
                assert(ordering::views(recent@) =~= Seq::<JsonView>::empty());
                let context = digest::combine_rag_context(&related, &recent);
                base.at(Stage::Summarize { context })
            },
            (Stage::Summarize { .. }, DigestEvent::Answer(summary)) => base.summarized(summary),
            (Stage::Summarize { .. }, DigestEvent::Failed(_)) => {
                assert(base.articles@[base.next as int]@ == before.current());
                let title = base.articles[base.next].title.clone();
                base.summarized(title)
            },
            (Stage::Detect { summary }, DigestEvent::Answer(source)) => base.at(
                Stage::Translate { summary, source },
            ),
            (Stage::Detect { summary }, DigestEvent::Failed(_)) => base.at(
                Stage::Store { summary, translated: None },
            ),
            (Stage::Translate { summary, .. }, DigestEvent::Answer(translation)) => base.at(
                Stage::Store { summary, translated: Some(translation) },
            ),
            (Stage::Translate { summary, .. }, DigestEvent::Failed(_)) => base.at(
                Stage::Store { summary, translated: None },
            ),
            (Stage::Store { summary, translated }, DigestEvent::Done) => base.stored(
                summary,
                translated,
            ),
            (Stage::Store { summary, translated }, DigestEvent::Failed(_)) => base.stored(
                summary,
                translated,
            ),
            (Stage::Today, DigestEvent::Found(found)) => {
                let today_rag = digest::join_summaries(&found);
                base.at(Stage::Overall { today_rag })
            },
            (Stage::Today, DigestEvent::Failed(_)) => {
                let found: Vec<Json> = Vec::new();
                assert(ordering::views(found@) =~= Seq::<JsonView>::empty());
                let today_rag = digest::join_summaries(&found);
                base.at(Stage::Overall { today_rag })
            },
            (Stage::Overall { .. }, DigestEvent::Answer(body)) => base.at(Stage::Send { body }),
            (Stage::Overall { .. }, DigestEvent::Failed(_)) => base.at(
                Stage::Send { body: NO_DIGEST.to_owned() },
            ),
            (Stage::Send { .. }, DigestEvent::Done) => base.at(Stage::Mark { attempts: 0 }),
            (Stage::Send { .. }, DigestEvent::Failed(message)) => base.at(
                Stage::Finished { outcome: Outcome::Failed { message } },
            ),
            (Stage::Mark { .. }, DigestEvent::Done) => base.at(
                Stage::Finished { outcome: Outcome::Sent },
            ),
            (Stage::Mark { attempts }, DigestEvent::Failed(message)) => {
                if attempts + 1 < MARK_ATTEMPTS {
                    base.at(Stage::Mark { attempts: attempts + 1 })
                } else {
                    base.at(Stage::Finished { outcome: Outcome::SentUnmarked { message } })
                }
            },
            (stage, _) => base.at(stage),
        }
    }
}

impl UserDigestView {
    /// Whether an event answers the action that is next.
    pub open spec fn answered_by(self, event: DigestEventView) -> bool {
        match self.stage {
            StageView::Fetch => event is Fetched || event is Failed,
            StageView::Lookup => event is Found || event is Failed,
            StageView::Upsert { .. } => event is Done || event is Failed,
            StageView::Related => event is Found || event is Failed,
            StageView::Recent { .. } => event is Found || event is Failed,
            StageView::Summarize { .. } => event is Answer || event is Failed,
            StageView::Detect { .. } => event is Answer || event is Failed,
            StageView::Translate { .. } => event is Answer || event is Failed,
            StageView::Store { .. } => event is Done || event is Failed,
            StageView::Today => event is Found || event is Failed,
            StageView::Overall { .. } => event is Answer || event is Failed,
            StageView::Send { .. } => event is Done || event is Failed,
            StageView::Mark { .. } => event is Done || event is Failed,
            StageView::Finished { .. } => false,
        }
    }

    /// No more actions than this are left, once the articles are loaded.
    pub open spec fn left(self) -> int {
        let later = 8 * (self.articles.len() - self.next - 1) + MARK_ATTEMPTS + 3;
        match self.stage {
            StageView::Lookup => later + 8,
            StageView::Upsert { .. } => later + 7,
            StageView::Related => later + 6,
            StageView::Recent { .. } => later + 5,
            StageView::Summarize { .. } => later + 4,
            StageView::Detect { .. } => later + 3,
            StageView::Translate { .. } => later + 2,
            StageView::Store { .. } => later + 1,
            StageView::Today => MARK_ATTEMPTS + 3,
            StageView::Overall { .. } => MARK_ATTEMPTS + 2,
            StageView::Send { .. } => MARK_ATTEMPTS + 1,
            StageView::Mark { attempts } => MARK_ATTEMPTS - attempts,
            _ => 0,
        }
    }

    /// Whether the mail is on its way: sent, with nothing left but the marks.
    pub open spec fn mailed(self) -> bool {
        match self.stage {
            StageView::Mark { .. } => true,
            StageView::Finished { outcome: OutcomeView::Sent } => true,
            StageView::Finished { outcome: OutcomeView::SentUnmarked { .. } } => true,
            _ => false,
        }
    }

    /// Whether the digest failed.
    pub open spec fn failed(self) -> bool {
        match self.stage {
            StageView::Finished { outcome: OutcomeView::Failed { .. } } => true,
            _ => false,
        }
    }

    /// Whether the digest is as a user's digest starts.
    pub open spec fn fresh(self) -> bool {
        &&& self.stage is Fetch
        &&& self.articles.len() == 0
        &&& self.next == 0
        &&& self.summaries.len() == 0
    }

    /// The summaries are those of the articles before `next`, one for each address.
    pub open spec fn summaries_match(self) -> bool {
        &&& forall|i: int|
            0 <= i < self.next ==> place_of(
                self.summaries,
                (#[trigger] self.articles[i]).url,
            ) is Some
        &&& forall|j: int|
            0 <= j < self.summaries.len() ==> exists|i: int|
                0 <= i < self.next && (#[trigger] self.articles[i]).url == (
                #[trigger] self.summaries[j]).url
        &&& forall|i: int, j: int|
            0 <= i < j < self.summaries.len() ==> (#[trigger] self.summaries[i]).url != (
            #[trigger] self.summaries[j]).url
    }
}

/// Every answer brings a digest nearer to its end: once its articles are loaded, no more
/// than eight actions for each of them and six more are left.
pub proof fn law_digest_makes_progress(digest: UserDigestView, event: DigestEventView)
    requires
        digest.wf(),
        digest.answered_by(event),
    ensures
        digest.after(event).wf(),
        !(digest.after(event).stage is Fetch),
        digest.stage is Fetch ==> digest.after(event).left() <= 8 * digest.after(
            event,
        ).articles.len() + 6,
        !(digest.stage is Fetch) ==> 0 <= digest.after(event).left() < digest.left(),
{
}

/// A digest fails in two ways only: its articles cannot be loaded, or its mail cannot be
/// sent. No other failure ends it, and marking that fails does not make it fail.
pub proof fn law_only_loading_and_mailing_can_fail(digest: UserDigestView, event: DigestEventView)
    requires
        digest.wf(),
        !(digest.stage is Finished),
    ensures
        digest.after(event).stage matches StageView::Finished {
            outcome: OutcomeView::Failed { message },
        } ==> (digest.stage is Fetch || digest.stage is Send) && event == DigestEventView::Failed(
            message,
        ),
{
}

/// An article that an earlier digest summarized is not summarized again: its summary is
/// taken over as it is stored.
pub proof fn law_known_article_is_not_summarized_again(
    digest: UserDigestView,
    found: Seq<JsonView>,
    stored: DigestEventView,
)
    requires
        digest.wf(),
        digest.stage is Lookup,
        found.len() > 0,
        found[0].member_text("summary"@) matches Some(s) && s.len() > 0 && s
            != digest.current().title,
        stored is Done || stored is Failed,
    ensures
        ({
            let summary = found[0].member_text("summary"@)->0;
            let d = digest.after(DigestEventView::Found(found));
            &&& d.action() == Some(
                DigestActionView::Upsert {
                    collection: digest.collection,
                    article: digest.current(),
                    known: Some(summary),
                    digest_date: digest.date,
                },
            )
            &&& d.after(stored) == digest.summarized(summary)
        }),
{
}

/// A user with a target language gets a translation of every summary, unless the language
/// cannot be detected or the translation fails.
pub proof fn law_target_language_is_translated_to(
    digest: UserDigestView,
    event: DigestEventView,
)
    requires
        digest.wf(),
        digest.user.target_language is Some,
        !(digest.stage is Store),
    ensures
        digest.after(event).stage matches StageView::Store { summary, translated } ==> {
            ||| digest.stage == StageView::Detect { summary } && event is Failed
                && translated is None
            ||| digest.stage matches StageView::Translate { summary: s, .. } && s == summary
                && match event {
                DigestEventView::Answer(translation) => translated == Some(translation),
                _ => event is Failed && translated is None,
            }
        },
{
}

proof fn lemma_run_splits(start: UserDigestView, events: Seq<DigestEventView>, k: int)
    requires
        0 <= k <= events.len(),
    ensures
        start.run(events) == start.run(events.take(k)).run(events.skip(k)),
    decreases events.len(),
{
    if k < events.len() {
        let shorter = events.drop_last();
        lemma_run_splits(start, shorter, k);
        assert(shorter.take(k) =~= events.take(k));
        assert(events.skip(k).drop_last() =~= shorter.skip(k));
        assert(events.skip(k).last() == events.last());
    } else {
        assert(events.take(k) =~= events);
        assert(events.skip(k) =~= Seq::<DigestEventView>::empty());
    }
}

proof fn lemma_mailed_stays(digest: UserDigestView, events: Seq<DigestEventView>)
    requires
        digest.mailed(),
    ensures
        digest.run(events).mailed(),
    decreases events.len(),
{
    if events.len() > 0 {
        lemma_mailed_stays(digest, events.drop_last());
    }
}

/// Articles are marked read only after the mail went out: a digest that marks articles, or
/// has done so, sent its mail first.
pub proof fn law_mail_goes_before_marks(start: UserDigestView, events: Seq<DigestEventView>)
    requires
        start.fresh(),
        start.run(events).mailed(),
    ensures
        exists|k: int|
            0 <= k < events.len() && #[trigger] start.run(events.take(k)).stage is Send
                && events[k] is Done,
    decreases events.len(),
{
    let shorter = events.drop_last();
    let before = start.run(shorter);
    assert(events.take(events.len() - 1) =~= shorter);
    if before.mailed() {
        law_mail_goes_before_marks(start, shorter);
        let k = choose|k: int|
            0 <= k < shorter.len() && #[trigger] start.run(shorter.take(k)).stage is Send
                && shorter[k] is Done;
        assert(events.take(k) =~= shorter.take(k));
        assert(start.run(events.take(k)).stage is Send);
    } else {
        assert(start.run(events.take(events.len() - 1)).stage is Send);
    }
}

/// A digest that fails marks no article read, at no time.
pub proof fn law_failed_digest_marks_nothing(
    start: UserDigestView,
    events: Seq<DigestEventView>,
    k: int,
)
    requires
        0 <= k <= events.len(),
        start.run(events).failed(),
    ensures
        !(start.run(events.take(k)).action() matches Some(action) && action is Mark),
{
    lemma_run_splits(start, events, k);
    if start.run(events.take(k)).stage is Mark {
        lemma_mailed_stays(start.run(events.take(k)), events.skip(k));
    }
}

/// Exactly the articles that were loaded are marked read, all of them.
pub proof fn law_marks_are_the_loaded_articles(
    start: UserDigestView,
    events: Seq<DigestEventView>,
)
    requires
        start.fresh(),
        !(start.run(events).stage is Fetch),
    ensures
        start.run(events).articles.len() == 0 || exists|k: int|
            0 <= k < events.len() && #[trigger] start.run(events.take(k)).stage is Fetch
                && events[k] == DigestEventView::Fetched(start.run(events).articles),
        start.run(events).action() matches Some(DigestActionView::Mark { ids, .. }) ==> ids
            == ids_of(start.run(events).articles) && start.run(events).articles.len() > 0,
    decreases events.len(),
{
    lemma_articles_loaded(start, events);
    let shorter = events.drop_last();
    let before = start.run(shorter);
    assert(events.take(events.len() - 1) =~= shorter);
    if before.stage is Fetch {
        if start.run(events).articles.len() > 0 {
            lemma_articles_loaded(start, shorter);
            assert(start.run(events.take(events.len() - 1)).stage is Fetch);
        }
    } else {
        law_marks_are_the_loaded_articles(start, shorter);
        if start.run(events).articles.len() > 0 {
            let k = choose|k: int|
                0 <= k < shorter.len() && #[trigger] start.run(shorter.take(k)).stage is Fetch
                    && shorter[k] == DigestEventView::Fetched(before.articles);
            assert(events.take(k) =~= shorter.take(k));
            assert(start.run(events.take(k)).stage is Fetch);
        }
    }
}

proof fn lemma_articles_loaded(start: UserDigestView, events: Seq<DigestEventView>)
    requires
        start.fresh(),
    ensures
        ({
            let d = start.run(events);
            &&& d.stage is Fetch ==> d == start
            &&& d.stage is Finished || d.stage is Fetch || d.articles.len() > 0
            &&& d.wf()
        }),
    decreases events.len(),
{
    if events.len() > 0 {
        lemma_articles_loaded(start, events.drop_last());
    }
}

impl DigestActionView {
    /// The collection of the vector store that an action reads or writes, if it does.
    pub open spec fn collection(self) -> Option<Seq<char>> {
        match self {
            DigestActionView::Lookup { collection, .. } => Some(collection),
            DigestActionView::Upsert { collection, .. } => Some(collection),
            DigestActionView::Search { collection, .. } => Some(collection),
            DigestActionView::Recent { collection, .. } => Some(collection),
            DigestActionView::Store { collection, .. } => Some(collection),
            _ => None,
        }
    }
}

/// A digest concerns its own user from beginning to end: whatever happens, it loads and
/// marks articles of that user's account, reads and writes that user's collection only,
/// translates to that user's language and mails to that user's address.
pub proof fn law_digest_concerns_its_user(start: UserDigestView, events: Seq<DigestEventView>)
    ensures
        ({
            let d = start.run(events);
            &&& d.user == start.user && d.date == start.date && d.since == start.since
            &&& d.collection == start.collection
            &&& d.action() matches Some(action) ==> action.collection() is None
                || action.collection() == Some(start.collection)
            &&& d.action() matches Some(DigestActionView::Fetch { username, api_password, since })
                ==> username == start.user.freshrss_username && api_password
                == start.user.freshrss_api_password && since == start.since
            &&& d.action() matches Some(DigestActionView::Mark { username, api_password, .. })
                ==> username == start.user.freshrss_username && api_password
                == start.user.freshrss_api_password
            &&& d.action() matches Some(DigestActionView::Translate { target, .. }) ==> target
                == start.user.target_language->0
            &&& d.action() matches Some(DigestActionView::Send { recipient, .. }) ==> recipient
                == start.user.email
        }),
    decreases events.len(),
{
    if events.len() > 0 {
        law_digest_concerns_its_user(start, events.drop_last());
    }
}

/// A user without a target language gets no translation: nothing is detected or translated,
/// and no summary has a translation.
pub proof fn law_no_target_no_translation(start: UserDigestView, events: Seq<DigestEventView>)
    requires
        start.fresh(),
        start.user.target_language is None,
    ensures
        ({
            let d = start.run(events);
            &&& d.user == start.user
            &&& !(d.stage is Detect) && !(d.stage is Translate)
            &&& d.stage matches StageView::Store { translated, .. } ==> translated is None
            &&& forall|i: int|
                0 <= i < d.summaries.len() ==> (#[trigger] d.summaries[i]).translated is None
        }),
    decreases events.len(),
{
    if events.len() > 0 {
        let before = start.run(events.drop_last());
        law_no_target_no_translation(start, events.drop_last());
        if before.stage is Store {
            lemma_place_of(before.summaries, before.current().url);
        }
    }
}

pub proof fn lemma_place_of(summaries: Seq<SummaryView>, url: Seq<char>)
    ensures
        match place_of(summaries, url) {
            Some(i) => 0 <= i < summaries.len() && summaries[i].url == url,
            None => forall|i: int| 0 <= i < summaries.len() ==> (#[trigger] summaries[i]).url != url,
        },
    decreases summaries.len(),
{
    if summaries.len() > 0 {
        let shorter = summaries.drop_last();
        lemma_place_of(shorter, url);
        if summaries.last().url != url && place_of(summaries, url) is None {
            assert forall|i: int| 0 <= i < summaries.len() implies (#[trigger] summaries[i]).url
                != url by {
                if i < shorter.len() {
                    assert(shorter[i] == summaries[i]);
                }
            }
        }
    }
}

proof fn lemma_with_summary(digest: UserDigestView, s: SummaryView)
    requires
        digest.summaries_match(),
        0 <= digest.next < digest.articles.len(),
        s.url == digest.current().url,
    ensures
        (UserDigestView {
            next: digest.next + 1,
            summaries: with_summary(digest.summaries, s),
            ..digest
        }).summaries_match(),
{
    let old_ones = digest.summaries;
    let new_ones = with_summary(old_ones, s);
    let after = UserDigestView { next: digest.next + 1, summaries: new_ones, ..digest };
    lemma_place_of(old_ones, s.url);
    let at = match place_of(old_ones, s.url) {
        Some(i) => i,
        None => old_ones.len() as int,
    };
    assert(new_ones[at] == s);
    assert forall|i: int| 0 <= i < after.next implies place_of(
        new_ones,
        (#[trigger] after.articles[i]).url,
    ) is Some by {
        let url = after.articles[i].url;
        lemma_place_of(new_ones, url);
        if i < digest.next {
            assert(place_of(old_ones, digest.articles[i].url) is Some);
            lemma_place_of(old_ones, url);
            let j = place_of(old_ones, url)->0;
            assert(new_ones[j].url == url);
        } else {
            assert(new_ones[at].url == url);
        }
    }
    assert forall|j: int| 0 <= j < new_ones.len() implies exists|i: int|
        0 <= i < after.next && (#[trigger] after.articles[i]).url == (
        #[trigger] new_ones[j]).url by {
        if j == at {
            assert(after.articles[digest.next].url == new_ones[j].url);
        } else {
            assert(old_ones[j] == new_ones[j]);
            let i = choose|i: int|
                0 <= i < digest.next && (#[trigger] digest.articles[i]).url == old_ones[j].url;
            assert(after.articles[i].url == new_ones[j].url);
        }
    }
    assert forall|i: int, j: int| 0 <= i < j < new_ones.len() implies (
    #[trigger] new_ones[i]).url != (#[trigger] new_ones[j]).url by {
        if i == at {
            assert(old_ones[j] == new_ones[j]);
            assert(old_ones[i].url != old_ones[j].url);
        } else if j == at {
            assert(old_ones[i] == new_ones[i]);
            if j < old_ones.len() {
                assert(old_ones[i].url != old_ones[j].url);
            }
        } else {
            assert(old_ones[i].url != old_ones[j].url);
        }
    }
}

/// The digest tells of every article: the summaries are those of the articles that were
/// handled, one for each address, and when the digest is written, none is missing.
pub proof fn law_every_article_is_summarized(start: UserDigestView, events: Seq<DigestEventView>)
    requires
        start.fresh(),
    ensures
        ({
            let d = start.run(events);
            &&& d.summaries_match()
            &&& d.stage is Overall || d.stage is Send || d.stage is Mark ==> d.next
                == d.articles.len()
        }),
    decreases events.len(),
{
    if events.len() > 0 {
        let shorter = events.drop_last();
        let before = start.run(shorter);
        law_every_article_is_summarized(start, shorter);
        lemma_articles_loaded(start, shorter);
        lemma_digest_stays_complete(start, shorter);
        if let StageView::Store { summary, translated } = before.stage {
            lemma_with_summary(
                before,
                SummaryView { url: before.current().url, summary, translated },
            );
        }
    }
}

proof fn lemma_digest_stays_complete(start: UserDigestView, events: Seq<DigestEventView>)
    requires
        start.fresh(),
    ensures
        start.run(events).stage is Today ==> start.run(events).next == start.run(
            events,
        ).articles.len(),
    decreases events.len(),
{
    if events.len() > 0 {
        lemma_digest_stays_complete(start, events.drop_last());
        lemma_articles_loaded(start, events.drop_last());
    }
}

} // verus!
