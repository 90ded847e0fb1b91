//! What each step of a user's digest hands on to the next.

use crate::digest;
use crate::freshrss_fever::ArticleView;
use crate::json::JsonView;
use crate::llm::SummaryView;
use crate::qdrant;
use crate::qdrant::PayloadView;
use crate::store_laws;
use crate::summary_update;
use crate::text;
use crate::user_digest;
use crate::user_digest::{
    DigestActionView, DigestEventView, OutcomeView, StageView, UserDigestView,
};
use vstd::prelude::*;
use vstd::string::*;

verus! {

/// A digest loads its user's articles. Those that come are its articles, and the first of
/// them is looked up; without any there is nothing to do, and what stops the loading is what
/// is reported.
pub proof fn law_digest_takes_up_the_loaded_articles(
    digest: UserDigestView,
    articles: Seq<ArticleView>,
    message: Seq<char>,
)
    requires
        digest.stage is Fetch,
    ensures
        digest.action() == Some(
            DigestActionView::Fetch {
                username: digest.user.freshrss_username,
                api_password: digest.user.freshrss_api_password,
                since: digest.since,
            },
        ),
        articles.len() > 0 ==> ({
            let d = digest.after(DigestEventView::Fetched(articles));
            &&& d.articles == articles
            &&& d.next == 0
            &&& d.summaries.len() == 0
            &&& d.action() == Some(
                DigestActionView::Lookup { collection: digest.collection, id: articles[0].id },
            )
        }),
        digest.after(DigestEventView::Fetched(Seq::empty())).stage == (StageView::Finished {
            outcome: OutcomeView::NothingUnread,
        }),
        digest.after(DigestEventView::Failed(message)).stage == (StageView::Finished {
            outcome: OutcomeView::Failed { message },
        }),
{
}

/// Each article is stored as it was loaded, under the digest's date. It keeps the summary
/// that is stored of it, unless that is empty or its title, and gets none where the store
/// does not answer.
pub proof fn law_each_article_is_stored(
    digest: UserDigestView,
    found: Seq<JsonView>,
    message: Seq<char>,
)
    requires
        digest.wf(),
        digest.stage is Lookup,
    ensures
        ({
            let a = digest.after(DigestEventView::Found(found)).action();
            let summary = a->0->known;
            &&& a == Some(
                DigestActionView::Upsert {
                    collection: digest.collection,
                    article: digest.articles[digest.next],
                    known: summary,
                    digest_date: digest.date,
                },
            )
            &&& found.len() == 0 ==> summary is None
            &&& found.len() > 0 && found[0].member_text("summary"@) is None ==> summary is None
            &&& forall|s: Seq<char>|
                found.len() > 0 && #[trigger] found[0].member_text("summary"@) == Some(s) ==> (
                summary == Some(s) <==> s.len() > 0 && s != digest.articles[digest.next].title)
                    && (summary is None <==> s.len() == 0 || s
                    == digest.articles[digest.next].title)
        }),
        digest.after(DigestEventView::Failed(message)).action() == Some(
            DigestActionView::Upsert {
                collection: digest.collection,
                article: digest.articles[digest.next],
                known: None,
                digest_date: digest.date,
            },
        ),
{
}

/// For an article without a summary, what is stored is searched by its title, whether or
/// not the article could be stored.
pub proof fn law_related_articles_are_searched_by_title(
    digest: UserDigestView,
    stored: DigestEventView,
)
    requires
        digest.wf(),
        digest.stage == (StageView::Upsert { known: None }),
        stored is Done || stored is Failed,
    ensures
        digest.after(stored).action() == Some(
            DigestActionView::Search {
                collection: digest.collection,
                query: digest.articles[digest.next].title,
                top_k: digest.top_k,
            },
        ),
{
}

/// The articles that a search brought; none where it failed.
pub open spec fn brought(event: DigestEventView) -> Seq<JsonView> {
    match event {
        DigestEventView::Found(found) => found,
        _ => Seq::empty(),
    }
}

/// The language model is told of all that was found: each related article's summary and,
/// of each recent article with a summary, the title, the date and the summary stand in the
/// context that goes with the article's title and content. A search that fails takes
/// nothing from what the other one found.
pub proof fn law_model_is_told_what_was_found(
    digest: UserDigestView,
    first: DigestEventView,
    second: DigestEventView,
)
    requires
        digest.wf(),
        digest.stage is Related,
        first is Found || first is Failed,
        second is Found || second is Failed,
    ensures
        digest.after(first).action() == Some(
            DigestActionView::Recent {
                collection: digest.collection,
                days: digest.context_window_days,
                limit: 5,
            },
        ),
        ({
            let related = brought(first);
            let recent = brought(second);
            let a = digest.after(first).after(second).action();
            let context = a->0->rag_context;
            &&& a == Some(
                DigestActionView::Summarize {
                    rag_context: context,
                    title: digest.articles[digest.next].title,
                    content: digest.articles[digest.next].content,
                },
            )
            &&& context == digest::combined_context(related, recent)
            &&& forall|i: int|
                0 <= i < related.len() && (#[trigger] related[i]).member_text("summary"@) is Some
                    ==> text::occurs(related[i].member_text("summary"@)->0, context)
            &&& forall|i: int|
                0 <= i < recent.len() && has_summary(#[trigger] recent[i]) ==> {
                    &&& text::occurs(recent[i].member_text("title"@)->0, context)
                    &&& text::occurs(recent[i].member_text("digest_date"@)->0, context)
                    &&& text::occurs(recent[i].member_text("summary"@)->0, context)
                }
        }),
{
    let related = brought(first);
    let recent = brought(second);
    let context = digest::combined_context(related, recent);
    assert(digest.after(first).after(second).stage == (StageView::Summarize { context }));
    assert forall|i: int|
        0 <= i < related.len() && (#[trigger] related[i]).member_text(
            "summary"@,
        ) is Some implies text::occurs(related[i].member_text("summary"@)->0, context) by {
        digest::law_context_tells_of_related_articles(related, recent, i);
    }
    assert forall|i: int| 0 <= i < recent.len() && has_summary(#[trigger] recent[i]) implies {
        &&& text::occurs(recent[i].member_text("title"@)->0, context)
        &&& text::occurs(recent[i].member_text("digest_date"@)->0, context)
        &&& text::occurs(recent[i].member_text("summary"@)->0, context)
    } by {
        digest::law_context_tells_of_recent_articles(
            related,
            recent,
            i,
            recent[i].member_text("title"@)->0,
            recent[i].member_text("digest_date"@)->0,
            recent[i].member_text("summary"@)->0,
        );
    }
}

/// Whether a stored article is complete, with a summary that is not empty.
pub open spec fn has_summary(article: JsonView) -> bool {
    &&& article.member_text("title"@) is Some
    &&& article.member_text("digest_date"@) is Some
    &&& article.member_text("summary"@) is Some
    &&& article.member_text("summary"@)->0.len() > 0
}

/// Whether an event settles the summary of the article that is next: it is the language
/// model's answer, the title where the model fails, or the summary known from before.
pub open spec fn settles(
    digest: UserDigestView,
    event: DigestEventView,
    summary: Seq<char>,
) -> bool {
    ||| digest.stage is Summarize && event == DigestEventView::Answer(summary)
    ||| digest.stage is Summarize && event is Failed && summary
        == digest.articles[digest.next].title
    ||| digest.stage == (StageView::Upsert { known: Some(summary) }) && (event is Done
        || event is Failed)
}

/// The store action of the article that is next.
pub open spec fn store_of(
    digest: UserDigestView,
    summary: Seq<char>,
    translated: Option<Seq<char>>,
) -> Option<DigestActionView> {
    Some(
        DigestActionView::Store {
            collection: digest.collection,
            digest_date: digest.date,
            summary: SummaryView { url: digest.articles[digest.next].url, summary, translated },
        },
    )
}

/// A summary is stored under its article's address as it came. For a user with a target
/// language it is first translated to that language, from the article's own language or,
/// where that is unknown, from the one that is detected; the translation is stored with it,
/// and where there is none the summary is stored alone.
pub proof fn law_summary_is_translated_and_stored(
    digest: UserDigestView,
    event: DigestEventView,
    summary: Seq<char>,
    answer: Seq<char>,
    translation: Seq<char>,
    message: Seq<char>,
)
    requires
        digest.wf(),
        settles(digest, event, summary),
    ensures
        ({
            let d = digest.after(event);
            let answered = DigestEventView::Answer(answer);
            let translated = DigestEventView::Answer(translation);
            let failed = DigestEventView::Failed(message);
            match (digest.user.target_language, digest.articles[digest.next].language) {
                (None, _) => d.action() == store_of(digest, summary, None),
                (Some(target), Some(source)) => {
                    &&& d.action() == Some(
                        DigestActionView::Translate { text: summary, source, target },
                    )
                    &&& d.after(translated).action() == store_of(
                        digest,
                        summary,
                        Some(translation),
                    )
                    &&& d.after(failed).action() == store_of(digest, summary, None)
                },
                (Some(target), None) => {
                    &&& d.action() == Some(DigestActionView::Detect { text: summary })
                    &&& d.after(failed).action() == store_of(digest, summary, None)
                    &&& d.after(answered).action() == Some(
                        DigestActionView::Translate { text: summary, source: answer, target },
                    )
                    &&& d.after(answered).after(translated).action() == store_of(
                        digest,
                        summary,
                        Some(translation),
                    )
                    &&& d.after(answered).after(failed).action() == store_of(
                        digest,
                        summary,
                        None,
                    )
                },
            }
        }),
{
}

/// The summary that the store is to take.
pub open spec fn stored_entry(digest: UserDigestView) -> SummaryView {
    match digest.action() {
        Some(DigestActionView::Store { summary, .. }) => summary,
        _ => arbitrary(),
    }
}

/// What was to be stored of an article is in the digest from then on, whether or not the
/// store took it: in the place of an earlier summary of the same address, or behind the
/// others. The summaries of other addresses stay where they are.
pub proof fn law_stored_summary_is_in_the_digest(
    digest: UserDigestView,
    event: DigestEventView,
    j: int,
)
    requires
        digest.wf(),
        digest.stage is Store,
        event is Done || event is Failed,
        0 <= j < digest.summaries.len(),
    ensures
        ({
            let d = digest.after(event);
            let entry = stored_entry(digest);
            &&& entry.url == digest.articles[digest.next].url
            &&& d.summaries.contains(entry)
            &&& digest.summaries[j].url != entry.url ==> d.summaries[j] == digest.summaries[j]
            &&& digest.summaries.len() <= d.summaries.len() <= digest.summaries.len() + 1
            &&& digest.summaries[j].url == entry.url ==> d.summaries.len()
                == digest.summaries.len()
            &&& (forall|i: int|
                0 <= i < digest.summaries.len() ==> (#[trigger] digest.summaries[i]).url
                    != entry.url) ==> d.summaries == digest.summaries.push(entry)
            &&& d.articles == digest.articles
            &&& d.next == digest.next + 1
        }),
{
    user_digest::lemma_place_of(digest.summaries, digest.articles[digest.next].url);
    let d = digest.after(event);
    let entry = stored_entry(digest);
    match user_digest::place_of(digest.summaries, entry.url) {
        Some(i) => {
            assert(d.summaries[i] == entry);
        },
        None => {
            assert(d.summaries[digest.summaries.len() as int] == entry);
        },
    }
}

/// The first summary that is stored is the digest's first.
pub proof fn law_first_summary_is_in_the_digest(digest: UserDigestView, event: DigestEventView)
    requires
        digest.wf(),
        digest.stage is Store,
        event is Done || event is Failed,
        digest.summaries.len() == 0,
    ensures
        digest.after(event).summaries == seq![stored_entry(digest)],
        digest.after(event).next == digest.next + 1,
        digest.after(event).articles == digest.articles,
{
    assert(digest.after(event).summaries =~= seq![stored_entry(digest)]);
}

/// Behind an article comes the next one; behind the last one what is stored is searched for
/// the day's events.
pub proof fn law_articles_are_handled_in_turn(digest: UserDigestView, event: DigestEventView)
    requires
        digest.wf(),
        digest.stage is Store,
        event is Done || event is Failed,
    ensures
        digest.next + 1 < digest.articles.len() ==> digest.after(event).action() == Some(
            DigestActionView::Lookup {
                collection: digest.collection,
                id: digest.articles[digest.next + 1].id,
            },
        ),
        digest.next + 1 == digest.articles.len() ==> digest.after(event).action() == Some(
            DigestActionView::Search {
                collection: digest.collection,
                query: digest.date + " events predictions reminders"@,
                top_k: 5,
            },
        ),
{
}

/// The digest's text is asked for with every summary that was made, the date and the user's
/// language, and with the summary of each stored article that was found for the day.
pub proof fn law_digest_is_written_from_its_summaries(
    digest: UserDigestView,
    event: DigestEventView,
)
    requires
        digest.stage is Today,
        event is Found || event is Failed,
    ensures
        ({
            let found = brought(event);
            let a = digest.after(event).action();
            let rag = a->0->today_rag;
            &&& a == Some(
                DigestActionView::Overall {
                    today_rag: rag,
                    summaries: digest.summaries,
                    date: digest.date,
                    target_language: digest.user.target_language,
                },
            )
            &&& rag == digest::paragraphs(found)
            &&& event is Failed ==> rag.len() == 0
            &&& forall|i: int|
                0 <= i < found.len() && (#[trigger] found[i]).member_text("summary"@) is Some
                    ==> text::occurs(found[i].member_text("summary"@)->0, rag)
        }),
{
    let found = brought(event);
    let rag = digest::paragraphs(found);
    assert(digest.after(event).stage == (StageView::Overall { today_rag: rag }));
    assert forall|i: int|
        0 <= i < found.len() && (#[trigger] found[i]).member_text("summary"@) is Some implies
        text::occurs(found[i].member_text("summary"@)->0, rag) by {
        digest::law_paragraphs_hold_every_summary(found, i);
    }
}

/// The user is mailed the text that was written, under a subject that ends in the date;
/// where none could be written, the mail says so.
pub proof fn law_written_digest_is_mailed_to_its_user(
    digest: UserDigestView,
    body: Seq<char>,
    message: Seq<char>,
)
    requires
        digest.stage is Overall,
    ensures
        digest.after(DigestEventView::Answer(body)).action() == Some(
            DigestActionView::Send {
                subject: "📰 Daily News Digest - "@ + digest.date,
                body,
                recipient: digest.user.email,
            },
        ),
        digest.after(DigestEventView::Failed(message)).action() == Some(
            DigestActionView::Send {
                subject: "📰 Daily News Digest - "@ + digest.date,
                body: "Unable to generate overall summary."@,
                recipient: digest.user.email,
            },
        ),
{
}

/// Once the mail is sent, every article of the digest is marked read, each by its id; where
/// it cannot be sent, that is what is reported.
pub proof fn law_mailed_articles_are_marked(digest: UserDigestView, message: Seq<char>)
    requires
        digest.stage is Send,
    ensures
        ({
            let a = digest.after(DigestEventView::Done).action();
            let ids = a->0->ids;
            &&& a == Some(
                DigestActionView::Mark {
                    username: digest.user.freshrss_username,
                    api_password: digest.user.freshrss_api_password,
                    ids,
                },
            )
            &&& ids.len() == digest.articles.len()
            &&& forall|i: int|
                0 <= i < digest.articles.len() ==> ids[i] == (#[trigger] digest.articles[i]).id
        }),
        digest.after(DigestEventView::Failed(message)).stage == (StageView::Finished {
            outcome: OutcomeView::Failed { message },
        }),
{
}

/// Marking is tried three times and no more: a first and a second failure bring the same
/// marks again, a third one ends the digest with what it reports, and a success ends it at
/// any of them.
pub proof fn law_marking_is_tried_three_times(
    digest: UserDigestView,
    a: Seq<char>,
    b: Seq<char>,
    c: Seq<char>,
)
    requires
        digest.stage is Send,
    ensures
        ({
            let one = digest.after(DigestEventView::Done);
            let two = one.after(DigestEventView::Failed(a));
            let three = two.after(DigestEventView::Failed(b));
            let sent = StageView::Finished { outcome: OutcomeView::Sent };
            &&& two.action() == one.action()
            &&& three.action() == one.action()
            &&& one.after(DigestEventView::Done).stage == sent
            &&& two.after(DigestEventView::Done).stage == sent
            &&& three.after(DigestEventView::Done).stage == sent
            &&& three.after(DigestEventView::Failed(c)).stage == (StageView::Finished {
                outcome: OutcomeView::SentUnmarked { message: c },
            })
        }),
{
}

/// No event changes whose digest it is, nor its date and settings, and none but the loading
/// changes its articles. An event that answers nothing changes nothing, and neither does
/// any event behind the end.
pub proof fn law_digest_keeps_its_settings(digest: UserDigestView, event: DigestEventView)
    ensures
        ({
            let d = digest.after(event);
            &&& d.user == digest.user
            &&& d.collection == digest.collection
            &&& d.date == digest.date
            &&& d.since == digest.since
            &&& d.top_k == digest.top_k
            &&& d.context_window_days == digest.context_window_days
            &&& !(digest.stage is Fetch) ==> d.articles == digest.articles
            &&& !(digest.stage is Fetch || digest.stage is Store) ==> d.summaries
                == digest.summaries && d.next == digest.next
            &&& digest.stage is Finished ==> d == digest
            &&& !digest.answered_by(event) ==> d == digest
        }),
{
}

/// A summary is written to the article that was stored before it: the point that an article
/// is stored as passes the filter of the store action that follows for the same article.
pub proof fn law_summary_finds_its_stored_article(
    digest: UserDigestView,
    known: Option<Seq<char>>,
    later: UserDigestView,
)
    requires
        digest.wf(),
        digest.stage == (StageView::Upsert { known }),
        later.wf(),
        later.stage is Store,
        later.articles == digest.articles,
        later.next == digest.next,
        later.date == digest.date,
    ensures
        ({
            let stored = digest.action()->0;
            let point = qdrant::article_point(
                stored->article,
                stored->known,
                None,
                stored->Upsert_digest_date,
            );
            let written = later.action()->0;
            let update = summary_update::update_start(
                written->Store_digest_date,
                seq![stored_entry(later)],
            );
            &&& stored is Upsert
            &&& written is Store
            &&& update.action() is Some
            &&& update.action()->0 is SetPayload
            &&& store_laws::passes(
                point.payload.document(),
                update.action()->0->SetPayload_filter,
            )
        }),
{
    let article = digest.articles[digest.next];
    store_laws::law_stored_point_holds_the_article(article, known, None, digest.date);
}

/// What a digest stores, later digests are told: the document of an article with a summary,
/// found again, puts its title, date and summary into the context of another article.
pub proof fn law_stored_summary_is_told_later(
    payload: PayloadView,
    semantic: Seq<JsonView>,
    recent: Seq<JsonView>,
    i: int,
)
    requires
        payload.summary is Some,
        payload.summary->0.len() > 0,
    ensures
        0 <= i < semantic.len() && semantic[i] == payload.document() ==> text::occurs(
            payload.summary->0,
            digest::combined_context(semantic, recent),
        ),
        0 <= i < recent.len() && recent[i] == payload.document() ==> {
            let context = digest::combined_context(semantic, recent);
            &&& text::occurs(payload.title, context)
            &&& text::occurs(payload.digest_date, context)
            &&& text::occurs(payload.summary->0, context)
        },
{
    store_laws::law_payload_document_holds_its_values(payload);
    if 0 <= i < semantic.len() && semantic[i] == payload.document() {
        digest::law_context_tells_of_related_articles(semantic, recent, i);
    }
    if 0 <= i < recent.len() && recent[i] == payload.document() {
        digest::law_context_tells_of_recent_articles(
            semantic,
            recent,
            i,
            payload.title,
            payload.digest_date,
            payload.summary->0,
        );
    }
}

} // verus!
