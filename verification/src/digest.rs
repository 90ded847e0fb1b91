//! The daily digest: what it tells the language model, and the run over all users.

use crate::config::{AppConfig, AppConfigView, UserConfigView};
use crate::json::{Json, JsonView};
use crate::ordering;
use crate::qdrant;
use crate::text;
use crate::user_digest;
use crate::user_digest::{
    DigestEventView, Outcome, OutcomeView, Stage, StageView, UserDigest, UserDigestView,
    WINDOW_SECS,
};
use vstd::prelude::*;
use vstd::string::*;

verus! {

/// The summaries that stored articles have.
pub open spec fn summaries_in(articles: Seq<JsonView>) -> Seq<Seq<char>>
    decreases articles.len(),
{
    if articles.len() == 0 {
        Seq::empty()
    } else {
        let before = summaries_in(articles.drop_last());
        match articles.last().member_text("summary"@) {
            Some(s) => before.push(s),
            None => before,
        }
    }
}

/// The summaries that stored articles have, as paragraphs.
pub open spec fn paragraphs(articles: Seq<JsonView>) -> Seq<char> {
    text::joined(summaries_in(articles), "\n\n"@)
}

/// The text of a member, or else the empty text.
pub open spec fn text_at(article: JsonView, key: Seq<char>) -> Seq<char> {
    match article.member_text(key) {
        Some(s) => s,
        None => Seq::empty(),
    }
}

/// The line that tells of a stored article.
pub open spec fn context_line(article: JsonView) -> Seq<char> {
    "- **"@ + text_at(article, "title"@) + "** ("@ + text_at(article, "digest_date"@) + "): "@
        + text_at(article, "summary"@)
}

/// The lines that tell of the stored articles that have a summary.
pub open spec fn context_lines(articles: Seq<JsonView>) -> Seq<Seq<char>>
    decreases articles.len(),
{
    if articles.len() == 0 {
        Seq::empty()
    } else {
        let before = context_lines(articles.drop_last());
        if text_at(articles.last(), "summary"@).len() > 0 {
            before.push(context_line(articles.last()))
        } else {
            before
        }
    }
}

/// A section under its heading, or nothing where it is empty.
pub open spec fn section(heading: Seq<char>, body: Seq<char>) -> Seq<Seq<char>> {
    if body.len() > 0 {
        seq![heading + body]
    } else {
        Seq::empty()
    }
}

/// The context for an article's summary: related articles and recent ones.
pub open spec fn combined_context(semantic: Seq<JsonView>, recent: Seq<JsonView>) -> Seq<char> {
    text::joined(
        section("## Related Past Articles\n"@, paragraphs(semantic)) + section(
            "## Recent Digest Context\n"@,
            text::joined(context_lines(recent), "\n"@),
        ),
        "\n\n"@,
    )
}

/// The summaries that stored articles have, as paragraphs.
pub fn join_summaries(articles: &Vec<Json>) -> (r: String)
    ensures
        r@ == paragraphs(ordering::views(articles@)),
{
    let ghost all = ordering::views(articles@);
    let mut found: Vec<String> = Vec::new();
    assert(text::texts(found@) == summaries_in(all.take(0)));
    for i in 0..articles.len()
        invariant
            all == ordering::views(articles@),
            text::texts(found@) == summaries_in(all.take(i as int)),
    {
        let ghost before = text::texts(found@);
        assert(all.take(i + 1).drop_last() == all.take(i as int));
        assert(all.take(i + 1).last() == articles@[i as int]@);
        if let Some(s) = articles[i].get_str("summary") {
            let s = s.to_owned();
            found.push(s);
            assert(text::texts(found@) =~= before.push(s@));
        }
    }
    assert(all.take(all.len() as int) == all);
    text::join(&found, "\n\n")
}

fn text_or_empty<'a>(article: &'a Json, key: &str) -> (r: &'a str)
    ensures
        r@ == text_at(article@, key@),
{
    match article.get_str(key) {
        Some(s) => s,
        None => {
            proof {
                reveal_strlit("");
            }
            assert(""@ =~= Seq::<char>::empty());
            ""
        },
    }
}

fn join_context_lines(articles: &Vec<Json>) -> (r: String)
    ensures
        r@ == text::joined(context_lines(ordering::views(articles@)), "\n"@),
{
    let ghost all = ordering::views(articles@);
    let mut lines: Vec<String> = Vec::new();
    assert(text::texts(lines@) == context_lines(all.take(0)));
    for i in 0..articles.len()
        invariant
            all == ordering::views(articles@),
            text::texts(lines@) == context_lines(all.take(i as int)),
    {
        let ghost before = text::texts(lines@);
        assert(all.take(i + 1).drop_last() == all.take(i as int));
        assert(all.take(i + 1).last() == articles@[i as int]@);
        let title = text_or_empty(&articles[i], "title");
        let summary = text_or_empty(&articles[i], "summary");
        let digest_date = text_or_empty(&articles[i], "digest_date");
        if !summary.is_empty() {
            let line = "- **".to_owned().concat(title).concat("** (").concat(digest_date).concat(
                "): ",
            ).concat(summary);
            lines.push(line);
            assert(text::texts(lines@) =~= before.push(line@));
        }
    }
    assert(all.take(all.len() as int) == all);
    text::join(&lines, "\n")
}

/// The context for an article's summary: related articles and recent ones.
pub fn combine_rag_context(semantic: &Vec<Json>, recent: &Vec<Json>) -> (r: String)
    ensures
        r@ == combined_context(ordering::views(semantic@), ordering::views(recent@)),
{
    let mut parts: Vec<String> = Vec::new();
    let related = join_summaries(semantic);
    let lines = join_context_lines(recent);
    let ghost first = section("## Related Past Articles\n"@, related@);
    let ghost second = section("## Recent Digest Context\n"@, lines@);
    if !related.as_str().is_empty() {
        parts.push("## Related Past Articles\n".to_owned().concat(related.as_str()));
    }
    assert(text::texts(parts@) =~= first);
    if !lines.as_str().is_empty() {
        parts.push("## Recent Digest Context\n".to_owned().concat(lines.as_str()));
    }
    assert(text::texts(parts@) =~= first + second);
    text::join(&parts, "\n\n")
}

/// The date that it is in UTC at an instant (Unix seconds), as `YYYY-MM-DD`.
pub uninterp spec fn utc_date(instant: int) -> Option<Seq<char>>;

/// `chrono::DateTime::format` with `%Y-%m-%d`, for the instant in UTC that
/// `DateTime::from_timestamp` gives: the date of the instant. There is none for an instant
/// outside of what `chrono` represents.
#[verifier::external_body]
fn date_text(instant: i64) -> (r: Option<String>)
    ensures
        text::text_of(r) == utc_date(instant as int),
{
    Some(chrono::DateTime::from_timestamp(instant, 0)?.format("%Y-%m-%d").to_string())
}

/// The digest of a user, before its first action, in a run that starts at `now`.
pub open spec fn digest_start(
    config: AppConfigView,
    user: UserConfigView,
    date: Seq<char>,
    now: int,
) -> UserDigestView {
    UserDigestView {
        user,
        collection: qdrant::user_collection(config.qdrant.collection, user.freshrss_username),
        date,
        since: now - WINDOW_SECS,
        top_k: config.qdrant.top_k,
        context_window_days: config.qdrant.context_window_days,
        articles: Seq::empty(),
        next: 0,
        summaries: Seq::empty(),
        stage: StageView::Fetch,
    }
}

/// The digests of all users, each on its own.
pub open spec fn digest_starts(config: AppConfigView, date: Seq<char>, now: int) -> Seq<
    UserDigestView,
> {
    Seq::new(config.users.len(), |i: int| digest_start(config, config.users[i], date, now))
}

/// The digests of all users, for a day, in a run that starts at `now` (Unix seconds).
pub fn start_digests(config: &AppConfig, date: &str, now: i64) -> (r: Vec<UserDigest>)
    requires
        now - WINDOW_SECS >= i64::MIN,
    ensures
        ordering::views(r@) == digest_starts(config@, date@, now as int),
{
    let ghost all = digest_starts(config@, date@, now as int);
    let mut digests: Vec<UserDigest> = Vec::new();
    for i in 0..config.users.len()
        invariant
            now - WINDOW_SECS >= i64::MIN,
            all == digest_starts(config@, date@, now as int),
            ordering::views(digests@) == all.take(i as int),
    {
        let ghost before = ordering::views(digests@);
        let collection = qdrant::write_user_collection(
            config.qdrant.collection.as_str(),
            config.users[i].freshrss_username.as_str(),
        );
        let start = UserDigest {
            user: config.users[i].copy(),
            collection,
            date: date.to_owned(),
            since: now - WINDOW_SECS,
            top_k: config.qdrant.top_k,
            context_window_days: config.qdrant.context_window_days,
            articles: Vec::new(),
            next: 0,
            summaries: Vec::new(),
            stage: Stage::Fetch,
        };
        assert(start@ =~= all[i as int]);
        digests.push(start);
        assert(ordering::views(digests@) =~= before.push(all[i as int]));
        assert(all.take(i + 1) =~= all.take(i as int).push(all[i as int]));
    }
    assert(all.take(all.len() as int) =~= all);
    digests
}

/// The digests of all users, in a run that starts at `now` (Unix seconds): each loads the
/// articles of the last day, and is dated by the day in UTC.
pub fn generate_and_send_digest(config: &AppConfig, now: i64) -> (r: Option<Vec<UserDigest>>)
    requires
        now - WINDOW_SECS >= i64::MIN,
    ensures
        match r {
            Some(digests) => utc_date(now as int) matches Some(date) && ordering::views(digests@)
                == digest_starts(config@, date, now as int),
            None => utc_date(now as int) is None,
        },
{
    match date_text(now) {
        Some(date) => Some(start_digests(config, date.as_str(), now)),
        None => None,
    }
}

/// What is reported of the digests that failed, each after its user's name.
pub open spec fn failures(digests: Seq<UserDigestView>) -> Seq<Seq<char>>
    decreases digests.len(),
{
    if digests.len() == 0 {
        Seq::empty()
    } else {
        let before = failures(digests.drop_last());
        match digests.last().stage {
            StageView::Finished { outcome: OutcomeView::Failed { message } } => before.push(
                digests.last().user.name + ": "@ + message,
            ),
            _ => before,
        }
    }
}

/// How a run went: well unless a digest failed, and else with a report of each that did.
pub fn run_result(digests: &Vec<UserDigest>) -> (r: Result<(), String>)
    ensures
        match r {
            Ok(()) => failures(ordering::views(digests@)).len() == 0,
            Err(report) => failures(ordering::views(digests@)).len() > 0 && report@
                == text::joined(failures(ordering::views(digests@)), "; "@),
        },
{
    let ghost all = ordering::views(digests@);
    let mut reports: Vec<String> = Vec::new();
    assert(text::texts(reports@) == failures(all.take(0)));
    for i in 0..digests.len()
        invariant
            all == ordering::views(digests@),
            text::texts(reports@) == failures(all.take(i as int)),
    {
        let ghost before = text::texts(reports@);
        assert(all.take(i + 1).drop_last() == all.take(i as int));
        assert(all.take(i + 1).last() == digests@[i as int]@);
        if let Stage::Finished { outcome: Outcome::Failed { message } } = &digests[i].stage {
            let report = digests[i].user.name.clone().concat(": ").concat(message.as_str());
            reports.push(report);
            assert(text::texts(reports@) =~= before.push(report@));
        }
    }
    assert(all.take(all.len() as int) == all);
    if reports.len() == 0 {
        Ok(())
    } else {
        Err(text::join(&reports, "; "))
    }
}

/// Users are served independently: the digest of a user starts the same whoever the other
/// users are, and every user has one.
pub proof fn law_users_are_independent(
    config: AppConfigView,
    others: Seq<UserConfigView>,
    date: Seq<char>,
    now: int,
    i: int,
)
    requires
        0 <= i < config.users.len(),
        i < others.len(),
        others[i] == config.users[i],
    ensures
        digest_starts(config, date, now).len() == config.users.len(),
        digest_starts(config, date, now)[i].user == config.users[i],
        digest_starts(config, date, now)[i] == digest_starts(
            AppConfigView { users: others, ..config },
            date,
            now,
        )[i],
{
}

/// Every user has a vector-store namespace of their own: whatever happens, a digest reads and
/// writes the collection that is named after its user, and users of different names never
/// share one.
pub proof fn law_users_keep_to_their_collections(
    config: AppConfigView,
    date: Seq<char>,
    now: int,
    i: int,
    j: int,
    events: Seq<DigestEventView>,
    others: Seq<DigestEventView>,
)
    requires
        0 <= i < config.users.len(),
        0 <= j < config.users.len(),
    ensures
        ({
            let own = digest_starts(config, date, now)[i].run(events).action();
            let other = digest_starts(config, date, now)[j].run(others).action();
            &&& own matches Some(action) ==> action.collection() is None || action.collection()
                == Some(
                qdrant::user_collection(
                    config.qdrant.collection,
                    config.users[i].freshrss_username,
                ),
            )
            &&& own is Some && other is Some && own->0.collection() is Some
                && config.users[i].freshrss_username != config.users[j].freshrss_username
                ==> own->0.collection() != other->0.collection()
        }),
{
    let starts = digest_starts(config, date, now);
    user_digest::law_digest_concerns_its_user(starts[i], events);
    user_digest::law_digest_concerns_its_user(starts[j], others);
    if config.users[i].freshrss_username != config.users[j].freshrss_username {
        qdrant::law_users_have_separate_collections(
            config.qdrant.collection,
            config.users[i].freshrss_username,
            config.users[j].freshrss_username,
        );
    }
}

/// A run goes wrong just where some user's digest failed: marks that could not be set do not
/// make it go wrong.
pub proof fn law_run_fails_only_by_failed_digests(digests: Seq<UserDigestView>)
    ensures
        failures(digests).len() > 0 <==> exists|i: int|
            0 <= i < digests.len() && (#[trigger] digests[i]).failed(),
    decreases digests.len(),
{
    if digests.len() > 0 {
        let shorter = digests.drop_last();
        law_run_fails_only_by_failed_digests(shorter);
        if exists|i: int|
            0 <= i < shorter.len() && (#[trigger] shorter[i]).failed() {
            let i = choose|i: int|
                0 <= i < shorter.len() && (#[trigger] shorter[i]).failed();
            assert(digests[i] == shorter[i]);
        }
        if exists|i: int|
            0 <= i < digests.len() && (#[trigger] digests[i]).failed() {
            let i = choose|i: int|
                0 <= i < digests.len() && (#[trigger] digests[i]).failed();
            if i < shorter.len() {
                assert(digests[i] == shorter[i]);
            }
        }
    }
}

proof fn lemma_summaries_in(articles: Seq<JsonView>, i: int)
    requires
        0 <= i < articles.len(),
        articles[i].member_text("summary"@) is Some,
    ensures
        exists|k: int|
            0 <= k < summaries_in(articles).len() && #[trigger] summaries_in(articles)[k]
                == articles[i].member_text("summary"@)->0,
    decreases articles.len(),
{
    let shorter = articles.drop_last();
    let all = summaries_in(articles);
    if i == articles.len() - 1 {
        assert(all[all.len() - 1] == articles[i].member_text("summary"@)->0);
    } else {
        lemma_summaries_in(shorter, i);
        let before = summaries_in(shorter);
        let k = choose|k: int|
            0 <= k < before.len() && #[trigger] before[k] == shorter[i].member_text("summary"@)->0;
        assert(all[k] == before[k]);
    }
}

/// Each summary of the stored articles is among the paragraphs.
pub proof fn law_paragraphs_hold_every_summary(articles: Seq<JsonView>, i: int)
    requires
        0 <= i < articles.len(),
        articles[i].member_text("summary"@) is Some,
    ensures
        text::occurs(articles[i].member_text("summary"@)->0, paragraphs(articles)),
{
    lemma_summaries_in(articles, i);
    let all = summaries_in(articles);
    let k = choose|k: int|
        0 <= k < all.len() && #[trigger] all[k] == articles[i].member_text("summary"@)->0;
    text::law_join_holds_every_part(all, "\n\n"@, k);
}

/// One more article adds its summary as a paragraph where it stands, behind the others or in
/// front of them, and nothing where it has none.
pub proof fn law_paragraphs_go_in_order(articles: Seq<JsonView>, next: JsonView, i: int)
    requires
        0 <= i < articles.len(),
        articles[i].member_text("summary"@) is Some,
    ensures
        next.member_text("summary"@) matches Some(s) ==> paragraphs(articles.push(next))
            == paragraphs(articles) + "\n\n"@ + s,
        next.member_text("summary"@) is None ==> paragraphs(articles.push(next)) == paragraphs(
            articles,
        ),
        next.member_text("summary"@) matches Some(s) ==> paragraphs(seq![next]) == s,
        paragraphs(Seq::empty()) == Seq::<char>::empty(),
        paragraphs(seq![next] + articles) == if next.member_text("summary"@) is Some {
            next.member_text("summary"@)->0 + "\n\n"@ + paragraphs(articles)
        } else {
            paragraphs(articles)
        },
{
    lemma_summary_in_front(next, articles);
    lemma_summaries_in(articles, i);
    let front = summaries_in(articles);
    let more = articles.push(next);
    assert(more.drop_last() =~= articles);
    assert(front.len() > 0);
    if let Some(s) = next.member_text("summary"@) {
        text::law_join_puts_separators_between(front, seq![s], "\n\n"@);
        assert(front + seq![s] =~= summaries_in(more));
        assert(text::joined(seq![s], "\n\n"@) == s);
        let one = seq![next];
        assert(one.drop_last() =~= Seq::<JsonView>::empty());
        assert(summaries_in(one.drop_last()) =~= Seq::<Seq<char>>::empty());
        assert(summaries_in(one) =~= seq![s]);
        text::law_join_puts_separators_between(seq![s], front, "\n\n"@);
    } else {
        assert(Seq::<Seq<char>>::empty() + front =~= front);
    }
}

proof fn lemma_summary_in_front(next: JsonView, articles: Seq<JsonView>)
    ensures
        summaries_in(seq![next] + articles) == if next.member_text("summary"@) is Some {
            seq![next.member_text("summary"@)->0]
        } else {
            Seq::empty()
        } + summaries_in(articles),
    decreases articles.len(),
{
    let all = seq![next] + articles;
    reveal_with_fuel(summaries_in, 2);
    if articles.len() > 0 {
        lemma_summary_in_front(next, articles.drop_last());
        assert(all.drop_last() =~= seq![next] + articles.drop_last());
        assert(all.last() == articles.last());
        assert(summaries_in(all) =~= if next.member_text("summary"@) is Some {
            seq![next.member_text("summary"@)->0]
        } else {
            Seq::empty()
        } + summaries_in(articles));
    } else {
        assert(all =~= seq![next]);
        assert(all.drop_last() =~= Seq::<JsonView>::empty());
        assert(summaries_in(all) =~= if next.member_text("summary"@) is Some {
            seq![next.member_text("summary"@)->0]
        } else {
            Seq::empty()
        } + summaries_in(articles));
    }
}

proof fn lemma_context_lines(articles: Seq<JsonView>, i: int)
    requires
        0 <= i < articles.len(),
        text_at(articles[i], "summary"@).len() > 0,
    ensures
        exists|k: int|
            0 <= k < context_lines(articles).len() && #[trigger] context_lines(articles)[k]
                == context_line(articles[i]),
    decreases articles.len(),
{
    let shorter = articles.drop_last();
    let all = context_lines(articles);
    if i == articles.len() - 1 {
        assert(all[all.len() - 1] == context_line(articles[i]));
    } else {
        lemma_context_lines(shorter, i);
        let before = context_lines(shorter);
        let k = choose|k: int|
            0 <= k < before.len() && #[trigger] before[k] == context_line(shorter[i]);
        assert(all[k] == before[k]);
    }
}

proof fn lemma_context_holds_sections(semantic: Seq<JsonView>, recent: Seq<JsonView>)
    ensures
        text::occurs(paragraphs(semantic), combined_context(semantic, recent)),
        text::occurs(
            text::joined(context_lines(recent), "\n"@),
            combined_context(semantic, recent),
        ),
{
    let none = Seq::<char>::empty();
    let related = paragraphs(semantic);
    let lines = text::joined(context_lines(recent), "\n"@);
    let first = section("## Related Past Articles\n"@, related);
    let second = section("## Recent Digest Context\n"@, lines);
    let parts = first + second;
    let all = combined_context(semantic, recent);
    assert(all.subrange(0, 0) =~= none);
    if related.len() > 0 {
        assert(parts[0] == first[0]);
        text::law_join_holds_every_part(parts, "\n\n"@, 0);
        text::lemma_occurs_between("## Related Past Articles\n"@, related, none);
        assert("## Related Past Articles\n"@ + related + none =~= parts[0]);
        lemma_occurs_in_occurring(related, parts[0], all);
    } else {
        assert(related =~= none);
        assert(all.subrange(0, 0int + related.len()) == related);
    }
    if lines.len() > 0 {
        let k = parts.len() - 1;
        assert(parts[k] == second[0]);
        text::law_join_holds_every_part(parts, "\n\n"@, k);
        text::lemma_occurs_between("## Recent Digest Context\n"@, lines, none);
        assert("## Recent Digest Context\n"@ + lines + none =~= parts[k]);
        lemma_occurs_in_occurring(lines, parts[k], all);
    } else {
        assert(lines =~= none);
        assert(all.subrange(0, 0int + lines.len()) == lines);
    }
}

/// What stands in a text that stands in another stands in that one.
pub proof fn lemma_occurs_in_occurring(pat: Seq<char>, part: Seq<char>, s: Seq<char>)
    requires
        text::occurs(pat, part),
        text::occurs(part, s),
    ensures
        text::occurs(pat, s),
{
    let i = choose|i: int|
        0 <= i <= s.len() - part.len() && #[trigger] s.subrange(i, i + part.len()) == part;
    text::lemma_occurs_within(pat, s.take(i), part, s.skip(i + part.len()));
    assert(s.take(i) + part + s.skip(i + part.len()) =~= s);
}

/// The context tells of every related article: each summary that one has stands in it.
pub proof fn law_context_tells_of_related_articles(
    semantic: Seq<JsonView>,
    recent: Seq<JsonView>,
    i: int,
)
    requires
        0 <= i < semantic.len(),
        semantic[i].member_text("summary"@) is Some,
    ensures
        text::occurs(semantic[i].member_text("summary"@)->0, combined_context(semantic, recent)),
{
    law_paragraphs_hold_every_summary(semantic, i);
    lemma_context_holds_sections(semantic, recent);
    lemma_occurs_in_occurring(
        semantic[i].member_text("summary"@)->0,
        paragraphs(semantic),
        combined_context(semantic, recent),
    );
}

/// Each of three parts stands in a line that is made of them.
pub proof fn lemma_line_holds_its_parts(
    a: Seq<char>,
    title: Seq<char>,
    b: Seq<char>,
    date: Seq<char>,
    c: Seq<char>,
    summary: Seq<char>,
)
    ensures
        text::occurs(title, a + title + b + date + c + summary),
        text::occurs(date, a + title + b + date + c + summary),
        text::occurs(summary, a + title + b + date + c + summary),
{
    let line = a + title + b + date + c + summary;
    text::lemma_occurs_between(a, title, b + date + c + summary);
    assert(a + title + (b + date + c + summary) =~= line);
    text::lemma_occurs_between(a + title + b, date, c + summary);
    assert(a + title + b + date + (c + summary) =~= line);
    text::lemma_occurs_between(a + title + b + date + c, summary, Seq::empty());
    assert(a + title + b + date + c + summary + Seq::empty() =~= line);
}

/// The context tells of every recent article that has a summary: its title, the date of its
/// digest and its summary stand in it, in one line. A title or date that is not stored is
/// empty there.
pub proof fn law_context_tells_of_recent_articles(
    semantic: Seq<JsonView>,
    recent: Seq<JsonView>,
    i: int,
    title: Seq<char>,
    date: Seq<char>,
    summary: Seq<char>,
)
    requires
        0 <= i < recent.len(),
        recent[i].member_text("title"@) == Some(title) || recent[i].member_text("title"@) is None
            && title.len() == 0,
        recent[i].member_text("digest_date"@) == Some(date) || recent[i].member_text(
            "digest_date"@,
        ) is None && date.len() == 0,
        recent[i].member_text("summary"@) == Some(summary),
        summary.len() > 0,
    ensures
        text::occurs(
            "- **"@ + title + "** ("@ + date + "): "@ + summary,
            combined_context(semantic, recent),
        ),
        text::occurs(title, combined_context(semantic, recent)),
        text::occurs(date, combined_context(semantic, recent)),
        text::occurs(summary, combined_context(semantic, recent)),
{
    let all = combined_context(semantic, recent);
    let lines = context_lines(recent);
    let line = "- **"@ + title + "** ("@ + date + "): "@ + summary;
    lemma_context_lines(recent, i);
    let k = choose|k: int|
        0 <= k < lines.len() && #[trigger] lines[k] == context_line(recent[i]);
    assert(text_at(recent[i], "title"@) =~= title);
    assert(text_at(recent[i], "digest_date"@) =~= date);
    assert(lines[k] == line);
    text::law_join_holds_every_part(lines, "\n"@, k);
    lemma_context_holds_sections(semantic, recent);
    lemma_occurs_in_occurring(line, text::joined(lines, "\n"@), all);
    lemma_line_holds_its_parts("- **"@, title, "** ("@, date, "): "@, summary);
    lemma_occurs_in_occurring(title, line, all);
    lemma_occurs_in_occurring(date, line, all);
    lemma_occurs_in_occurring(summary, line, all);
}

/// Where no article has a summary to tell of, the context is empty.
pub proof fn law_context_of_nothing_is_empty(semantic: Seq<JsonView>, recent: Seq<JsonView>)
    requires
        forall|i: int|
            0 <= i < semantic.len() ==> (#[trigger] semantic[i]).member_text("summary"@) is None,
        forall|i: int|
            0 <= i < recent.len() ==> (#[trigger] recent[i]).member_text("summary"@) is None,
    ensures
        combined_context(semantic, recent) == Seq::<char>::empty(),
{
    lemma_no_summaries(semantic);
    lemma_no_lines(recent);
    assert(section("## Related Past Articles\n"@, paragraphs(semantic)) + section(
        "## Recent Digest Context\n"@,
        text::joined(context_lines(recent), "\n"@),
    ) =~= Seq::<Seq<char>>::empty());
}

proof fn lemma_no_summaries(articles: Seq<JsonView>)
    requires
        forall|i: int|
            0 <= i < articles.len() ==> (#[trigger] articles[i]).member_text("summary"@) is None,
    ensures
        summaries_in(articles).len() == 0,
    decreases articles.len(),
{
    if articles.len() > 0 {
        let shorter = articles.drop_last();
        assert forall|i: int| 0 <= i < shorter.len() implies (#[trigger] shorter[i]).member_text(
            "summary"@,
        ) is None by {
            assert(articles[i].member_text("summary"@) is None);
        }
        assert(articles[articles.len() - 1].member_text("summary"@) is None);
        lemma_no_summaries(shorter);
    }
}

proof fn lemma_no_lines(articles: Seq<JsonView>)
    requires
        forall|i: int|
            0 <= i < articles.len() ==> (#[trigger] articles[i]).member_text("summary"@) is None,
    ensures
        context_lines(articles).len() == 0,
    decreases articles.len(),
{
    if articles.len() > 0 {
        let shorter = articles.drop_last();
        assert forall|i: int| 0 <= i < shorter.len() implies (#[trigger] shorter[i]).member_text(
            "summary"@,
        ) is None by {
            assert(articles[i].member_text("summary"@) is None);
        }
        assert(articles[articles.len() - 1].member_text("summary"@) is None);
        lemma_no_lines(shorter);
    }
}

/// One more recent article adds its line behind the others where it has a summary, and else
/// nothing.
pub proof fn law_context_grows_in_order(recent: Seq<JsonView>, next: JsonView, i: int)
    requires
        0 <= i < recent.len(),
        recent[i].member_text("summary"@) is Some,
        recent[i].member_text("summary"@)->0.len() > 0,
    ensures
        ({
            let before = combined_context(Seq::empty(), recent);
            let after = combined_context(Seq::empty(), recent.push(next));
            &&& next.member_text("summary"@) is None || next.member_text("summary"@)->0.len() == 0
                ==> after == before
            &&& next.member_text("summary"@) is Some && next.member_text("summary"@)->0.len() > 0
                && next.member_text("title"@) is Some && next.member_text("digest_date"@) is Some
                ==> after == before + "\n"@ + ("- **"@ + next.member_text("title"@)->0 + "** ("@
                + next.member_text("digest_date"@)->0 + "): "@ + next.member_text("summary"@)->0)
        }),
{
    let nothing = Seq::<JsonView>::empty();
    let none = Seq::<Seq<char>>::empty();
    let heading = "## Recent Digest Context\n"@;
    let front = context_lines(recent);
    let more = recent.push(next);
    assert(more.drop_last() =~= recent);
    lemma_context_lines(recent, i);
    assert(front.len() > 0);
    assert(summaries_in(nothing) =~= none);
    assert(text::joined(none, "\n\n"@).len() == 0);
    assert(section("## Related Past Articles\n"@, paragraphs(nothing)) =~= none);
    let old_lines = text::joined(front, "\n"@);
    let new_lines = text::joined(context_lines(more), "\n"@);
    lemma_lines_not_empty(recent, i);
    lemma_lone_section(heading, old_lines);
    if text_at(next, "summary"@).len() > 0 {
        let line = context_line(next);
        assert(context_lines(more) =~= front + seq![line]);
        text::law_join_puts_separators_between(front, seq![line], "\n"@);
        assert(new_lines == old_lines + "\n"@ + line);
        lemma_lone_section(heading, new_lines);
        assert(heading + new_lines =~= heading + old_lines + "\n"@ + line);
    } else {
        assert(context_lines(more) == front);
    }
}

proof fn lemma_lone_section(heading: Seq<char>, body: Seq<char>)
    requires
        body.len() > 0,
    ensures
        text::joined(Seq::<Seq<char>>::empty() + section(heading, body), "\n\n"@) == heading
            + body,
{
    assert(Seq::<Seq<char>>::empty() + section(heading, body) =~= seq![heading + body]);
}

proof fn lemma_lines_not_empty(recent: Seq<JsonView>, i: int)
    requires
        0 <= i < recent.len(),
        recent[i].member_text("summary"@) is Some,
        recent[i].member_text("summary"@)->0.len() > 0,
    ensures
        text::joined(context_lines(recent), "\n"@).len() > 0,
{
    lemma_context_lines(recent, i);
    let lines = context_lines(recent);
    let k = choose|k: int|
        0 <= k < lines.len() && #[trigger] lines[k] == context_line(recent[i]);
    text::law_join_holds_every_part(lines, "\n"@, k);
}

/// The report of a run grows by the digests that failed, in order: one that failed adds its
/// user's name and what is reported of it, and any other adds nothing.
pub proof fn law_report_lists_failures_in_order(digests: Seq<UserDigestView>, next: UserDigestView)
    ensures
        failures(Seq::empty()).len() == 0,
        !next.failed() ==> failures(digests.push(next)) == failures(digests),
        next.stage matches StageView::Finished {
            outcome: OutcomeView::Failed { message },
        } ==> failures(digests.push(next)) == failures(digests).push(
            next.user.name + ": "@ + message,
        ),
{
    assert(digests.push(next).drop_last() =~= digests);
}

/// With articles of both kinds, the related ones stand under their heading first, and the
/// recent ones under theirs behind them.
pub proof fn law_context_has_both_sections(semantic: Seq<JsonView>, recent: Seq<JsonView>)
    requires
        combined_context(semantic, Seq::empty()).len() > 0,
        combined_context(Seq::empty(), recent).len() > 0,
    ensures
        combined_context(semantic, recent) == combined_context(semantic, Seq::empty())
            + "\n\n"@ + combined_context(Seq::empty(), recent),
        combined_context(semantic, Seq::empty()) == "## Related Past Articles\n"@ + paragraphs(
            semantic,
        ),
        combined_context(Seq::empty(), recent).take(
            "## Recent Digest Context\n"@.len() as int,
        ) == "## Recent Digest Context\n"@,
{
    let nothing = Seq::<JsonView>::empty();
    let none = Seq::<Seq<char>>::empty();
    let lines = text::joined(context_lines(recent), "\n"@);
    let first = section("## Related Past Articles\n"@, paragraphs(semantic));
    let second = section("## Recent Digest Context\n"@, lines);
    assert(summaries_in(nothing) =~= none);
    assert(context_lines(nothing) =~= none);
    assert(text::joined(none, "\n\n"@).len() == 0 && text::joined(none, "\n"@).len() == 0);
    assert(section("## Related Past Articles\n"@, paragraphs(nothing)) =~= none);
    assert(section("## Recent Digest Context\n"@, text::joined(context_lines(nothing), "\n"@))
        =~= none);
    assert(first + none =~= first);
    assert(none + second =~= second);
    assert(text::joined(first, "\n\n"@).len() > 0);
    assert(text::joined(second, "\n\n"@).len() > 0);
    assert(first.len() == 1) by {
        if first.len() == 0 {
            assert(first =~= none);
        }
    }
    assert(second.len() == 1) by {
        if second.len() == 0 {
            assert(second =~= none);
        }
    }
    text::law_join_puts_separators_between(first, second, "\n\n"@);
    assert(second[0] == "## Recent Digest Context\n"@ + lines);
    assert(("## Recent Digest Context\n"@ + lines).take(
        "## Recent Digest Context\n"@.len() as int,
    ) =~= "## Recent Digest Context\n"@);
}

/// Every user's digest starts with that user, the day's date and the configured search
/// settings, and takes up the articles of the last day.
pub proof fn law_digests_start_with_their_settings(
    config: AppConfigView,
    date: Seq<char>,
    now: int,
    i: int,
)
    requires
        0 <= i < config.users.len(),
    ensures
        ({
            let d = digest_starts(config, date, now)[i];
            &&& d.user == config.users[i]
            &&& d.date == date
            &&& d.since + 24 * 60 * 60 == now
            &&& d.top_k == config.qdrant.top_k
            &&& d.context_window_days == config.qdrant.context_window_days
            &&& d.fresh()
        }),
{
}

/// The report of a run names every user whose digest failed, with what is reported of it.
pub proof fn law_report_names_every_failed_user(
    digests: Seq<UserDigestView>,
    i: int,
    message: Seq<char>,
)
    requires
        0 <= i < digests.len(),
        digests[i].stage == (StageView::Finished { outcome: OutcomeView::Failed { message } }),
    ensures
        text::occurs(
            digests[i].user.name + ": "@ + message,
            text::joined(failures(digests), "; "@),
        ),
{
    lemma_failures(digests, i, message);
    let all = failures(digests);
    let k = choose|k: int|
        0 <= k < all.len() && #[trigger] all[k] == digests[i].user.name + ": "@ + message;
    text::law_join_holds_every_part(all, "; "@, k);
}

proof fn lemma_failures(digests: Seq<UserDigestView>, i: int, message: Seq<char>)
    requires
        0 <= i < digests.len(),
        digests[i].stage == (StageView::Finished { outcome: OutcomeView::Failed { message } }),
    ensures
        exists|k: int|
            0 <= k < failures(digests).len() && #[trigger] failures(digests)[k]
                == digests[i].user.name + ": "@ + message,
    decreases digests.len(),
{
    let shorter = digests.drop_last();
    let all = failures(digests);
    if i == digests.len() - 1 {
        assert(all[all.len() - 1] == digests[i].user.name + ": "@ + message);
    } else {
        lemma_failures(shorter, i, message);
        let before = failures(shorter);
        let k = choose|k: int|
            0 <= k < before.len() && #[trigger] before[k] == shorter[i].user.name + ": "@ + message;
        assert(all[k] == before[k]);
    }
}

} // verus!
