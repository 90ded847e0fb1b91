//! What is stored of an article, and what a search gives back of it.

use crate::config::QdrantConfigView;
use crate::freshrss_fever::ArticleView;
use crate::http::{ReplyErrorView, ReplyView};
use crate::json;
use crate::json::JsonView;
use crate::llm::SummaryView;
use crate::ordering;
use crate::qdrant;
use crate::qdrant::{Distance, HitView, PayloadView, PointIdView};
use crate::summary_update;
use crate::summary_update::{UpdateActionView, UpdateEventView, UpdateStageView, UpdateView};
use crate::text;
use vstd::prelude::*;
use vstd::string::*;

verus! {

/// Whether some hit has the key and the payload of a point.
pub open spec fn payload_in(hits: Seq<HitView>, point: HitView) -> bool {
    exists|i: int|
        0 <= i < hits.len() && (#[trigger] hits[i]).key == point.key && hits[i].payload
            == point.payload
}

/// Whether some hit has the key and the score of a point.
pub open spec fn score_in(hits: Seq<HitView>, point: HitView) -> bool {
    exists|i: int|
        0 <= i < hits.len() && (#[trigger] hits[i]).key == point.key && hits[i].score
            == point.score
}

proof fn lemma_in_longer(hits: Seq<HitView>, point: HitView)
    requires
        hits.len() > 0,
    ensures
        payload_in(hits.drop_last(), point) ==> payload_in(hits, point),
        score_in(hits.drop_last(), point) ==> score_in(hits, point),
        hits.last().key == point.key && hits.last().payload == point.payload ==> payload_in(
            hits,
            point,
        ),
        hits.last().key == point.key && hits.last().score == point.score ==> score_in(hits, point),
{
    let shorter = hits.drop_last();
    if payload_in(shorter, point) {
        let i = choose|i: int|
            0 <= i < shorter.len() && (#[trigger] shorter[i]).key == point.key
                && shorter[i].payload == point.payload;
        assert(hits[i] == shorter[i]);
    }
    if score_in(shorter, point) {
        let i = choose|i: int|
            0 <= i < shorter.len() && (#[trigger] shorter[i]).key == point.key && shorter[i].score
                == point.score;
        assert(hits[i] == shorter[i]);
    }
    assert(hits[hits.len() - 1] == hits.last());
}

proof fn lemma_first_points_are_hits(original: Seq<HitView>, k: int)
    requires
        0 <= k < qdrant::first_points(original).len(),
    ensures
        payload_in(original, qdrant::first_points(original)[k]),
        score_in(original, qdrant::first_points(original)[k]),
    decreases original.len(),
{
    let point = qdrant::first_points(original)[k];
    let shorter = original.drop_last();
    let before = qdrant::first_points(shorter);
    qdrant::lemma_position(before, original.last().key);
    lemma_in_longer(original, point);
    if point != original.last() {
        assert(point == before[k]);
        lemma_first_points_are_hits(shorter, k);
    }
}

/// Every merged point carries what is stored of it: the payload of a hit of the same point,
/// and a score that a hit of the same point has.
pub proof fn law_merged_points_carry_their_payload(
    original: Seq<HitView>,
    translated: Seq<HitView>,
    k: int,
)
    requires
        0 <= k < qdrant::merged(original, translated).len(),
    ensures
        ({
            let point = qdrant::merged(original, translated)[k];
            &&& payload_in(original, point) || payload_in(translated, point)
            &&& score_in(original, point) || score_in(translated, point)
        }),
    decreases translated.len(),
{
    let point = qdrant::merged(original, translated)[k];
    if translated.len() == 0 {
        lemma_first_points_are_hits(original, k);
    } else {
        let shorter = translated.drop_last();
        let hit = translated.last();
        let before = qdrant::merged(original, shorter);
        qdrant::lemma_position(before, hit.key);
        lemma_in_longer(translated, point);
        if k < before.len() {
            law_merged_points_carry_their_payload(original, shorter, k);
            lemma_in_longer(translated, before[k]);
            assert(point.key == before[k].key);
            assert(point.payload == before[k].payload);
            assert(payload_in(original, before[k]) ==> payload_in(original, point));
            assert(payload_in(translated, before[k]) ==> payload_in(translated, point));
            if point.score == before[k].score {
                assert(score_in(original, before[k]) ==> score_in(original, point));
                assert(score_in(translated, before[k]) ==> score_in(translated, point));
            }
        }
    }
}

/// A point that only the second search found, once, is merged as that search found it, with
/// its score and its payload.
pub proof fn law_second_search_adds_its_points(
    original: Seq<HitView>,
    translated: Seq<HitView>,
    j: int,
)
    requires
        0 <= j < translated.len(),
        !qdrant::holds_key(original, translated[j].key),
        forall|i: int|
            0 <= i < translated.len() && i != j ==> (#[trigger] translated[i]).key
                != translated[j].key,
    ensures
        qdrant::merged(original, translated).contains(translated[j]),
    decreases translated.len(),
{
    let shorter = translated.drop_last();
    let hit = translated.last();
    let before = qdrant::merged(original, shorter);
    let all = qdrant::merged(original, translated);
    qdrant::lemma_position(before, hit.key);
    qdrant::law_merge_keeps_every_point(original, shorter);
    if j == translated.len() - 1 {
        if qdrant::holds_key(shorter, hit.key) {
            let i = choose|i: int|
                0 <= i < shorter.len() && (#[trigger] shorter[i]).key == hit.key;
            assert(translated[i].key == hit.key);
        }
        assert(!qdrant::holds_key(before, hit.key));
        if qdrant::position(before, hit.key) is Some {
            assert(before[qdrant::position(before, hit.key)->0].key == hit.key);
        }
        assert(all[all.len() - 1] == hit);
    } else {
        assert(shorter[j] == translated[j]);
        assert forall|i: int| 0 <= i < shorter.len() && i != j implies (#[trigger] shorter[i]).key
            != shorter[j].key by {
            assert(translated[i].key != translated[j].key);
        }
        law_second_search_adds_its_points(original, shorter, j);
        let k = choose|k: int| 0 <= k < before.len() && before[k] == translated[j];
        assert(translated[translated.len() - 1].key != translated[j].key);
        assert(all[k] == translated[j]);
    }
}

/// The points of the first search come first, in its order, and keep the payload that it
/// gave them; one that only it found keeps its score too.
pub proof fn law_first_search_leads(original: Seq<HitView>, translated: Seq<HitView>, i: int)
    requires
        qdrant::distinct_keys(original),
        0 <= i < original.len(),
    ensures
        i < qdrant::merged(original, translated).len(),
        qdrant::merged(original, translated)[i].key == original[i].key,
        qdrant::merged(original, translated)[i].payload == original[i].payload,
        !qdrant::holds_key(translated, original[i].key) ==> qdrant::merged(
            original,
            translated,
        )[i] == original[i],
    decreases translated.len(),
{
    if translated.len() == 0 {
        qdrant::law_distinct_hits_are_kept(original);
    } else {
        let shorter = translated.drop_last();
        let before = qdrant::merged(original, shorter);
        law_first_search_leads(original, shorter, i);
        qdrant::lemma_position(before, translated.last().key);
        if !qdrant::holds_key(translated, original[i].key) {
            assert(translated[translated.len() - 1].key != original[i].key);
            if qdrant::holds_key(shorter, original[i].key) {
                let j = choose|j: int|
                    0 <= j < shorter.len() && (#[trigger] shorter[j]).key == original[i].key;
                assert(translated[j].key == original[i].key);
            }
        }
    }
}

/// A point that the first search finds again is merged as it was found last, and no other
/// point is touched.
pub proof fn law_last_hit_of_a_search_counts(original: Seq<HitView>, hit: HitView, k: int)
    requires
        0 <= k < qdrant::first_points(original).len(),
    ensures
        qdrant::first_points(original.push(hit)).contains(hit),
        qdrant::first_points(original)[k].key != hit.key ==> qdrant::first_points(
            original.push(hit),
        )[k] == qdrant::first_points(original)[k],
{
    let before = qdrant::first_points(original);
    let all = qdrant::first_points(original.push(hit));
    assert(original.push(hit).drop_last() =~= original);
    qdrant::lemma_position(before, hit.key);
    match qdrant::position(before, hit.key) {
        Some(i) => {
            assert(all[i] == hit);
        },
        None => {
            assert(all[all.len() - 1] == hit);
        },
    }
}

/// A second hit of a point raises its score where it scores higher, and does nothing else;
/// what is no number is never higher.
pub proof fn law_second_hit_only_raises_the_score(
    original: Seq<HitView>,
    translated: Seq<HitView>,
    hit: HitView,
    k: int,
)
    requires
        0 <= k < qdrant::merged(original, translated).len(),
    ensures
        ({
            let before = qdrant::merged(original, translated)[k];
            let after = qdrant::merged(original, translated.push(hit))[k];
            &&& after.key == before.key
            &&& after.payload == before.payload
            &&& before.key != hit.key ==> after == before
            &&& hit.score is None || before.score is None ==> after == before
            &&& before.key == hit.key && hit.score is Some && before.score is Some ==> after.score
                == Some(
                if hit.score->0 > before.score->0 {
                    hit.score->0
                } else {
                    before.score->0
                },
            )
        }),
{
    let before = qdrant::merged(original, translated);
    assert(translated.push(hit).drop_last() =~= translated);
    qdrant::lemma_position(before, hit.key);
    qdrant::law_merge_keeps_every_point(original, translated);
    if before[k].key == hit.key {
        let p = qdrant::position(before, hit.key)->0;
        assert(p == k) by {
            if p < k {
                assert(before[p].key != before[k].key);
            }
            if k < p {
                assert(before[k].key != before[p].key);
            }
        }
    }
}

/// What a search gives is stored: each payload is that of a hit of one of the searches.
pub proof fn law_found_articles_are_stored_ones(
    original: Seq<HitView>,
    translated: Seq<HitView>,
    top_k: int,
    k: int,
)
    requires
        0 <= top_k,
        0 <= k < qdrant::best_points(original, translated, top_k).len(),
    ensures
        ({
            let found = qdrant::payloads(qdrant::best_points(original, translated, top_k));
            let best = qdrant::best_points(original, translated, top_k);
            &&& found.len() == best.len()
            &&& found[k] == best[k].payload
            &&& qdrant::merged(original, translated).len() >= top_k ==> best.len() == top_k
            &&& (exists|i: int|
                0 <= i < original.len() && (#[trigger] original[i]).payload == found[k]) || (
            exists|i: int|
                0 <= i < translated.len() && (#[trigger] translated[i]).payload == found[k])
        }),
{
    broadcast use vstd::seq_lib::group_to_multiset_ensures;

    let all = qdrant::merged(original, translated);
    let sorted = ordering::largest_first(all, qdrant::by_score());
    let best = qdrant::best_points(original, translated, top_k);
    ordering::law_largest_first_sorts(all, qdrant::by_score());
    assert(best[k] == sorted[k]);
    assert(sorted.contains(best[k]));
    assert(sorted.to_multiset().count(best[k]) > 0);
    assert(all.contains(best[k]));
    let p = choose|p: int| 0 <= p < all.len() && all[p] == best[k];
    law_merged_points_carry_their_payload(original, translated, p);
    if payload_in(original, all[p]) {
        let i = choose|i: int|
            0 <= i < original.len() && (#[trigger] original[i]).key == all[p].key
                && original[i].payload == all[p].payload;
        assert(original[i].payload == best[k].payload);
    } else {
        let i = choose|i: int|
            0 <= i < translated.len() && (#[trigger] translated[i]).key == all[p].key
                && translated[i].payload == all[p].payload;
        assert(translated[i].payload == best[k].payload);
    }
}

/// Points are ordered by their scores as numbers: of two points with scores, the one with
/// the higher score ranks higher. Points without a score stand in the way of an order, but
/// for one point alone.
pub proof fn law_points_rank_by_score(a: HitView, b: HitView, points: Seq<HitView>, i: int)
    ensures
        a.score is Some && b.score is Some ==> ((qdrant::by_score())(a) > (qdrant::by_score())(b)
            <==> a.score->0 > b.score->0),
        qdrant::higher(a.score, b.score) <==> a.score is Some && b.score is Some && a.score->0
            > b.score->0,
        points.len() > 1 && 0 <= i < points.len() && points[i].score is None
            ==> !qdrant::comparable(points),
        points.len() <= 1 ==> qdrant::comparable(points),
        (forall|j: int| 0 <= j < points.len() ==> (#[trigger] points[j]).score is Some)
            ==> qdrant::comparable(points),
{
}

/// Scores have places in the order of the numbers: the larger of two positive bit patterns
/// is the higher score, the sign bit turns a place to its opposite, both zeros have the same
/// place, and a pattern above infinity is no number.
pub proof fn law_scores_have_places_in_order(a: u32, b: u32)
    requires
        a < 0x8000_0000,
        b < 0x8000_0000,
    ensures
        qdrant::score_place(a) is Some <==> a <= 0x7f80_0000,
        qdrant::score_place(a) is Some ==> qdrant::score_place(a)->0 >= 0,
        a < b <= 0x7f80_0000 ==> qdrant::score_place(a)->0 < qdrant::score_place(b)->0,
        qdrant::score_place(0) == Some(0int),
        qdrant::score_place((a + 0x8000_0000) as u32) is Some <==> qdrant::score_place(a) is Some,
        qdrant::score_place(a) is Some ==> qdrant::score_place((a + 0x8000_0000) as u32)->0
            == -qdrant::score_place(a)->0,
{
}

/// Points with different numbers have different keys, and one with a UUID has that for its
/// key.
pub proof fn law_points_have_their_own_keys(n: u64, m: u64, uuid: Seq<char>)
    ensures
        n != m ==> qdrant::point_key(Some(PointIdView::Num(n))) != qdrant::point_key(
            Some(PointIdView::Num(m)),
        ),
        qdrant::point_key(Some(PointIdView::Uuid(uuid))) == uuid,
        qdrant::point_key(Some(PointIdView::Num(n))) == "num:"@ + text::decimal(n as nat),
        qdrant::point_key(None) == "unknown"@,
{
    let a = "num:"@ + text::decimal(n as nat);
    let b = "num:"@ + text::decimal(m as nat);
    text::law_decimal_reads_back(n as nat);
    text::law_decimal_reads_back(m as nat);
    if a == b {
        assert(a.skip("num:"@.len() as int) =~= text::decimal(n as nat));
        assert(b.skip("num:"@.len() as int) =~= text::decimal(m as nat));
    }
}

/// The value of an optional text in a document.
pub open spec fn told(value: Option<JsonView>, o: Option<Seq<char>>) -> bool {
    &&& o matches Some(s) ==> value == Some(JsonView::Text(s))
    &&& o is None ==> value == Some(JsonView::Null)
}

/// The names of a stored point's members, told apart.
proof fn lemma_payload_names()
    ensures
        "title"@.len() == 5,
        "url"@.len() == 3,
        "feed_title"@.len() == 10,
        "feed_url"@.len() == 8,
        "author"@.len() == 6,
        "content"@.len() == 7,
        "summary"@.len() == 7,
        "content"@ != "summary"@,
        "translated_summary"@.len() == 18,
        "published"@.len() == 9,
        "digest_date"@.len() == 11,
{
    reveal_strlit("title");
    reveal_strlit("url");
    reveal_strlit("feed_title");
    reveal_strlit("feed_url");
    reveal_strlit("author");
    reveal_strlit("content");
    reveal_strlit("summary");
    reveal_strlit("translated_summary");
    reveal_strlit("published");
    reveal_strlit("digest_date");
    assert("content"@[0] == 'c');
    assert("summary"@[0] == 's');
}

/// A payload is written with each of its values under its own name.
pub proof fn law_payload_document_holds_its_values(payload: PayloadView)
    ensures
        ({
            let d = payload.document();
            &&& d.member("title"@) == Some(JsonView::Text(payload.title))
            &&& d.member("url"@) == Some(JsonView::Text(payload.url))
            &&& d.member("feed_title"@) == Some(JsonView::Text(payload.feed_title))
            &&& told(d.member("feed_url"@), payload.feed_url)
            &&& told(d.member("author"@), payload.author)
            &&& d.member("content"@) == Some(JsonView::Text(payload.content))
            &&& told(d.member("summary"@), payload.summary)
            &&& told(d.member("translated_summary"@), payload.translated_summary)
            &&& d.member("published"@) == Some(JsonView::Number(payload.published))
            &&& d.member("digest_date"@) == Some(JsonView::Text(payload.digest_date))
        }),
{
    lemma_payload_names();
    let entries = payload.document()->Object_0;
    json::law_first_entry_is_the_member(entries, 0);
    json::law_first_entry_is_the_member(entries, 1);
    json::law_first_entry_is_the_member(entries, 2);
    json::law_first_entry_is_the_member(entries, 3);
    json::law_first_entry_is_the_member(entries, 4);
    json::law_first_entry_is_the_member(entries, 5);
    json::law_first_entry_is_the_member(entries, 6);
    json::law_first_entry_is_the_member(entries, 7);
    json::law_first_entry_is_the_member(entries, 8);
    json::law_first_entry_is_the_member(entries, 9);
}

/// Whether a stored document passes a filter: each of its conditions names a member that is
/// the text that goes with it.
pub open spec fn passes(document: JsonView, filter: Seq<(Seq<char>, Seq<char>)>) -> bool {
    forall|i: int|
        0 <= i < filter.len() ==> document.member_text((#[trigger] filter[i]).0) == Some(
            filter[i].1,
        )
}

/// The point that is stored of an article holds the article's values, each under its own
/// name, and has the article's id. It passes the filter by which the article's summary is
/// written later.
pub proof fn law_stored_point_holds_the_article(
    article: ArticleView,
    summary: Option<Seq<char>>,
    translated_summary: Option<Seq<char>>,
    digest_date: Seq<char>,
)
    ensures
        ({
            let point = qdrant::article_point(article, summary, translated_summary, digest_date);
            let d = point.payload.document();
            &&& point.id == article.id
            &&& d.member_text("title"@) == Some(article.title)
            &&& d.member_text("url"@) == Some(article.url)
            &&& d.member_text("feed_title"@) == Some(article.feed_title)
            &&& told(d.member("feed_url"@), article.feed_url)
            &&& told(d.member("author"@), article.author)
            &&& d.member_text("content"@) == Some(article.content)
            &&& told(d.member("summary"@), summary)
            &&& told(d.member("translated_summary"@), translated_summary)
            &&& d.member("published"@) == Some(JsonView::Number(article.published))
            &&& d.member_text("digest_date"@) == Some(digest_date)
            &&& passes(d, summary_update::article_filter(article.url, digest_date))
        }),
{
    let point = qdrant::article_point(article, summary, translated_summary, digest_date);
    law_payload_document_holds_its_values(point.payload);
}

/// The filter of an article's point has two conditions, on its address and on its date: a
/// document with another address or date does not pass.
pub proof fn law_filter_finds_one_article(
    document: JsonView,
    url: Seq<char>,
    digest_date: Seq<char>,
)
    ensures
        passes(document, summary_update::article_filter(url, digest_date)) <==> (
        document.member_text("url"@) == Some(url) && document.member_text("digest_date"@) == Some(
            digest_date,
        )),
{
    let filter = summary_update::article_filter(url, digest_date);
    assert(filter[0] == ("url"@, url));
    assert(filter[1] == ("digest_date"@, digest_date));
    assert(filter.len() == 2);
    if passes(document, filter) {
        assert(document.member_text(filter[0].0) == Some(filter[0].1));
        assert(document.member_text(filter[1].0) == Some(filter[1].1));
    }
}

/// A stored point has a vector for its title and the front of its content, five hundred
/// characters at most, and a second one for the translation just where there is one.
pub proof fn law_stored_point_embeds_title_and_translation(
    article: ArticleView,
    summary: Option<Seq<char>>,
    translated_summary: Option<Seq<char>>,
    digest_date: Seq<char>,
)
    ensures
        ({
            let vectors = qdrant::article_point(
                article,
                summary,
                translated_summary,
                digest_date,
            ).vectors;
            let bare = text::trimmed(article.content);
            &&& vectors[0].0 == "summary_vector"@
            &&& bare.len() <= 500 ==> vectors[0].1 == article.title + " "@ + bare
            &&& bare.len() > 500 ==> vectors[0].1 == article.title + " "@ + bare.take(500)
            &&& translated_summary is None ==> vectors.len() == 1
            &&& translated_summary matches Some(t) ==> vectors.len() == 2 && vectors[1] == (
                "translated_summary_vector"@,
                t,
            )
        }),
{
}

/// An embedding is asked for with the model that is configured and the text, and is read
/// from where the reply holds it.
pub proof fn law_embedding_request_holds_its_text(config: QdrantConfigView, input: Seq<char>)
    ensures
        ({
            let post = qdrant::embedding_post(config, input);
            let d = post.body->Document_0;
            &&& post.url == config.embedding_url + "/v1/embeddings"@
            &&& post.basic_auth is None
            &&& post.headers.len() == 0
            &&& post.body is Document
            &&& d.member_text("model"@) == Some(config.embedding_model)
            &&& d.member_text("input"@) == Some(input)
        }),
{
    reveal_strlit("model");
    reveal_strlit("input");
    assert("model"@[0] == 'm' && "input"@[0] == 'i');
    let entries = qdrant::embedding_post(config, input).body->Document_0->Object_0;
    json::law_first_entry_is_the_member(entries, 0);
    json::law_first_entry_is_the_member(entries, 1);
}

/// The components of the first embedding in a reply are what it gives; a document without
/// one is of another form, and a reply that cannot be read gives its error.
pub proof fn law_first_embedding_is_given(
    reply: ReplyView,
    document: JsonView,
    data: Seq<JsonView>,
    components: Seq<JsonView>,
    error: ReplyErrorView,
)
    ensures
        reply.readable() == Ok::<JsonView, ReplyErrorView>(document) && document.member("data"@)
            == Some(JsonView::List(data)) && data.len() > 0 && data[0].member("embedding"@) == Some(
            JsonView::List(components),
        ) ==> qdrant::embedding(reply) == Ok::<Seq<JsonView>, ReplyErrorView>(components),
        reply.readable() == Ok::<JsonView, ReplyErrorView>(document) && (document.member(
            "data"@,
        ) is None || document.member("data"@) == Some(JsonView::List(Seq::empty())))
            ==> qdrant::embedding(reply) == Err::<Seq<JsonView>, ReplyErrorView>(
            ReplyErrorView::Format,
        ),
        reply.readable() == Err::<JsonView, ReplyErrorView>(error) ==> qdrant::embedding(reply)
            == Err::<Seq<JsonView>, ReplyErrorView>(error),
{
}

/// An embedding that is given stands in the reply's document, as the first one; a readable
/// document that gives none is of another form.
pub proof fn law_no_embedding_is_made_up(reply: ReplyView, document: JsonView)
    requires
        reply.readable() == Ok::<JsonView, ReplyErrorView>(document),
    ensures
        qdrant::embedding(reply) matches Ok(components) ==> {
            let data = document.member("data"@)->0;
            &&& document.member("data"@) is Some
            &&& data is List && data->List_0.len() > 0
            &&& data->List_0[0].member("embedding"@) == Some(JsonView::List(components))
        },
        qdrant::embedding(reply) matches Err(e) ==> e == ReplyErrorView::Format,
{
}

/// A collection that exists is inspected; one that does not is made with the two vectors of
/// an article, of the configured dimension each, compared by cosine.
pub proof fn law_missing_collection_is_made(
    config: QdrantConfigView,
    existing: Seq<Seq<char>>,
    i: int,
)
    ensures
        0 <= i < existing.len() && existing[i] == config.collection ==> qdrant::opening(
            config,
            existing,
        ) is Inspect,
        (forall|j: int| 0 <= j < existing.len() ==> #[trigger] existing[j] != config.collection)
            ==> ({
            let step = qdrant::opening(config, existing);
            &&& step is Create
            &&& step->vectors.len() == 2
            &&& step->vectors[0].name == "summary_vector"@
            &&& step->vectors[1].name == "translated_summary_vector"@
            &&& step->vectors[0].dim == config.embedding_dim
            &&& step->vectors[1].dim == config.embedding_dim
            &&& step->vectors[0].distance == Distance::Cosine
            &&& step->vectors[1].distance == Distance::Cosine
        }),
{
    if 0 <= i < existing.len() && existing[i] == config.collection {
        assert(existing.contains(config.collection));
    }
}

/// A user's collection is the configured one's name, an underscore and the user's name; what
/// is reported of an old collection names it.
pub proof fn law_collections_are_named(collection: Seq<char>, username: Seq<char>)
    ensures
        qdrant::user_collection(collection, username) == collection + "_"@ + username,
        text::occurs(collection, qdrant::old_schema_message(collection)),
{
    text::lemma_occurs_between(
        "Existing collection '"@,
        collection,
        "' uses old single-vector schema. Please delete the collection and re-run the digest generation. Data will be re-created on next run."@,
    );
}

/// The fields that a summary writes are those by which a stored article tells its summary
/// and translation, and no others.
pub proof fn law_summary_writes_its_fields(s: SummaryView, other: Seq<char>)
    ensures
        ({
            let d = summary_update::summary_fields(s);
            &&& d.member_text("summary"@) == Some(s.summary)
            &&& told(d.member("translated_summary"@), s.translated)
            &&& other != "summary"@ && other != "translated_summary"@ ==> d.member(other) is None
        }),
{
    lemma_payload_names();
    let entries = summary_update::summary_fields(s)->Object_0;
    json::law_first_entry_is_the_member(entries, 0);
    json::law_first_entry_is_the_member(entries, 1);
    if other != "summary"@ && other != "translated_summary"@ {
        json::law_no_entry_no_member(entries, other);
    }
}

/// Summaries are written one after the other. Each starts with its fields, for the stored
/// article of its address and the digest's date.
pub proof fn law_summaries_are_written_in_turn(
    digest_date: Seq<char>,
    summaries: Seq<SummaryView>,
    update: UpdateView,
)
    requires
        update.wf(),
        update.stage is SetPayload,
    ensures
        summaries.len() > 0 ==> summary_update::update_start(digest_date, summaries) == (
        UpdateView { digest_date, summaries, next: 0, stage: UpdateStageView::SetPayload }),
        summaries.len() == 0 ==> summary_update::update_start(digest_date, summaries).action()
            is None,
        ({
            let a = update.action();
            let s = update.summaries[update.next];
            &&& a is Some
            &&& a->0 is SetPayload
            &&& a->0->SetPayload_filter == seq![
                ("url"@, s.url),
                ("digest_date"@, update.digest_date),
            ]
            &&& a->0->payload == summary_update::summary_fields(s)
        }),
        update.summaries[update.next].translated is None ==> follows(
            update,
            update.after(UpdateEventView::Done),
        ),
{
}

/// Whether the next summary's turn has come, or the end behind the last one.
pub open spec fn follows(update: UpdateView, later: UpdateView) -> bool {
    &&& later.summaries == update.summaries
    &&& later.digest_date == update.digest_date
    &&& later.next == update.next + 1
    &&& later.next < later.summaries.len() ==> later.stage is SetPayload
    &&& later.next == later.summaries.len() ==> later.stage is Finished && later.action() is None
}

/// A translation is embedded, the article's point is found by address and date, and that
/// point gets the embedding as its translation's vector; then the next summary's turn comes.
pub proof fn law_translation_gets_its_vector(update: UpdateView, point: PointIdView)
    requires
        update.wf(),
        update.stage is SetPayload,
        update.summaries[update.next].translated is Some,
    ensures
        ({
            let s = update.summaries[update.next];
            let one = update.after(UpdateEventView::Done);
            let two = one.after(UpdateEventView::Done);
            let three = two.after(UpdateEventView::Found(Some(Some(point))));
            &&& one.action() == Some(UpdateActionView::Embed { input: s.translated->0 })
            &&& two.action() is Some && two.action()->0 is FindPoint
            &&& two.action()->0->FindPoint_filter == seq![
                ("url"@, s.url),
                ("digest_date"@, update.digest_date),
            ]
            &&& three.action() == Some(
                UpdateActionView::UpdateVector { point, vector: "translated_summary_vector"@ },
            )
            &&& follows(update, three.after(UpdateEventView::Done))
        }),
{
}

/// Whether the writing ended with a report that names an address and a cause.
pub open spec fn reports(update: UpdateView, url: Seq<char>, cause: Seq<char>) -> bool {
    match update.stage {
        UpdateStageView::Failed { message } => text::occurs(url, message) && text::occurs(
            cause,
            message,
        ),
        _ => false,
    }
}

/// What stops the writing is reported with its cause and, but for an embedding, with the
/// article's address; so is a point that is not there or has no id.
pub proof fn law_update_failure_names_the_article(update: UpdateView, cause: Seq<char>)
    requires
        update.wf(),
        update.pending(),
    ensures
        ({
            let url = update.summaries[update.next].url;
            let failed = update.after(UpdateEventView::Failed(cause));
            &&& !(update.stage is Embed) ==> reports(failed, url, cause)
            &&& update.stage is Embed ==> failed.stage == UpdateStageView::Failed {
                message: cause,
            }
            &&& update.stage is FindPoint ==> update.after(UpdateEventView::Found(None)).stage
                == UpdateStageView::Failed { message: "Point not found for "@ + url }
            &&& update.stage is FindPoint ==> update.after(UpdateEventView::Found(Some(None))).stage
                == UpdateStageView::Failed { message: "Point ID is missing for "@ + url }
        }),
{
    let url = update.summaries[update.next].url;
    lemma_report_parts("Failed to update summary for "@, url, cause);
    lemma_report_parts("Failed to find point for "@, url, cause);
    lemma_report_parts("Failed to update translated vector for "@, url, cause);
}

proof fn lemma_report_parts(front: Seq<char>, url: Seq<char>, cause: Seq<char>)
    ensures
        text::occurs(url, front + url + ": "@ + cause),
        text::occurs(cause, front + url + ": "@ + cause),
{
    let none = Seq::<char>::empty();
    let all = front + url + ": "@ + cause;
    text::lemma_occurs_between(front, url, ": "@ + cause);
    assert(front + url + (": "@ + cause) =~= all);
    text::lemma_occurs_between(front + url + ": "@, cause, none);
    assert(front + url + ": "@ + cause + none =~= all);
}

/// An event that answers nothing changes nothing, and none changes what is to be written.
pub proof fn law_update_keeps_its_summaries(update: UpdateView, event: UpdateEventView)
    ensures
        update.after(event).summaries == update.summaries,
        update.after(event).digest_date == update.digest_date,
        !update.answered_by(event) ==> update.after(event) == update,
        update.next <= update.after(event).next <= update.next + 1,
{
}

} // verus!
