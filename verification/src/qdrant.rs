//! The vector store: what is stored of an article, and how related articles are found.

use crate::config::{QdrantConfig, QdrantConfigView};
use crate::freshrss_fever::{Article, ArticleView};
use crate::http;
use crate::http::{Body, BodyView, Post, PostView, Reply, ReplyError, ReplyErrorView, ReplyView};
use crate::json::{Json, JsonView};
use crate::ordering;
use crate::text;
use vstd::prelude::*;
use vstd::string::*;

verus! {

/// Seconds after which an embedding request is given up.
pub const TIMEOUT_SECS: u64 = 30;

/// The vector of an article's title and content.
pub const SUMMARY_VECTOR: &'static str = "summary_vector";

/// The vector of a summary's translation.
pub const TRANSLATED_VECTOR: &'static str = "translated_summary_vector";

/// The characters of an article's content that are embedded.
pub const EMBEDDED_CHARS: usize = 500;

/// What is stored of an article.
#[derive(Debug, Clone)]
pub struct ArticlePayload {
    pub title: String,
    pub url: String,
    pub feed_title: String,
    pub feed_url: Option<String>,
    pub author: Option<String>,
    pub content: String,
    pub summary: Option<String>,
    pub translated_summary: Option<String>,
    pub published: i64,
    pub digest_date: String,
}

#[verifier::ext_equal]
pub struct PayloadView {
    pub title: Seq<char>,
    pub url: Seq<char>,
    pub feed_title: Seq<char>,
    pub feed_url: Option<Seq<char>>,
    pub author: Option<Seq<char>>,
    pub content: Seq<char>,
    pub summary: Option<Seq<char>>,
    pub translated_summary: Option<Seq<char>>,
    pub published: int,
    pub digest_date: Seq<char>,
}

impl View for ArticlePayload {
    type V = PayloadView;

    open spec fn view(&self) -> PayloadView {
        PayloadView {
            title: self.title@,
            url: self.url@,
            feed_title: self.feed_title@,
            feed_url: text::text_of(self.feed_url),
            author: text::text_of(self.author),
            content: self.content@,
            summary: text::text_of(self.summary),
            translated_summary: text::text_of(self.translated_summary),
            published: self.published as int,
            digest_date: self.digest_date@,
        }
    }
}

/// The text, or null where there is none.
pub open spec fn text_or_null(o: Option<Seq<char>>) -> JsonView {
    match o {
        Some(s) => JsonView::Text(s),
        None => JsonView::Null,
    }
}

impl PayloadView {
    /// The payload as a document.
    pub open spec fn document(self) -> JsonView {
        JsonView::Object(
            seq![
                ("title"@, JsonView::Text(self.title)),
                ("url"@, JsonView::Text(self.url)),
                ("feed_title"@, JsonView::Text(self.feed_title)),
                ("feed_url"@, text_or_null(self.feed_url)),
                ("author"@, text_or_null(self.author)),
                ("content"@, JsonView::Text(self.content)),
                ("summary"@, text_or_null(self.summary)),
                ("translated_summary"@, text_or_null(self.translated_summary)),
                ("published"@, JsonView::Number(self.published)),
                ("digest_date"@, JsonView::Text(self.digest_date)),
            ],
        )
    }
}

impl ArticlePayload {
    /// The payload as a document.
    pub fn to_json(&self) -> (r: Json)
        ensures
            r@ == self@.document(),
    {
        let r = Json::object().with("title", Json::text(self.title.as_str())).with(
            "url",
            Json::text(self.url.as_str()),
        ).with("feed_title", Json::text(self.feed_title.as_str())).with(
            "feed_url",
            Json::text_or_null(&self.feed_url),
        ).with("author", Json::text_or_null(&self.author)).with(
            "content",
            Json::text(self.content.as_str()),
        ).with("summary", Json::text_or_null(&self.summary)).with(
            "translated_summary",
            Json::text_or_null(&self.translated_summary),
        ).with("published", Json::Int(self.published)).with(
            "digest_date",
            Json::text(self.digest_date.as_str()),
        );
        assert(r@->Object_0 =~= self@.document()->Object_0);
        r
    }
}

/// The id of a stored point.
#[derive(Debug)]
pub enum PointId {
    Num(u64),
    Uuid(String),
}

#[verifier::ext_equal]
pub enum PointIdView {
    Num(u64),
    Uuid(Seq<char>),
}

impl View for PointId {
    type V = PointIdView;

    open spec fn view(&self) -> PointIdView {
        match self {
            PointId::Num(n) => PointIdView::Num(*n),
            PointId::Uuid(u) => PointIdView::Uuid(u@),
        }
    }
}

/// The id, where there is one.
pub open spec fn id_of(id: Option<PointId>) -> Option<PointIdView> {
    match id {
        Some(i) => Some(i@),
        None => None,
    }
}

/// The name by which a point is told apart from the others.
pub open spec fn point_key(id: Option<PointIdView>) -> Seq<char> {
    match id {
        Some(PointIdView::Num(n)) => "num:"@ + text::decimal(n as nat),
        Some(PointIdView::Uuid(u)) => u,
        None => "unknown"@,
    }
}

fn write_point_key(id: &Option<PointId>) -> (r: String)
    ensures
        r@ == point_key(id_of(*id)),
{
    match id {
        Some(PointId::Num(n)) => "num:".to_owned().concat(text::decimal_string(*n).as_str()),
        Some(PointId::Uuid(u)) => u.clone(),
        None => "unknown".to_owned(),
    }
}

/// The place of a 32-bit floating-point score among all scores, from its bits: two scores
/// compare as their places do. There is none for what is not a number.
pub open spec fn score_place(bits: u32) -> Option<int> {
    let magnitude = if bits >= 0x8000_0000 {
        bits - 0x8000_0000
    } else {
        bits as int
    };
    if magnitude > 0x7f80_0000 {
        None
    } else if bits >= 0x8000_0000 {
        Some(-magnitude)
    } else {
        Some(magnitude)
    }
}

/// The place of a 32-bit floating-point score among all scores, from its bits.
pub fn score_from_bits(bits: u32) -> (r: Option<i64>)
    ensures
        match r {
            Some(place) => score_place(bits) == Some(place as int),
            None => score_place(bits) is None,
        },
{
    let magnitude: u32 = if bits >= 0x8000_0000 {
        bits - 0x8000_0000
    } else {
        bits
    };
    if magnitude > 0x7f80_0000 {
        None
    } else if bits >= 0x8000_0000 {
        Some(0 - magnitude as i64)
    } else {
        Some(magnitude as i64)
    }
}

/// A point that a search found. `score` is its place among the scores; a score that is not a
/// number has none.
#[derive(Debug)]
pub struct Hit {
    pub point: Option<PointId>,
    pub score: Option<i64>,
    pub payload: Json,
}

/// A found point under its name.
#[derive(Debug)]
pub struct ScoredPoint {
    pub key: String,
    pub score: Option<i64>,
    pub payload: Json,
}

#[verifier::ext_equal]
pub struct HitView {
    pub key: Seq<char>,
    pub score: Option<int>,
    pub payload: JsonView,
}

/// The place of a score.
pub open spec fn place_of(score: Option<i64>) -> Option<int> {
    match score {
        Some(n) => Some(n as int),
        None => None,
    }
}

/// Whether a score is higher than another. What is not a number is neither.
pub open spec fn higher(score: Option<int>, other: Option<int>) -> bool {
    match (score, other) {
        (Some(a), Some(b)) => a > b,
        _ => false,
    }
}

fn is_higher(score: Option<i64>, other: Option<i64>) -> (r: bool)
    ensures
        r == higher(place_of(score), place_of(other)),
{
    match (score, other) {
        (Some(a), Some(b)) => a > b,
        _ => false,
    }
}

/// The number by which points are ordered. One point alone is ordered whatever its score.
pub open spec fn rank_of_score(score: Option<int>) -> int {
    match score {
        Some(n) => n,
        None => 0,
    }
}

impl View for Hit {
    type V = HitView;

    open spec fn view(&self) -> HitView {
        HitView {
            key: point_key(id_of(self.point)),
            score: place_of(self.score),
            payload: self.payload@,
        }
    }
}

impl View for ScoredPoint {
    type V = HitView;

    open spec fn view(&self) -> HitView {
        HitView { key: self.key@, score: place_of(self.score), payload: self.payload@ }
    }
}

impl ordering::Ranked for ScoredPoint {
    open spec fn rank_of(entry: HitView) -> int {
        rank_of_score(entry.score)
    }

    fn rank(&self) -> (r: i64) {
        match self.score {
            Some(n) => n,
            None => 0,
        }
    }
}

/// Where `points` holds a point under `key`.
pub open spec fn position(points: Seq<HitView>, key: Seq<char>) -> Option<int>
    decreases points.len(),
{
    if points.len() == 0 {
        None
    } else if points.last().key == key {
        Some(points.len() - 1)
    } else {
        position(points.drop_last(), key)
    }
}

/// The points with a hit of the first search: it takes the place of an earlier one with the
/// same key.
pub open spec fn with_hit(points: Seq<HitView>, hit: HitView) -> Seq<HitView> {
    match position(points, hit.key) {
        Some(i) => points.update(i, hit),
        None => points.push(hit),
    }
}

/// The points with a hit of the second search: of two scores for one point the higher
/// counts, and what is stored of it stays.
pub open spec fn with_second_hit(points: Seq<HitView>, hit: HitView) -> Seq<HitView> {
    match position(points, hit.key) {
        Some(i) => if higher(hit.score, points[i].score) {
            points.update(
                i,
                HitView { key: hit.key, score: hit.score, payload: points[i].payload },
            )
        } else {
            points
        },
        None => points.push(hit),
    }
}

/// The points of the first search.
pub open spec fn first_points(original: Seq<HitView>) -> Seq<HitView>
    decreases original.len(),
{
    if original.len() == 0 {
        Seq::empty()
    } else {
        with_hit(first_points(original.drop_last()), original.last())
    }
}

/// The points of both searches.
pub open spec fn merged(original: Seq<HitView>, translated: Seq<HitView>) -> Seq<HitView>
    decreases translated.len(),
{
    if translated.len() == 0 {
        first_points(original)
    } else {
        with_second_hit(merged(original, translated.drop_last()), translated.last())
    }
}

pub open spec fn by_score() -> spec_fn(HitView) -> int {
    |h: HitView| rank_of_score(h.score)
}

/// The `top_k` points of both searches with the highest scores, highest first.
pub open spec fn best_points(
    original: Seq<HitView>,
    translated: Seq<HitView>,
    top_k: int,
) -> Seq<HitView> {
    let sorted = ordering::largest_first(merged(original, translated), by_score());
    if sorted.len() > top_k {
        sorted.take(top_k)
    } else {
        sorted
    }
}

/// Whether every point has a score that is a number.
pub open spec fn scored(points: Seq<HitView>) -> bool {
    forall|i: int| 0 <= i < points.len() ==> (#[trigger] points[i]).score is Some
}

/// Whether points can be ordered: among several, every score has to be a number.
pub open spec fn comparable(points: Seq<HitView>) -> bool {
    points.len() <= 1 || scored(points)
}

/// What is stored of some points.
pub open spec fn payloads(points: Seq<HitView>) -> Seq<JsonView> {
    Seq::new(points.len(), |i: int| points[i].payload)
}

fn find_point(points: &Vec<ScoredPoint>, key: &str) -> (r: Option<usize>)
    ensures
        match r {
            Some(i) => i < points@.len() && position(ordering::views(points@), key@) == Some(
                i as int,
            ),
            None => position(ordering::views(points@), key@) is None,
        },
{
    let ghost all = ordering::views(points@);
    let mut n: usize = points.len();
    assert(all.take(n as int) == all);
    while n > 0
        invariant
            n <= points@.len(),
            all == ordering::views(points@),
            position(all.take(n as int), key@) == position(all, key@),
        decreases n,
    {
        assert(all.take(n as int).drop_last() == all.take(n - 1));
        if text::same_text(points[n - 1].key.as_str(), key) {
            return Some(n - 1);
        }
        n = n - 1;
    }
    None
}

/// The points of both searches, each once. A point of both keeps the higher score.
pub fn merge_hits(original: Vec<Hit>, translated: Vec<Hit>) -> (r: Vec<ScoredPoint>)
    ensures
        ordering::views(r@) == merged(ordering::views(original@), ordering::views(translated@)),
{
    let ghost first = ordering::views(original@);
    let ghost second = ordering::views(translated@);
    let mut points: Vec<ScoredPoint> = Vec::new();
    assert(ordering::views(points@) == first_points(first.take(0)));
    for hit in it: original
        invariant
            it.seq() == original@,
            first == ordering::views(original@),
            ordering::views(points@) == first_points(first.take(it.index())),
    {
        let ghost before = ordering::views(points@);
        let ghost hit_view = hit@;
        assert(first.take(it.index() + 1).drop_last() == first.take(it.index()));
        assert(first.take(it.index() + 1).last() == hit_view);
        let key = write_point_key(&hit.point);
        let found = find_point(&points, key.as_str());
        let point = ScoredPoint { key, score: hit.score, payload: hit.payload };
        match found {
            Some(i) => {
                points[i] = point;
            },
            None => points.push(point),
        }
        assert(ordering::views(points@) =~= with_hit(before, hit_view));
    }
    assert(first.take(first.len() as int) == first);
    assert(ordering::views(points@) == merged(first, second.take(0)));
    for hit in it: translated
        invariant
            it.seq() == translated@,
            second == ordering::views(translated@),
            ordering::views(points@) == merged(first, second.take(it.index())),
    {
        let ghost before = ordering::views(points@);
        let ghost hit_view = hit@;
        assert(second.take(it.index() + 1).drop_last() == second.take(it.index()));
        assert(second.take(it.index() + 1).last() == hit_view);
        let key = write_point_key(&hit.point);
        match find_point(&points, key.as_str()) {
            Some(i) => {
                assert(before[i as int] == points@[i as int]@);
                proof {
                    lemma_position(before, hit_view.key);
                }
                if is_higher(hit.score, points[i].score) {
                    points[i].score = hit.score;
                }
            },
            None => points.push(ScoredPoint { key, score: hit.score, payload: hit.payload }),
        }
        assert(ordering::views(points@) =~= with_second_hit(before, hit_view));
    }
    assert(second.take(second.len() as int) == second);
    points
}

fn are_comparable(points: &Vec<ScoredPoint>) -> (r: bool)
    ensures
        r == comparable(ordering::views(points@)),
{
    if points.len() <= 1 {
        return true;
    }
    let ghost all = ordering::views(points@);
    for i in 0..points.len()
        invariant
            all == ordering::views(points@),
            points@.len() > 1,
            forall|j: int| 0 <= j < i ==> (#[trigger] all[j]).score is Some,
    {
        if points[i].score.is_none() {
            assert(all[i as int].score is None);
            return false;
        }
    }
    true
}

pub proof fn lemma_position(points: Seq<HitView>, key: Seq<char>)
    ensures
        match position(points, key) {
            Some(i) => 0 <= i < points.len() && points[i].key == key,
            None => forall|i: int| 0 <= i < points.len() ==> (#[trigger] points[i]).key != key,
        },
    decreases points.len(),
{
    if points.len() > 0 {
        lemma_position(points.drop_last(), key);
        if points.last().key != key {
            assert forall|i: int|
                0 <= i < points.len() && position(points, key) is None implies (
            #[trigger] points[i]).key != key by {
                if i < points.len() - 1 {
                    assert(points.drop_last()[i] == points[i]);
                }
            }
        }
    }
}

/// The request for the embedding of a text.
pub open spec fn embedding_post(config: QdrantConfigView, input: Seq<char>) -> PostView {
    PostView {
        url: config.embedding_url + "/v1/embeddings"@,
        basic_auth: None,
        headers: Seq::empty(),
        body: BodyView::Document(
            JsonView::Object(
                seq![
                    ("model"@, JsonView::Text(config.embedding_model)),
                    ("input"@, JsonView::Text(input)),
                ],
            ),
        ),
    }
}

/// The embedding in a document: `data[0].embedding`.
pub open spec fn embedding_in(document: JsonView) -> Option<Seq<JsonView>> {
    match document.member("data"@) {
        Some(data) => match data.element(0) {
            Some(first) => match first.member("embedding"@) {
                Some(embedding) => embedding.elements(),
                None => None,
            },
            None => None,
        },
        None => None,
    }
}

/// What a reply to an embedding request gives.
pub open spec fn embedding(reply: ReplyView) -> Result<Seq<JsonView>, ReplyErrorView> {
    match reply.readable() {
        Err(e) => Err(e),
        Ok(document) => match embedding_in(document) {
            Some(components) => Ok(components),
            None => Err(ReplyErrorView::Format),
        },
    }
}

fn read_embedding(document: &Json) -> (r: Option<&Vec<Json>>)
    ensures
        match r {
            Some(v) => embedding_in(document@) == Some(ordering::views(v@)),
            None => embedding_in(document@) is None,
        },
{
    match document.get("data") {
        Some(data) => match data.at(0) {
            Some(first) => match first.get("embedding") {
                Some(embedding) => embedding.as_list(),
                None => None,
            },
            None => None,
        },
        None => None,
    }
}

/// How two vectors are compared.
#[derive(Debug, Clone, Copy, PartialEq, Eq, Structural)]
pub enum Distance {
    Cosine,
}

/// A named vector that every point of a collection can have.
#[derive(Debug)]
pub struct VectorParams {
    pub name: String,
    pub dim: u64,
    pub distance: Distance,
}

#[verifier::ext_equal]
pub struct VectorParamsView {
    pub name: Seq<char>,
    pub dim: int,
    pub distance: Distance,
}

impl View for VectorParams {
    type V = VectorParamsView;

    open spec fn view(&self) -> VectorParamsView {
        VectorParamsView { name: self.name@, dim: self.dim as int, distance: self.distance }
    }
}

/// What opening a collection takes.
#[derive(Debug)]
pub enum CollectionStep {
    /// There is none of that name: create it with these vectors and no others.
    Create { vectors: Vec<VectorParams> },
    /// There is one: look at its vectors, and leave it as it is.
    Inspect,
}

pub enum CollectionStepView {
    Create { vectors: Seq<VectorParamsView> },
    Inspect,
}

impl View for CollectionStep {
    type V = CollectionStepView;

    open spec fn view(&self) -> CollectionStepView {
        match self {
            CollectionStep::Create { vectors } => CollectionStepView::Create {
                vectors: ordering::views(vectors@),
            },
            CollectionStep::Inspect => CollectionStepView::Inspect,
        }
    }
}

/// What opening the collection takes, given the names of the collections that exist.
pub open spec fn opening(config: QdrantConfigView, existing: Seq<Seq<char>>) -> CollectionStepView {
    if existing.contains(config.collection) {
        CollectionStepView::Inspect
    } else {
        CollectionStepView::Create {
            vectors: seq![
                VectorParamsView {
                    name: SUMMARY_VECTOR@,
                    dim: config.embedding_dim,
                    distance: Distance::Cosine,
                },
                VectorParamsView {
                    name: TRANSLATED_VECTOR@,
                    dim: config.embedding_dim,
                    distance: Distance::Cosine,
                },
            ],
        }
    }
}

/// What is reported of a collection with a single unnamed vector.
pub open spec fn old_schema_message(collection: Seq<char>) -> Seq<char> {
    "Existing collection '"@ + collection
        + "' uses old single-vector schema. Please delete the collection and re-run the digest generation. Data will be re-created on next run."@
}

/// The name of the collection that holds the articles of one user.
pub open spec fn user_collection(collection: Seq<char>, username: Seq<char>) -> Seq<char> {
    collection + "_"@ + username
}

/// The name of the collection that holds the articles of one user.
pub fn write_user_collection(collection: &str, username: &str) -> (r: String)
    ensures
        r@ == user_collection(collection@, username@),
{
    collection.to_owned().concat("_").concat(username)
}

/// A point to store. Each vector is given by its name and the text that it embeds.
#[derive(Debug)]
pub struct Upsert {
    pub id: u64,
    pub payload: ArticlePayload,
    pub vectors: Vec<(String, String)>,
}

#[verifier::ext_equal]
pub struct UpsertView {
    pub id: u64,
    pub payload: PayloadView,
    pub vectors: Seq<(Seq<char>, Seq<char>)>,
}

impl View for Upsert {
    type V = UpsertView;

    open spec fn view(&self) -> UpsertView {
        UpsertView { id: self.id, payload: self.payload@, vectors: http::pairs(self.vectors@) }
    }
}

/// The text that stands for an article in the vector store.
pub open spec fn embedded_text(article: ArticleView) -> Seq<char> {
    article.title + " "@ + text::prefix(text::trimmed(article.content), EMBEDDED_CHARS as int)
}

/// The point that stores an article.
pub open spec fn article_point(
    article: ArticleView,
    summary: Option<Seq<char>>,
    translated_summary: Option<Seq<char>>,
    digest_date: Seq<char>,
) -> UpsertView {
    UpsertView {
        id: article.id,
        payload: PayloadView {
            title: article.title,
            url: article.url,
            feed_title: article.feed_title,
            feed_url: article.feed_url,
            author: article.author,
            content: article.content,
            summary,
            translated_summary,
            published: article.published,
            digest_date,
        },
        vectors: match translated_summary {
            Some(t) => seq![
                (SUMMARY_VECTOR@, embedded_text(article)),
                (TRANSLATED_VECTOR@, t),
            ],
            None => seq![(SUMMARY_VECTOR@, embedded_text(article))],
        },
    }
}

/// A search by an embedding: the vectors to search one after the other, and how many points
/// each search is to find.
#[derive(Debug)]
pub struct SearchPlan {
    pub vectors: Vec<String>,
    pub limit: u64,
}

/// A lower bound on a number.
#[derive(Debug, Clone, Copy, PartialEq, Eq, Structural)]
pub enum Bound {
    /// The number is greater.
    Above(i64),
}

/// The direction in which points are walked.
#[derive(Debug, Clone, Copy, PartialEq, Eq, Structural)]
pub enum Direction {
    Ascending,
}

/// A walk over stored points: the first `limit` of those whose `key` is in the bound, in the
/// direction of `key`.
#[derive(Debug)]
pub struct RecentPlan {
    pub key: String,
    pub bound: Bound,
    pub direction: Direction,
    pub limit: u32,
}

/// A client of the vector store.
#[derive(Debug)]
pub struct QdrantClientWrapper {
    pub config: QdrantConfig,
}

impl QdrantClientWrapper {
    pub fn new(config: QdrantConfig) -> (r: Self)
        ensures
            r.config == config,
    {
        QdrantClientWrapper { config }
    }

    /// The client for the articles of one user, which stand in a collection of their own.
    pub fn for_user(&self, username: &str) -> (r: Self)
        ensures
            r.config@ == (QdrantConfigView {
                collection: user_collection(self.config.collection@, username@),
                ..self.config@
            }),
    {
        QdrantClientWrapper {
            config: QdrantConfig {
                url: self.config.url.clone(),
                api_key: text::copy_text(&self.config.api_key),
                collection: write_user_collection(self.config.collection.as_str(), username),
                embedding_model: self.config.embedding_model.clone(),
                embedding_url: self.config.embedding_url.clone(),
                embedding_dim: self.config.embedding_dim,
                context_window_days: self.config.context_window_days,
                top_k: self.config.top_k,
            },
        }
    }

    /// What opening the collection takes, given the names of the collections that exist.
    pub fn ensure_collection(&self, existing: &Vec<String>) -> (r: CollectionStep)
        ensures
            r@ == opening(self.config@, text::texts(existing@)),
    {
        let ghost names = text::texts(existing@);
        for i in 0..existing.len()
            invariant
                names == text::texts(existing@),
                forall|j: int| 0 <= j < i ==> #[trigger] names[j] != self.config.collection@,
        {
            if text::same_text(existing[i].as_str(), self.config.collection.as_str()) {
                assert(names[i as int] == self.config.collection@);
                return CollectionStep::Inspect;
            }
        }
        assert(!names.contains(self.config.collection@));
        let dim = self.config.embedding_dim as u64;
        let vectors: Vec<VectorParams> = vec![
            VectorParams { name: SUMMARY_VECTOR.to_owned(), dim, distance: Distance::Cosine },
            VectorParams { name: TRANSLATED_VECTOR.to_owned(), dim, distance: Distance::Cosine },
        ];
        let r = CollectionStep::Create { vectors };
        assert(r@->vectors =~= opening(self.config@, names)->vectors);
        r
    }

    /// Whether a collection is one that this client can use, given the names of its vectors;
    /// else what is to be reported. A collection with a single unnamed vector gives no names.
    pub fn check_schema(&self, vectors: &Option<Vec<String>>) -> (r: Result<(), String>)
        ensures
            match r {
                Ok(()) => *vectors matches Some(names) && text::texts(names@).contains(
                    SUMMARY_VECTOR@,
                ),
                Err(message) => message@ == old_schema_message(self.config.collection@) && !(
                *vectors matches Some(names) && text::texts(names@).contains(SUMMARY_VECTOR@)),
            },
    {
        if let Some(names) = vectors {
            let ghost all = text::texts(names@);
            for i in 0..names.len()
                invariant
                    *vectors == Some(*names),
                    all == text::texts(names@),
                    forall|j: int| 0 <= j < i ==> #[trigger] all[j] != SUMMARY_VECTOR@,
            {
                if text::same_text(names[i].as_str(), SUMMARY_VECTOR) {
                    assert(all[i as int] == SUMMARY_VECTOR@);
                    return Ok(());
                }
            }
        }
        Err(
            "Existing collection '".to_owned().concat(self.config.collection.as_str()).concat(
                "' uses old single-vector schema. Please delete the collection and re-run the digest generation. Data will be re-created on next run.",
            ),
        )
    }

    /// The request for the embedding of a text.
    pub fn embed_request(&self, input: &str) -> (r: Post)
        ensures
            r@ == embedding_post(self.config@, input@),
    {
        let headers: Vec<(String, String)> = Vec::new();
        assert(http::pairs(headers@) =~= Seq::<(Seq<char>, Seq<char>)>::empty());
        let document = Json::object().with(
            "model",
            Json::text(self.config.embedding_model.as_str()),
        ).with("input", Json::text(input));
        let r = Post {
            url: self.config.embedding_url.clone().concat("/v1/embeddings"),
            basic_auth: None,
            headers,
            body: Body::Document(document),
        };
        assert(r@.body->Document_0->Object_0 =~= embedding_post(
            self.config@,
            input@,
        ).body->Document_0->Object_0);
        r
    }

    /// The components of the embedding in a reply.
    pub fn embed_text<'a>(&self, reply: &'a Reply) -> (r: Result<&'a Vec<Json>, ReplyError>)
        ensures
            match r {
                Ok(v) => embedding(reply@) == Ok::<Seq<JsonView>, ReplyErrorView>(
                    ordering::views(v@),
                ),
                Err(e) => embedding(reply@) == Err::<Seq<JsonView>, ReplyErrorView>(e@),
            },
    {
        match reply.read() {
            Ok(document) => match read_embedding(document) {
                Some(v) => Ok(v),
                None => Err(ReplyError::Format),
            },
            Err(e) => Err(e),
        }
    }

    /// What is reported of a reply that gives no embedding.
    pub fn embedding_message(error: &ReplyError) -> (r: String)
        ensures
            r@ == http::reply_message(
                error@,
                "Embedding API"@,
                "Unexpected embedding format"@,
            ),
    {
        error.message("Embedding API", "Unexpected embedding format")
    }

    /// The point that stores an article.
    pub fn upsert_article(
        &self,
        article: &Article,
        summary: Option<String>,
        translated_summary: Option<String>,
        digest_date: String,
    ) -> (r: Upsert)
        ensures
            r@ == article_point(
                article@,
                text::text_of(summary),
                text::text_of(translated_summary),
                digest_date@,
            ),
    {
        let preview = text::preview(article.content.as_str(), EMBEDDED_CHARS);
        let own_text = article.title.clone().concat(" ").concat(preview.as_str());
        let mut vectors: Vec<(String, String)> = vec![(SUMMARY_VECTOR.to_owned(), own_text)];
        if let Some(translated) = &translated_summary {
            vectors.push((TRANSLATED_VECTOR.to_owned(), translated.clone()));
        }
        let ghost expected = article_point(
            article@,
            text::text_of(summary),
            text::text_of(translated_summary),
            digest_date@,
        );
        let payload = ArticlePayload {
            title: article.title.clone(),
            url: article.url.clone(),
            feed_title: article.feed_title.clone(),
            feed_url: text::copy_text(&article.feed_url),
            author: text::copy_text(&article.author),
            content: article.content.clone(),
            summary,
            translated_summary,
            published: article.published,
            digest_date,
        };
        assert(http::pairs(vectors@) =~= expected.vectors);
        Upsert { id: article.id, payload, vectors }
    }

    /// The searches for articles related to a text: more points than asked for, so that
    /// merging leaves enough.
    pub fn search_plan(&self, top_k: usize) -> (r: SearchPlan)
        requires
            top_k * 2 <= usize::MAX,
        ensures
            text::texts(r.vectors@) == seq![SUMMARY_VECTOR@, TRANSLATED_VECTOR@],
            r.limit == top_k * 2,
    {
        let vectors: Vec<String> = vec![SUMMARY_VECTOR.to_owned(), TRANSLATED_VECTOR.to_owned()];
        assert(text::texts(vectors@) =~= seq![SUMMARY_VECTOR@, TRANSLATED_VECTOR@]);
        SearchPlan { vectors, limit: (top_k * 2) as u64 }
    }

    /// What is stored of the `top_k` articles that the two searches found best. There is
    /// nothing where the points cannot be ordered.
    pub fn retrieve_rag_context(
        &self,
        top_k: usize,
        original: Vec<Hit>,
        translated: Vec<Hit>,
    ) -> (r: Option<Vec<Json>>)
        ensures
            match r {
                Some(found) => comparable(
                    merged(ordering::views(original@), ordering::views(translated@)),
                ) && ordering::views(found@) == payloads(
                    best_points(
                        ordering::views(original@),
                        ordering::views(translated@),
                        top_k as int,
                    ),
                ),
                None => !comparable(
                    merged(ordering::views(original@), ordering::views(translated@)),
                ),
            },
    {
        let ghost best = best_points(
            ordering::views(original@),
            ordering::views(translated@),
            top_k as int,
        );
        let points = merge_hits(original, translated);
        if !are_comparable(&points) {
            return None;
        }
        assert(by_score() =~= |e: HitView| <ScoredPoint as ordering::Ranked>::rank_of(e));
        let mut sorted = ordering::sort_largest_first(points);
        let ghost all = ordering::views(sorted@);
        sorted.truncate(top_k);
        assert(ordering::views(sorted@) =~= best);
        let mut found: Vec<Json> = Vec::new();
        for point in it: sorted
            invariant
                it.seq() == sorted@,
                ordering::views(sorted@) == best,
                ordering::views(found@) == payloads(best).take(it.index()),
        {
            let ghost before = ordering::views(found@);
            assert(best[it.index()] == point@);
            let ghost payload = point.payload@;
            found.push(point.payload);
            assert(ordering::views(found@) =~= before.push(payload));
            assert(payloads(best).take(it.index() + 1) =~= payloads(best).take(it.index()).push(
                payload,
            ));
        }
        assert(payloads(best).take(best.len() as int) =~= payloads(best));
        Some(found)
    }

    /// The walk over the articles of the last `days` days, seen from `now` (Unix seconds).
    pub fn get_recent_articles(&self, now: i64, days: i64, limit: usize) -> (r: RecentPlan)
        requires
            i64::MIN <= days * 86400 <= i64::MAX,
            i64::MIN <= now - days * 86400 <= i64::MAX,
            limit <= u32::MAX,
        ensures
            r.key@ == "published"@,
            r.bound == Bound::Above((now - days * 86400) as i64),
            r.direction == Direction::Ascending,
            r.limit == limit,
    {
        RecentPlan {
            key: "published".to_owned(),
            bound: Bound::Above(now - days * 86400),
            direction: Direction::Ascending,
            limit: limit as u32,
        }
    }
}

/// The points of a sequence have different keys.
pub open spec fn distinct_keys(points: Seq<HitView>) -> bool {
    forall|i: int, j: int|
        0 <= i < j < points.len() ==> (#[trigger] points[i]).key != (#[trigger] points[j]).key
}

/// Some point of a sequence has the key `key`.
pub open spec fn holds_key(points: Seq<HitView>, key: Seq<char>) -> bool {
    exists|i: int| 0 <= i < points.len() && (#[trigger] points[i]).key == key
}

proof fn lemma_with_hit(points: Seq<HitView>, hit: HitView)
    requires
        distinct_keys(points),
    ensures
        distinct_keys(with_hit(points, hit)),
        distinct_keys(with_second_hit(points, hit)),
        forall|key: Seq<char>|
            holds_key(with_hit(points, hit), key) <==> #[trigger] holds_key(points, key) || key
                == hit.key,
        forall|key: Seq<char>|
            holds_key(with_second_hit(points, hit), key) <==> #[trigger] holds_key(points, key)
                || key == hit.key,
{
    lemma_position(points, hit.key);
    let first = with_hit(points, hit);
    let second = with_second_hit(points, hit);
    let p = position(points, hit.key);
    assert(p is Some ==> holds_key(points, hit.key));
    let at = if p is Some {
        p->0
    } else {
        points.len() as int
    };
    assert(first[at].key == hit.key && second[at].key == hit.key);
    assert(holds_key(first, hit.key) && holds_key(second, hit.key));
    assert forall|key: Seq<char>|
        holds_key(first, key) <==> #[trigger] holds_key(points, key) || key == hit.key by {
        if holds_key(points, key) {
            let i = choose|i: int| 0 <= i < points.len() && (#[trigger] points[i]).key == key;
            assert(first[i].key == key);
        }
        if holds_key(first, key) && key != hit.key {
            let i = choose|i: int| 0 <= i < first.len() && (#[trigger] first[i]).key == key;
            assert(points[i].key == key);
        }
    }
    assert forall|key: Seq<char>|
        holds_key(second, key) <==> #[trigger] holds_key(points, key) || key == hit.key by {
        if holds_key(points, key) {
            let i = choose|i: int| 0 <= i < points.len() && (#[trigger] points[i]).key == key;
            assert(second[i].key == key);
        }
        if holds_key(second, key) && key != hit.key {
            let i = choose|i: int| 0 <= i < second.len() && (#[trigger] second[i]).key == key;
            assert(points[i].key == key);
        }
    }
}

proof fn lemma_first_points(original: Seq<HitView>)
    ensures
        distinct_keys(first_points(original)),
        forall|key: Seq<char>|
            #[trigger] holds_key(first_points(original), key) <==> holds_key(original, key),
    decreases original.len(),
{
    if original.len() > 0 {
        let shorter = original.drop_last();
        lemma_first_points(shorter);
        lemma_with_hit(first_points(shorter), original.last());
        assert forall|key: Seq<char>|
            #[trigger] holds_key(first_points(original), key) <==> holds_key(original, key) by {
            lemma_holds_key_last(original, key);
            assert(holds_key(first_points(shorter), key) <==> holds_key(shorter, key));
        }
    }
}

proof fn lemma_holds_key_last(points: Seq<HitView>, key: Seq<char>)
    requires
        points.len() > 0,
    ensures
        holds_key(points, key) <==> holds_key(points.drop_last(), key) || points.last().key == key,
{
    let shorter = points.drop_last();
    if holds_key(shorter, key) {
        let i = choose|i: int| 0 <= i < shorter.len() && (#[trigger] shorter[i]).key == key;
        assert(points[i].key == key);
    }
    if holds_key(points, key) && points.last().key != key {
        let i = choose|i: int| 0 <= i < points.len() && (#[trigger] points[i]).key == key;
        assert(shorter[i].key == key);
    }
}

/// Merging the two searches keeps every point that either of them found, once, and no other.
pub proof fn law_merge_keeps_every_point(original: Seq<HitView>, translated: Seq<HitView>)
    ensures
        distinct_keys(merged(original, translated)),
        forall|key: Seq<char>|
            #[trigger] holds_key(merged(original, translated), key) <==> holds_key(original, key)
                || holds_key(translated, key),
    decreases translated.len(),
{
    if translated.len() == 0 {
        lemma_first_points(original);
        assert forall|key: Seq<char>|
            #[trigger] holds_key(merged(original, translated), key) <==> holds_key(original, key)
                || holds_key(translated, key) by {
            assert(holds_key(first_points(original), key) <==> holds_key(original, key));
        }
    } else {
        let shorter = translated.drop_last();
        law_merge_keeps_every_point(original, shorter);
        lemma_with_hit(merged(original, shorter), translated.last());
        assert forall|key: Seq<char>|
            #[trigger] holds_key(merged(original, translated), key) <==> holds_key(original, key)
                || holds_key(translated, key) by {
            lemma_holds_key_last(translated, key);
            assert(holds_key(merged(original, shorter), key) <==> holds_key(original, key)
                || holds_key(shorter, key));
        }
    }
}

/// The first search, when it finds no point twice, is merged as it is.
pub proof fn law_distinct_hits_are_kept(original: Seq<HitView>)
    requires
        distinct_keys(original),
    ensures
        first_points(original) == original,
    decreases original.len(),
{
    if original.len() > 0 {
        let shorter = original.drop_last();
        law_distinct_hits_are_kept(shorter);
        lemma_position(shorter, original.last().key);
        if position(shorter, original.last().key) is Some {
            let i = position(shorter, original.last().key)->0;
            assert(original[i].key == original[original.len() - 1].key);
        }
        assert(shorter.push(original.last()) =~= original);
    }
}

/// A merged point has the highest of the scores that the searches gave it, where these are
/// numbers: no hit of the point scores higher, and one hit scores just as high.
pub proof fn law_merge_keeps_higher_score(
    original: Seq<HitView>,
    translated: Seq<HitView>,
    i: int,
)
    requires
        distinct_keys(original),
        scored(original),
        scored(translated),
        0 <= i < merged(original, translated).len(),
    ensures
        ({
            let point = merged(original, translated)[i];
            &&& forall|j: int|
                0 <= j < original.len() && (#[trigger] original[j]).key == point.key
                    ==> !higher(original[j].score, point.score)
            &&& forall|j: int|
                0 <= j < translated.len() && (#[trigger] translated[j]).key == point.key
                    ==> !higher(translated[j].score, point.score)
            &&& point.score is Some
            &&& (exists|j: int|
                0 <= j < original.len() && (#[trigger] original[j]).key == point.key
                    && original[j].score == point.score) || (exists|j: int|
                0 <= j < translated.len() && (#[trigger] translated[j]).key == point.key
                    && translated[j].score == point.score)
        }),
    decreases translated.len(),
{
    let point = merged(original, translated)[i];
    if translated.len() == 0 {
        law_distinct_hits_are_kept(original);
        assert(original[i].key == point.key && original[i].score == point.score);
    } else {
        let shorter = translated.drop_last();
        assert(scored(shorter)) by {
            assert forall|j: int| 0 <= j < shorter.len() implies (
            #[trigger] shorter[j]).score is Some by {
                assert(translated[j].score is Some);
            }
        }
        let hit = translated.last();
        let before = merged(original, shorter);
        law_merge_keeps_every_point(original, shorter);
        lemma_position(before, hit.key);
        assert(translated[translated.len() - 1] == hit);
        if i < before.len() {
            law_merge_keeps_higher_score(original, shorter, i);
            assert(before[i].key == point.key);
            if point.key == hit.key {
                assert(position(before, hit.key) == Some(i));
            }
            assert forall|j: int|
                0 <= j < translated.len() && (#[trigger] translated[j]).key
                    == point.key implies !higher(translated[j].score, point.score) by {
                if j < shorter.len() {
                    assert(shorter[j] == translated[j]);
                }
            }
            if point.score == before[i].score {
                if exists|j: int|
                    0 <= j < shorter.len() && (#[trigger] shorter[j]).key == point.key
                        && shorter[j].score == point.score {
                    let j = choose|j: int|
                        0 <= j < shorter.len() && (#[trigger] shorter[j]).key == point.key
                            && shorter[j].score == point.score;
                    assert(translated[j] == shorter[j]);
                }
            }
        } else {
            assert(point == hit);
            assert(!holds_key(before, hit.key));
            assert forall|j: int|
                0 <= j < original.len() && (#[trigger] original[j]).key
                    == point.key implies !higher(original[j].score, point.score) by {
                assert(holds_key(original, point.key));
            }
            assert forall|j: int|
                0 <= j < translated.len() && (#[trigger] translated[j]).key
                    == point.key implies !higher(translated[j].score, point.score) by {
                if j < shorter.len() {
                    assert(shorter[j] == translated[j]);
                    assert(holds_key(shorter, point.key));
                }
            }
        }
    }
}

/// The articles that a search gives are no more than asked for, come best first, and no
/// article that was found and left out scores higher than one that is given.
pub proof fn law_best_points_lead(original: Seq<HitView>, translated: Seq<HitView>, top_k: int)
    requires
        top_k >= 0,
    ensures
        best_points(original, translated, top_k).len() <= top_k,
        ordering::descending(best_points(original, translated, top_k), by_score()),
        merged(original, translated).len() <= top_k ==> best_points(
            original,
            translated,
            top_k,
        ).len() == merged(original, translated).len(),
        exists|rest: Seq<HitView>|
            {
                &&& #[trigger] (best_points(original, translated, top_k) + rest).to_multiset()
                    == merged(original, translated).to_multiset()
                &&& forall|i: int, j: int|
                    0 <= i < best_points(original, translated, top_k).len() && 0 <= j < rest.len()
                        ==> !higher(
                        (#[trigger] rest[j]).score,
                        (#[trigger] best_points(original, translated, top_k)[i]).score,
                    )
            },
{
    let all = merged(original, translated);
    let sorted = ordering::largest_first(all, by_score());
    let best = best_points(original, translated, top_k);
    ordering::law_largest_first_sorts(all, by_score());
    let rest = sorted.skip(best.len() as int);
    assert(best + rest =~= sorted);
    assert forall|i: int, j: int| 0 <= i < best.len() && 0 <= j < rest.len() implies !higher(
        (#[trigger] rest[j]).score,
        (#[trigger] best[i]).score,
    ) by {
        assert(by_score()(sorted[i]) >= by_score()(sorted[best.len() + j]));
    }
    assert(ordering::descending(best, by_score())) by {
        assert forall|i: int, j: int| 0 <= i <= j < best.len() implies by_score()(
            #[trigger] best[i],
        ) >= by_score()(#[trigger] best[j]) by {
            assert(by_score()(sorted[i]) >= by_score()(sorted[j]));
        }
    }
    assert((best + rest).to_multiset() == all.to_multiset());
}

/// Users have separate collections: those of two user names differ, whatever the names are.
pub proof fn law_users_have_separate_collections(
    collection: Seq<char>,
    first: Seq<char>,
    second: Seq<char>,
)
    requires
        first != second,
    ensures
        user_collection(collection, first) != user_collection(collection, second),
{
    let a = user_collection(collection, first);
    let b = user_collection(collection, second);
    let n = (collection + "_"@).len() as int;
    assert(a.skip(n) =~= first);
    assert(b.skip(n) =~= second);
}

} // verus!
