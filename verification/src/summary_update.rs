//! How summaries are written to the articles that are stored already.

use crate::json::{Json, JsonView};
use crate::http;
use crate::llm::{ArticleSummary, SummaryView};
use crate::ordering;
use crate::qdrant;
use crate::qdrant::{PointId, PointIdView, QdrantClientWrapper, TRANSLATED_VECTOR};
use crate::text;
use vstd::prelude::*;
use vstd::string::*;

verus! {

/// What is done for the summary that is next.
#[derive(Debug)]
pub enum UpdateStage {
    SetPayload,
    Embed,
    FindPoint,
    UpdateVector { point: PointId },
    Finished,
    Failed { message: String },
}

pub enum UpdateStageView {
    SetPayload,
    Embed,
    FindPoint,
    UpdateVector { point: PointIdView },
    Finished,
    Failed { message: Seq<char> },
}

impl View for UpdateStage {
    type V = UpdateStageView;

    open spec fn view(&self) -> UpdateStageView {
        match self {
            UpdateStage::SetPayload => UpdateStageView::SetPayload,
            UpdateStage::Embed => UpdateStageView::Embed,
            UpdateStage::FindPoint => UpdateStageView::FindPoint,
            UpdateStage::UpdateVector { point } => UpdateStageView::UpdateVector { point: point@ },
            UpdateStage::Finished => UpdateStageView::Finished,
            UpdateStage::Failed { message } => UpdateStageView::Failed { message: message@ },
        }
    }
}

/// The writing of summaries: those before `next` are written.
#[derive(Debug)]
pub struct SummaryUpdate {
    pub digest_date: String,
    pub summaries: Vec<ArticleSummary>,
    pub next: usize,
    pub stage: UpdateStage,
}

#[verifier::ext_equal]
pub struct UpdateView {
    pub digest_date: Seq<char>,
    pub summaries: Seq<SummaryView>,
    pub next: int,
    pub stage: UpdateStageView,
}

impl View for SummaryUpdate {
    type V = UpdateView;

    open spec fn view(&self) -> UpdateView {
        UpdateView {
            digest_date: self.digest_date@,
            summaries: ordering::views(self.summaries@),
            next: self.next as int,
            stage: self.stage@,
        }
    }
}

/// What the vector store or the embedding service is to do. A filter gives the fields that a
/// point must have, all of them.
#[derive(Debug)]
pub enum UpdateAction {
    /// Write these fields to the points that pass the filter.
    SetPayload { filter: Vec<(String, String)>, payload: Json },
    /// Embed the text.
    Embed { input: String },
    /// Find the first point that passes the filter.
    FindPoint { filter: Vec<(String, String)> },
    /// Give the point the embedding as the vector of that name.
    UpdateVector { point: PointId, vector: String },
}

#[verifier::ext_equal]
pub enum UpdateActionView {
    SetPayload { filter: Seq<(Seq<char>, Seq<char>)>, payload: JsonView },
    Embed { input: Seq<char> },
    FindPoint { filter: Seq<(Seq<char>, Seq<char>)> },
    UpdateVector { point: PointIdView, vector: Seq<char> },
}

impl View for UpdateAction {
    type V = UpdateActionView;

    open spec fn view(&self) -> UpdateActionView {
        match self {
            UpdateAction::SetPayload { filter, payload } => UpdateActionView::SetPayload {
                filter: http::pairs(filter@),
                payload: payload@,
            },
            UpdateAction::Embed { input } => UpdateActionView::Embed { input: input@ },
            UpdateAction::FindPoint { filter } => UpdateActionView::FindPoint {
                filter: http::pairs(filter@),
            },
            UpdateAction::UpdateVector { point, vector } => UpdateActionView::UpdateVector {
                point: point@,
                vector: vector@,
            },
        }
    }
}

/// What came of an action.
#[derive(Debug)]
pub enum UpdateEvent {
    Done,
    /// The first point that passes a filter, if any, by its id, if it has one.
    Found(Option<Option<PointId>>),
    /// The action failed, with what is reported of it.
    Failed(String),
}

pub enum UpdateEventView {
    Done,
    Found(Option<Option<PointIdView>>),
    Failed(Seq<char>),
}

impl View for UpdateEvent {
    type V = UpdateEventView;

    open spec fn view(&self) -> UpdateEventView {
        match self {
            UpdateEvent::Done => UpdateEventView::Done,
            UpdateEvent::Found(None) => UpdateEventView::Found(None),
            UpdateEvent::Found(Some(id)) => UpdateEventView::Found(Some(qdrant::id_of(*id))),
            UpdateEvent::Failed(message) => UpdateEventView::Failed(message@),
        }
    }
}

/// The filter that an article's point of one day passes.
pub open spec fn article_filter(url: Seq<char>, digest_date: Seq<char>) -> Seq<
    (Seq<char>, Seq<char>),
> {
    seq![("url"@, url), ("digest_date"@, digest_date)]
}

/// The fields that a summary writes.
pub open spec fn summary_fields(s: SummaryView) -> JsonView {
    JsonView::Object(
        seq![
            ("summary"@, JsonView::Text(s.summary)),
            ("translated_summary"@, qdrant::text_or_null(s.translated)),
        ],
    )
}

impl UpdateView {
    pub open spec fn pending(self) -> bool {
        !(self.stage is Finished) && !(self.stage is Failed)
    }

    /// The summary that is next.
    pub open spec fn current(self) -> SummaryView {
        self.summaries[self.next]
    }

    /// Whether there is a summary for what is next.
    pub open spec fn wf(self) -> bool {
        &&& 0 <= self.next <= self.summaries.len()
        &&& self.pending() ==> self.next < self.summaries.len()
        &&& self.pending() && !(self.stage is SetPayload) ==> self.current().translated is Some
    }

    /// What is to be done next, while there is anything.
    pub open spec fn action(self) -> Option<UpdateActionView> {
        let s = self.current();
        match self.stage {
            UpdateStageView::SetPayload => Some(
                UpdateActionView::SetPayload {
                    filter: article_filter(s.url, self.digest_date),
                    payload: summary_fields(s),
                },
            ),
            UpdateStageView::Embed => Some(UpdateActionView::Embed { input: s.translated->0 }),
            UpdateStageView::FindPoint => Some(
                UpdateActionView::FindPoint { filter: article_filter(s.url, self.digest_date) },
            ),
            UpdateStageView::UpdateVector { point } => Some(
                UpdateActionView::UpdateVector { point, vector: TRANSLATED_VECTOR@ },
            ),
            _ => None,
        }
    }

    pub open spec fn at(self, stage: UpdateStageView) -> UpdateView {
        UpdateView { stage, ..self }
    }

    /// The writing with the summary that was next behind it.
    pub open spec fn advanced(self) -> UpdateView {
        UpdateView {
            next: self.next + 1,
            stage: if self.next + 1 < self.summaries.len() {
                UpdateStageView::SetPayload
            } else {
                UpdateStageView::Finished
            },
            ..self
        }
    }

    pub open spec fn failed(self, message: Seq<char>) -> UpdateView {
        self.at(UpdateStageView::Failed { message })
    }

    /// The writing after an event. An event that does not answer the action changes nothing.
    pub open spec fn after(self, event: UpdateEventView) -> UpdateView {
        let url = self.current().url;
        match (self.stage, event) {
            (UpdateStageView::SetPayload, UpdateEventView::Done) => if self.current().translated
                is Some {
                self.at(UpdateStageView::Embed)
            } else {
                self.advanced()
            },
            (UpdateStageView::SetPayload, UpdateEventView::Failed(e)) => self.failed(
                "Failed to update summary for "@ + url + ": "@ + e,
            ),
            (UpdateStageView::Embed, UpdateEventView::Done) => self.at(UpdateStageView::FindPoint),
            (UpdateStageView::Embed, UpdateEventView::Failed(e)) => self.failed(e),
            (UpdateStageView::FindPoint, UpdateEventView::Found(None)) => self.failed(
                "Point not found for "@ + url,
            ),
            (UpdateStageView::FindPoint, UpdateEventView::Found(Some(None))) => self.failed(
                "Point ID is missing for "@ + url,
            ),
            (UpdateStageView::FindPoint, UpdateEventView::Found(Some(Some(point)))) => self.at(
                UpdateStageView::UpdateVector { point },
            ),
            (UpdateStageView::FindPoint, UpdateEventView::Failed(e)) => self.failed(
                "Failed to find point for "@ + url + ": "@ + e,
            ),
            (UpdateStageView::UpdateVector { .. }, UpdateEventView::Done) => self.advanced(),
            (UpdateStageView::UpdateVector { .. }, UpdateEventView::Failed(e)) => self.failed(
                "Failed to update translated vector for "@ + url + ": "@ + e,
            ),
            _ => self,
        }
    }

    /// The writing after a sequence of events.
    pub open spec fn run(self, events: Seq<UpdateEventView>) -> UpdateView
        decreases events.len(),
    {
        if events.len() == 0 {
            self
        } else {
            self.run(events.drop_last()).after(events.last())
        }
    }
}

/// The writing of `summaries`, before its first action.
pub open spec fn update_start(digest_date: Seq<char>, summaries: Seq<SummaryView>) -> UpdateView {
    UpdateView {
        digest_date,
        summaries,
        next: 0,
        stage: if summaries.len() > 0 {
            UpdateStageView::SetPayload
        } else {
            UpdateStageView::Finished
        },
    }
}

impl QdrantClientWrapper {
    /// Starts writing summaries to the articles that were stored for the digest of a day.
    pub fn update_article_summaries(
        &self,
        digest_date: &str,
        url_summaries: Vec<ArticleSummary>,
    ) -> (r: SummaryUpdate)
        ensures
            r@ == update_start(digest_date@, ordering::views(url_summaries@)),
            r@.wf(),
    {
        let stage = if url_summaries.len() > 0 {
            UpdateStage::SetPayload
        } else {
            UpdateStage::Finished
        };
        SummaryUpdate {
            digest_date: digest_date.to_owned(),
            summaries: url_summaries,
            next: 0,
            stage,
        }
    }
}

fn write_filter(url: &str, digest_date: &str) -> (r: Vec<(String, String)>)
    ensures
        http::pairs(r@) == article_filter(url@, digest_date@),
{
    let r: Vec<(String, String)> = vec![
        ("url".to_owned(), url.to_owned()),
        ("digest_date".to_owned(), digest_date.to_owned()),
    ];
    assert(http::pairs(r@) =~= article_filter(url@, digest_date@));
    r
}

fn write_fields(s: &ArticleSummary) -> (r: Json)
    ensures
        r@ == summary_fields(s@),
{
    let r = Json::object().with("summary", Json::text(s.summary.as_str())).with(
        "translated_summary",
        Json::text_or_null(&s.translated),
    );
    assert(r@->Object_0 =~= summary_fields(s@)->Object_0);
    r
}

impl SummaryUpdate {
    /// What is to be done next, while there is anything.
    pub fn action(&self) -> (r: Option<UpdateAction>)
        requires
            self@.wf(),
        ensures
            match r {
                Some(a) => self@.action() == Some(a@),
                None => self@.action() is None,
            },
    {
        match &self.stage {
            UpdateStage::SetPayload => {
                let s = &self.summaries[self.next];
                assert(s@ == self@.current());
                Some(
                    UpdateAction::SetPayload {
                        filter: write_filter(s.url.as_str(), self.digest_date.as_str()),
                        payload: write_fields(s),
                    },
                )
            },
            UpdateStage::Embed => {
                let s = &self.summaries[self.next];
                assert(s@ == self@.current());
                match &s.translated {
                    Some(t) => Some(UpdateAction::Embed { input: t.clone() }),
                    None => None,
                }
            },
            UpdateStage::FindPoint => {
                let s = &self.summaries[self.next];
                assert(s@ == self@.current());
                Some(
                    UpdateAction::FindPoint {
                        filter: write_filter(s.url.as_str(), self.digest_date.as_str()),
                    },
                )
            },
            UpdateStage::UpdateVector { point } => {
                let point = match point {
                    PointId::Num(n) => PointId::Num(*n),
                    PointId::Uuid(u) => PointId::Uuid(u.clone()),
                };
                Some(UpdateAction::UpdateVector { point, vector: TRANSLATED_VECTOR.to_owned() })
            },
            UpdateStage::Finished => None,
            UpdateStage::Failed { .. } => None,
        }
    }

    fn advance(self) -> (r: SummaryUpdate)
        requires
            self@.wf(),
            self@.pending(),
        ensures
            r@ == self@.advanced(),
            r@.wf(),
    {
        let SummaryUpdate { digest_date, summaries, next, .. } = self;
        assert(next < summaries.len());
        let stage = if next + 1 < summaries.len() {
            UpdateStage::SetPayload
        } else {
            UpdateStage::Finished
        };
        SummaryUpdate { digest_date, summaries, next: next + 1, stage }
    }

    /// The writing after an event. An event that does not answer the action changes nothing.
    pub fn after(self, event: UpdateEvent) -> (r: SummaryUpdate)
        requires
            self@.wf(),
        ensures
            r@ == self@.after(event@),
            r@.wf(),
    {
        let mut r = self;
        if r.next >= r.summaries.len() {
            return r;
        }
        let ghost before = r@;
        assert(r.summaries@[r.next as int]@ == before.current());
        let url = r.summaries[r.next].url.clone();
        let translated = r.summaries[r.next].translated.is_some();
        match (&r.stage, event) {
            (UpdateStage::SetPayload, UpdateEvent::Done) => {
                if !translated {
                    return r.advance();
                }
                r.stage = UpdateStage::Embed;
            },
            (UpdateStage::SetPayload, UpdateEvent::Failed(e)) => {
                r.stage = UpdateStage::Failed {
                    message: "Failed to update summary for ".to_owned().concat(
                        url.as_str(),
                    ).concat(": ").concat(e.as_str()),
                };
            },
            (UpdateStage::Embed, UpdateEvent::Done) => {
                r.stage = UpdateStage::FindPoint;
            },
            (UpdateStage::Embed, UpdateEvent::Failed(e)) => {
                r.stage = UpdateStage::Failed { message: e };
            },
            (UpdateStage::FindPoint, UpdateEvent::Found(None)) => {
                r.stage = UpdateStage::Failed {
                    message: "Point not found for ".to_owned().concat(url.as_str()),
                };
            },
            (UpdateStage::FindPoint, UpdateEvent::Found(Some(None))) => {
                r.stage = UpdateStage::Failed {
                    message: "Point ID is missing for ".to_owned().concat(url.as_str()),
                };
            },
            (UpdateStage::FindPoint, UpdateEvent::Found(Some(Some(point)))) => {
                r.stage = UpdateStage::UpdateVector { point };
            },
            (UpdateStage::FindPoint, UpdateEvent::Failed(e)) => {
                r.stage = UpdateStage::Failed {
                    message: "Failed to find point for ".to_owned().concat(url.as_str()).concat(
                        ": ",
                    ).concat(e.as_str()),
                };
            },
            (UpdateStage::UpdateVector { .. }, UpdateEvent::Done) => {
                return r.advance();
            },
            (UpdateStage::UpdateVector { .. }, UpdateEvent::Failed(e)) => {
                r.stage = UpdateStage::Failed {
                    message: "Failed to update translated vector for ".to_owned().concat(
                        url.as_str(),
                    ).concat(": ").concat(e.as_str()),
                };
            },
            _ => {},
        }
        assert(r@.current() == before.current());
        r
    }
}

impl UpdateView {
    /// Whether an event answers the action that is next.
    pub open spec fn answered_by(self, event: UpdateEventView) -> bool {
        match self.stage {
            UpdateStageView::FindPoint => !(event is Done),
            UpdateStageView::Finished => false,
            UpdateStageView::Failed { .. } => false,
            _ => !(event is Found),
        }
    }

    /// No more actions than this are left.
    pub open spec fn left(self) -> int {
        match self.stage {
            UpdateStageView::SetPayload => 4 * (self.summaries.len() - self.next),
            UpdateStageView::Embed => 4 * (self.summaries.len() - self.next) - 1,
            UpdateStageView::FindPoint => 4 * (self.summaries.len() - self.next) - 2,
            UpdateStageView::UpdateVector { .. } => 4 * (self.summaries.len() - self.next) - 3,
            _ => 0,
        }
    }
}

/// Every answer brings the writing nearer to its end: there are at most four actions for each
/// summary.
pub proof fn law_update_makes_progress(update: UpdateView, event: UpdateEventView)
    requires
        update.wf(),
        update.answered_by(event),
    ensures
        update.after(event).wf(),
        0 <= update.after(event).left() < update.left(),
        update.left() <= 4 * update.summaries.len(),
{
}

/// Only the named articles of the digest's day are written: whatever happens, each filter
/// asks for the address of one of the given summaries and for the given date.
pub proof fn law_update_filters_by_url_and_date(
    digest_date: Seq<char>,
    summaries: Seq<SummaryView>,
    events: Seq<UpdateEventView>,
)
    ensures
        ({
            let update = update_start(digest_date, summaries).run(events);
            &&& update.wf()
            &&& update.summaries == summaries
            &&& update.digest_date == digest_date
            &&& update.action() matches Some(UpdateActionView::SetPayload { filter, payload }) ==> {
                &&& filter == seq![
                    ("url"@, summaries[update.next].url),
                    ("digest_date"@, digest_date),
                ]
                &&& payload == summary_fields(summaries[update.next])
            }
            &&& update.action() matches Some(UpdateActionView::FindPoint { filter }) ==> filter
                == seq![("url"@, summaries[update.next].url), ("digest_date"@, digest_date)]
        }),
    decreases events.len(),
{
    if events.len() > 0 {
        law_update_filters_by_url_and_date(digest_date, summaries, events.drop_last());
    }
}

/// The first failure ends the writing: what happens later changes nothing.
pub proof fn law_update_stops_at_failure(update: UpdateView, events: Seq<UpdateEventView>)
    requires
        update.stage is Failed,
    ensures
        update.run(events) == update,
        update.action() is None,
    decreases events.len(),
{
    if events.len() > 0 {
        law_update_stops_at_failure(update, events.drop_last());
    }
}

} // verus!
