//! Requests to the servers and what their replies report.

use crate::json::{Json, JsonView};
use crate::text;
use vstd::prelude::*;
use vstd::string::*;

verus! {

/// The status line of a reply: its code, and the code with its reason, such as
/// `404 Not Found`.
#[derive(Debug, Clone)]
pub struct HttpStatus {
    pub code: u16,
    pub text: String,
}

/// Whether a status code reports success.
pub open spec fn success(code: u16) -> bool {
    200 <= code < 300
}

impl HttpStatus {
    pub fn is_success(&self) -> (r: bool)
        ensures
            r == success(self.code),
    {
        200 <= self.code && self.code < 300
    }
}

/// The content of a request.
#[derive(Debug)]
pub enum Body {
    Form(Vec<(String, String)>),
    Text(String),
    Document(Json),
}

pub enum BodyView {
    Form(Seq<(Seq<char>, Seq<char>)>),
    Text(Seq<char>),
    Document(JsonView),
}

/// The texts of a sequence of pairs of strings.
pub open spec fn pairs(v: Seq<(String, String)>) -> Seq<(Seq<char>, Seq<char>)> {
    Seq::new(v.len(), |i: int| (v[i].0@, v[i].1@))
}

impl View for Body {
    type V = BodyView;

    open spec fn view(&self) -> BodyView {
        match self {
            Body::Form(fields) => BodyView::Form(pairs(fields@)),
            Body::Text(s) => BodyView::Text(s@),
            Body::Document(j) => BodyView::Document(j@),
        }
    }
}

/// A POST request: every exchange of the digest is one.
#[derive(Debug)]
pub struct Post {
    pub url: String,
    /// User name and password for HTTP basic authentication.
    pub basic_auth: Option<(String, String)>,
    pub headers: Vec<(String, String)>,
    pub body: Body,
}

#[verifier::ext_equal]
pub struct PostView {
    pub url: Seq<char>,
    pub basic_auth: Option<(Seq<char>, Seq<char>)>,
    pub headers: Seq<(Seq<char>, Seq<char>)>,
    pub body: BodyView,
}

impl View for Post {
    type V = PostView;

    open spec fn view(&self) -> PostView {
        PostView {
            url: self.url@,
            basic_auth: match self.basic_auth {
                Some((user, password)) => Some((user@, password@)),
                None => None,
            },
            headers: pairs(self.headers@),
            body: self.body@,
        }
    }
}

/// A server's reply. `document` is the JSON document that the body is, where it is one.
#[derive(Debug)]
pub struct Reply {
    pub status: HttpStatus,
    pub body: String,
    pub document: Option<Json>,
}

pub struct ReplyView {
    pub code: u16,
    pub status: Seq<char>,
    pub body: Seq<char>,
    pub document: Option<JsonView>,
}

impl View for Reply {
    type V = ReplyView;

    open spec fn view(&self) -> ReplyView {
        ReplyView {
            code: self.status.code,
            status: self.status.text@,
            body: self.body@,
            document: match self.document {
                Some(j) => Some(j@),
                None => None,
            },
        }
    }
}

/// Why a reply gives nothing.
#[derive(Debug)]
pub enum ReplyError {
    /// An error status.
    Status { status: String, body: String },
    /// The body is no JSON document.
    NotJson,
    /// The document is not of the form that was asked for.
    Format,
}

pub enum ReplyErrorView {
    Status { status: Seq<char>, body: Seq<char> },
    NotJson,
    Format,
}

impl View for ReplyError {
    type V = ReplyErrorView;

    open spec fn view(&self) -> ReplyErrorView {
        match self {
            ReplyError::Status { status, body } => ReplyErrorView::Status {
                status: status@,
                body: body@,
            },
            ReplyError::NotJson => ReplyErrorView::NotJson,
            ReplyError::Format => ReplyErrorView::Format,
        }
    }
}

/// What is reported of a reply that gives nothing: `service` names the exchange, `format`
/// says what is wrong with a document of another form.
pub open spec fn reply_message(
    error: ReplyErrorView,
    service: Seq<char>,
    format: Seq<char>,
) -> Seq<char> {
    match error {
        ReplyErrorView::Status { status, body } => service + " error: "@ + status + " - "@ + body,
        ReplyErrorView::NotJson => "error decoding response body"@,
        ReplyErrorView::Format => format,
    }
}

impl ReplyError {
    pub fn message(&self, service: &str, format: &str) -> (r: String)
        ensures
            r@ == reply_message(self@, service@, format@),
    {
        match self {
            ReplyError::Status { status, body } => service.to_owned().concat(" error: ").concat(
                status.as_str(),
            ).concat(" - ").concat(body.as_str()),
            ReplyError::NotJson => "error decoding response body".to_owned(),
            ReplyError::Format => format.to_owned(),
        }
    }
}

impl ReplyView {
    /// The document of a reply, unless its status or its body stands against it.
    pub open spec fn readable(self) -> Result<JsonView, ReplyErrorView> {
        if !success(self.code) {
            Err(ReplyErrorView::Status { status: self.status, body: self.body })
        } else {
            match self.document {
                Some(j) => Ok(j),
                None => Err(ReplyErrorView::NotJson),
            }
        }
    }
}

impl Reply {
    /// The document of a reply, unless its status or its body stands against it.
    pub fn read(&self) -> (r: Result<&Json, ReplyError>)
        ensures
            match r {
                Ok(j) => self@.readable() == Ok::<JsonView, ReplyErrorView>(j@),
                Err(e) => self@.readable() == Err::<JsonView, ReplyErrorView>(e@),
            },
    {
        if !self.status.is_success() {
            Err(
                ReplyError::Status {
                    status: self.status.text.clone(),
                    body: self.body.clone(),
                },
            )
        } else {
            match &self.document {
                Some(j) => Ok(j),
                None => Err(ReplyError::NotJson),
            }
        }
    }
}

/// A reply gives its document where its status is one of success and its body is a
/// document; else it says which of the two stands against it.
pub proof fn law_reply_gives_its_document(reply: ReplyView)
    ensures
        success(reply.code) <==> reply.code / 100 == 2,
        reply.readable() is Ok <==> 200 <= reply.code <= 299 && reply.document is Some,
        reply.readable() is Ok ==> Some(reply.readable()->Ok_0) == reply.document,
        !(200 <= reply.code <= 299) ==> reply.readable() == Err::<JsonView, ReplyErrorView>(
            ReplyErrorView::Status { status: reply.status, body: reply.body },
        ),
        200 <= reply.code <= 299 && reply.document is None ==> reply.readable() == Err::<
            JsonView,
            ReplyErrorView,
        >(ReplyErrorView::NotJson),
{
}

/// What is reported of an error status names the service, the status and the reply's body;
/// of a document of another form, what is wrong with it.
pub proof fn law_message_shows_the_reply(
    status: Seq<char>,
    body: Seq<char>,
    service: Seq<char>,
    format: Seq<char>,
)
    ensures
        ({
            let m = reply_message(ReplyErrorView::Status { status, body }, service, format);
            &&& text::occurs(service, m)
            &&& text::occurs(status, m)
            &&& text::occurs(body, m)
        }),
        reply_message(ReplyErrorView::Format, service, format) == format,
        reply_message(ReplyErrorView::NotJson, service, format)
            == "error decoding response body"@,
{
    let none = Seq::<char>::empty();
    let m = service + " error: "@ + status + " - "@ + body;
    text::lemma_occurs_between(none, service, " error: "@ + status + " - "@ + body);
    assert(none + service + (" error: "@ + status + " - "@ + body) =~= m);
    text::lemma_occurs_between(service + " error: "@, status, " - "@ + body);
    assert(service + " error: "@ + status + (" - "@ + body) =~= m);
    text::lemma_occurs_between(service + " error: "@ + status + " - "@, body, none);
    assert(service + " error: "@ + status + " - "@ + body + none =~= m);
}

} // verus!
