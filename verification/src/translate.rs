//! Language detection and translation by LibreTranslate.

use crate::http;
use crate::http::{Body, BodyView, Post, PostView, Reply, ReplyError, ReplyErrorView, ReplyView};
use crate::json::{Json, JsonView};
use crate::text;
use vstd::prelude::*;
use vstd::string::*;

verus! {

/// Seconds after which a request is given up.
pub const TIMEOUT_SECS: u64 = 10;

/// The headers of a request.
pub open spec fn request_headers(api_key: Option<Seq<char>>) -> Seq<(Seq<char>, Seq<char>)> {
    let plain = seq![("Content-Type"@, "application/json"@)];
    match api_key {
        Some(key) => plain.push(("Authorization"@, key)),
        None => plain,
    }
}

/// The request that asks for the language of a text.
pub open spec fn detect_post(
    base_url: Seq<char>,
    api_key: Option<Seq<char>>,
    q: Seq<char>,
) -> PostView {
    PostView {
        url: base_url + "/v2/detect"@,
        basic_auth: None,
        headers: request_headers(api_key),
        body: BodyView::Document(JsonView::Object(seq![("q"@, JsonView::Text(q))])),
    }
}

/// The request that asks for a text in another language.
pub open spec fn translate_post(
    base_url: Seq<char>,
    api_key: Option<Seq<char>>,
    q: Seq<char>,
    source: Seq<char>,
    target: Seq<char>,
) -> PostView {
    PostView {
        url: base_url + "/v2/translate"@,
        basic_auth: None,
        headers: request_headers(api_key),
        body: BodyView::Document(
            JsonView::Object(
                seq![
                    ("q"@, JsonView::Text(q)),
                    ("source"@, JsonView::Text(source)),
                    ("target"@, JsonView::Text(target)),
                ],
            ),
        ),
    }
}

/// The language code in a document.
pub open spec fn detected_language(document: JsonView) -> Option<Seq<char>> {
    match document.member("0"@) {
        Some(j) => j.member_text("language"@),
        None => None,
    }
}

/// What a reply to a detection request gives.
pub open spec fn detection(reply: ReplyView) -> Result<Seq<char>, ReplyErrorView> {
    match reply.readable() {
        Err(e) => Err(e),
        Ok(document) => match detected_language(document) {
            Some(code) => Ok(code),
            None => Err(ReplyErrorView::Format),
        },
    }
}

/// What a reply to a translation request gives.
pub open spec fn translation(reply: ReplyView) -> Result<Seq<char>, ReplyErrorView> {
    match reply.readable() {
        Err(e) => Err(e),
        Ok(document) => match document.member_text("translatedText"@) {
            Some(t) => Ok(t),
            None => Err(ReplyErrorView::Format),
        },
    }
}

/// A client of one LibreTranslate server.
#[derive(Debug)]
pub struct LibreTranslateClient {
    pub base_url: String,
    pub api_key: Option<String>,
}

impl LibreTranslateClient {
    pub fn new(base_url: String, api_key: Option<String>) -> (r: Self)
        ensures
            r.base_url == base_url,
            r.api_key == api_key,
    {
        LibreTranslateClient { base_url, api_key }
    }

    fn headers(&self) -> (r: Vec<(String, String)>)
        ensures
            http::pairs(r@) == request_headers(text::text_of(self.api_key)),
    {
        let mut headers: Vec<(String, String)> = vec![
            ("Content-Type".to_owned(), "application/json".to_owned()),
        ];
        if let Some(key) = &self.api_key {
            headers.push(("Authorization".to_owned(), key.clone()));
        }
        assert(http::pairs(headers@) =~= request_headers(text::text_of(self.api_key)));
        headers
    }

    /// The request that asks for the language of a text.
    pub fn detect_request(&self, q: &str) -> (r: Post)
        ensures
            r@ == detect_post(self.base_url@, text::text_of(self.api_key), q@),
    {
        let document = Json::object().with("q", Json::text(q));
        assert(document@->Object_0 =~= seq![("q"@, JsonView::Text(q@))]);
        Post {
            url: self.base_url.clone().concat("/v2/detect"),
            basic_auth: None,
            headers: self.headers(),
            body: Body::Document(document),
        }
    }

    /// The language code that a reply gives, such as `en`.
    pub fn detect_language(&self, reply: &Reply) -> (r: Result<String, ReplyError>)
        ensures
            match r {
                Ok(code) => detection(reply@) == Ok::<Seq<char>, ReplyErrorView>(code@),
                Err(e) => detection(reply@) == Err::<Seq<char>, ReplyErrorView>(e@),
            },
    {
        let document = match reply.read() {
            Ok(j) => j,
            Err(e) => {
                return Err(e);
            },
        };
        match document.get("0") {
            Some(j) => match j.get_str("language") {
                Some(code) => Ok(code.to_owned()),
                None => Err(ReplyError::Format),
            },
            None => Err(ReplyError::Format),
        }
    }

    /// The request that asks for a text in another language.
    pub fn translate_request(&self, q: &str, source_lang: &str, target_lang: &str) -> (r: Post)
        ensures
            r@ == translate_post(
                self.base_url@,
                text::text_of(self.api_key),
                q@,
                source_lang@,
                target_lang@,
            ),
    {
        let document = Json::object().with("q", Json::text(q)).with(
            "source",
            Json::text(source_lang),
        ).with("target", Json::text(target_lang));
        assert(document@->Object_0 =~= seq![
            ("q"@, JsonView::Text(q@)),
            ("source"@, JsonView::Text(source_lang@)),
            ("target"@, JsonView::Text(target_lang@)),
        ]);
        Post {
            url: self.base_url.clone().concat("/v2/translate"),
            basic_auth: None,
            headers: self.headers(),
            body: Body::Document(document),
        }
    }

    /// The translation that a reply gives.
    pub fn translate(&self, reply: &Reply) -> (r: Result<String, ReplyError>)
        ensures
            match r {
                Ok(t) => translation(reply@) == Ok::<Seq<char>, ReplyErrorView>(t@),
                Err(e) => translation(reply@) == Err::<Seq<char>, ReplyErrorView>(e@),
            },
    {
        let document = match reply.read() {
            Ok(j) => j,
            Err(e) => {
                return Err(e);
            },
        };
        match document.get_str("translatedText") {
            Some(t) => Ok(t.to_owned()),
            None => Err(ReplyError::Format),
        }
    }

    /// What is reported of a detection that failed.
    pub fn detection_message(error: &ReplyError) -> (r: String)
        ensures
            r@ == http::reply_message(
                error@,
                "LibreTranslate detection"@,
                "Unexpected detection response format"@,
            ),
    {
        error.message("LibreTranslate detection", "Unexpected detection response format")
    }

    /// What is reported of a translation that failed.
    pub fn translation_message(error: &ReplyError) -> (r: String)
        ensures
            r@ == http::reply_message(
                error@,
                "LibreTranslate translation"@,
                "Unexpected translation response format"@,
            ),
    {
        error.message("LibreTranslate translation", "Unexpected translation response format")
    }
}

} // verus!
