//! Summaries by a language model, through Ollama's own chat API.

use crate::config::OllamaConfig;
use crate::http;
use crate::http::{HttpStatus, Post, ReplyError, ReplyErrorView};
use crate::json::{Json, JsonView};
use crate::llm;
use crate::ordering;
use crate::text;
use vstd::prelude::*;
use vstd::string::*;

verus! {

/// Seconds after which a request is given up.
pub const TIMEOUT_SECS: u64 = 120;

/// What the model is asked.
#[derive(Debug)]
pub struct ChatRequest {
    pub model: String,
    pub messages: Vec<ChatMessage>,
    pub stream: bool,
}

#[derive(Debug)]
pub struct ChatMessage {
    pub role: String,
    pub content: String,
}

/// What the model answers.
#[derive(Debug)]
pub struct ChatResponse {
    pub message: ChatMessage,
}

/// A message: role and content.
impl View for ChatMessage {
    type V = (Seq<char>, Seq<char>);

    open spec fn view(&self) -> (Seq<char>, Seq<char>) {
        (self.role@, self.content@)
    }
}

impl ChatRequest {
    /// The request as a document.
    pub open spec fn document(self) -> JsonView {
        JsonView::Object(
            seq![
                ("model"@, JsonView::Text(self.model@)),
                (
                    "messages"@,
                    JsonView::List(
                        Seq::new(
                            self.messages@.len(),
                            |i: int|
                                llm::chat_message(
                                    self.messages@[i].role@,
                                    self.messages@[i].content@,
                                ),
                        ),
                    ),
                ),
                ("stream"@, JsonView::Bool(self.stream)),
            ],
        )
    }

    /// The request as a document.
    pub fn to_json(&self) -> (r: Json)
        ensures
            r@ == self.document(),
    {
        let mut messages: Vec<Json> = Vec::new();
        let mut i: usize = 0;
        while i < self.messages.len()
            invariant
                i <= self.messages@.len(),
                messages@.len() == i,
                forall|k: int|
                    0 <= k < i ==> (#[trigger] messages@[k])@ == llm::chat_message(
                        self.messages@[k].role@,
                        self.messages@[k].content@,
                    ),
            decreases self.messages@.len() - i,
        {
            let m = &self.messages[i];
            let j = Json::object().with("role", Json::text(m.role.as_str())).with(
                "content",
                Json::text(m.content.as_str()),
            );
            assert(j@->Object_0 =~= llm::chat_message(m.role@, m.content@)->Object_0);
            messages.push(j);
            i = i + 1;
        }
        let list = Json::list(messages);
        assert(list@->List_0 =~= Seq::new(
            self.messages@.len(),
            |i: int| llm::chat_message(self.messages@[i].role@, self.messages@[i].content@),
        ));
        let r = Json::object().with("model", Json::text(self.model.as_str())).with(
            "messages",
            list,
        ).with("stream", Json::Bool(self.stream));
        assert(r@->Object_0 =~= self.document()->Object_0);
        r
    }
}

/// The summaries by the URL of their article, as entries without translation.
pub open spec fn untranslated(summaries: Seq<(String, String)>) -> Seq<llm::SummaryView> {
    Seq::new(
        summaries.len(),
        |i: int|
            llm::SummaryView { url: summaries[i].0@, summary: summaries[i].1@, translated: None },
    )
}

/// A client of Ollama's chat API.
#[derive(Debug)]
pub struct OllamaClient {
    pub config: OllamaConfig,
}

impl OllamaClient {
    pub fn new(config: OllamaConfig) -> (r: Self)
        ensures
            r.config == config,
    {
        OllamaClient { config }
    }

    /// What the model is asked in order to answer `prompt`.
    pub fn chat_body(&self, prompt: &str) -> (r: ChatRequest)
        ensures
            r.model@ == self.config.model@,
            ordering::views(r.messages@) == seq![
                ("system"@, llm::SYSTEM_PROMPT@),
                ("user"@, prompt@),
            ],
            !r.stream,
    {
        let messages: Vec<ChatMessage> = vec![
            ChatMessage { role: "system".to_owned(), content: llm::SYSTEM_PROMPT.to_owned() },
            ChatMessage { role: "user".to_owned(), content: prompt.to_owned() },
        ];
        assert(ordering::views(messages@) =~= seq![
            ("system"@, llm::SYSTEM_PROMPT@),
            ("user"@, prompt@),
        ]);
        ChatRequest { model: self.config.model.clone(), messages, stream: false }
    }

    /// The request that asks the model to answer `prompt`.
    pub fn chat_request(&self, prompt: &str) -> (r: Post)
        ensures
            r@ == llm::chat_post(self.config@, "/api/chat"@, prompt@),
    {
        let request = self.chat_body(prompt);
        let ghost messages = ordering::views(request.messages@);
        assert(messages == seq![("system"@, llm::SYSTEM_PROMPT@), ("user"@, prompt@)]);
        assert(messages.len() == 2);
        assert(request.messages@.len() == 2);
        assert(messages[0] == request.messages@[0]@ && messages[1] == request.messages@[1]@);
        let document = request.to_json();
        assert(request.document()->Object_0[1].1->List_0 =~= llm::chat_document(
            self.config.model@,
            prompt@,
        )->Object_0[1].1->List_0);
        assert(document@->Object_0 =~= llm::chat_document(
            self.config.model@,
            prompt@,
        )->Object_0);
        let headers: Vec<(String, String)> = Vec::new();
        assert(http::pairs(headers@) =~= Seq::<(Seq<char>, Seq<char>)>::empty());
        Post {
            url: self.config.url.clone().concat("/api/chat"),
            basic_auth: None,
            headers,
            body: http::Body::Document(document),
        }
    }

    /// The model's answer. `response` is what the body holds, where it can be read.
    pub fn chat(
        &self,
        status: &HttpStatus,
        body: &str,
        response: Option<ChatResponse>,
    ) -> (r: Result<String, ReplyError>)
        ensures
            match r {
                Ok(content) => http::success(status.code) && response is Some && content@
                    == response->0.message.content@,
                Err(e) => if http::success(status.code) {
                    response is None && e@ == ReplyErrorView::NotJson
                } else {
                    e@ == (ReplyErrorView::Status { status: status.text@, body: body@ })
                },
            },
    {
        if !status.is_success() {
            return Err(ReplyError::Status { status: status.text.clone(), body: body.to_owned() });
        }
        match response {
            Some(response) => Ok(response.message.content),
            None => Err(ReplyError::NotJson),
        }
    }

    /// What is reported of a reply that gives no answer.
    pub fn error_message(error: &ReplyError) -> (r: String)
        ensures
            r@ == http::reply_message(error@, "Ollama"@, ""@),
    {
        error.message("Ollama", "")
    }

    /// The request for the summary of an article, in the light of related articles.
    pub fn summarize_article(&self, rag_context: &str, title: &str, content: &str) -> (r: Post)
        ensures
            r@ == llm::article_request(
                self.config@,
                "/api/chat"@,
                rag_context@,
                title@,
                content@,
            ),
    {
        let prompt = llm::fill_article_prompt(
            self.config.article_summary_prompt.as_str(),
            rag_context,
            title,
            content,
        );
        self.chat_request(prompt.as_str())
    }

    /// The request for the paragraph that connects the articles. `article_summaries` holds
    /// the summaries with the URL of their article in front.
    pub fn generate_overall_digest(
        &self,
        today_rag: &str,
        article_summaries: &Vec<(String, String)>,
        date: &str,
    ) -> (r: Post)
        ensures
            r@ == llm::digest_request(
                self.config@,
                "/api/chat"@,
                today_rag@,
                untranslated(article_summaries@),
                date@,
                false,
            ),
    {
        let ghost all = llm::summary_lines(untranslated(article_summaries@), false);
        let mut lines: Vec<String> = Vec::new();
        let mut i: usize = 0;
        while i < article_summaries.len()
            invariant
                i <= article_summaries@.len(),
                all == llm::summary_lines(untranslated(article_summaries@), false),
                text::texts(lines@) == all.take(i as int),
            decreases article_summaries@.len() - i,
        {
            let ghost before = lines@;
            let line = llm::write_summary_line(
                article_summaries[i].1.as_str(),
                article_summaries[i].0.as_str(),
            );
            lines.push(line);
            assert(line@ == all[i as int]);
            assert(text::texts(lines@) == text::texts(before).push(line@));
            assert(all.take(i + 1) == all.take(i as int).push(all[i as int]));
            i = i + 1;
        }
        assert(all.take(i as int) == all);
        let articles = text::join(&lines, "\n");
        let prompt = llm::fill_overall_prompt(
            self.config.summarizer_prompt.as_str(),
            today_rag,
            articles.as_str(),
            date,
        );
        self.chat_request(prompt.as_str())
    }
}

} // verus!
