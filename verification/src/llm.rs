//! Summaries by a language model, through an OpenAI-compatible chat API.

use crate::config::{OllamaConfig, OllamaConfigView};
use crate::http;
use crate::http::{Body, BodyView, Post, PostView, Reply, ReplyError, ReplyErrorView, ReplyView};
use crate::json::{Json, JsonView};
use crate::ordering;
use crate::text;
use vstd::prelude::*;
use vstd::string::*;

verus! {

/// Seconds after which a request is given up.
pub const TIMEOUT_SECS: u64 = 120;

/// The characters of an article's content that go in its prompt.
pub const CONTENT_PREVIEW_CHARS: usize = 800;

/// What the model is told of its part.
pub const SYSTEM_PROMPT: &'static str = "You are a news digest summarizer. You provide concise, accurate summaries with narrative continuity.";

/// The prompt for one article's summary. The markers are replaced one after the other.
pub open spec fn article_prompt(
    template: Seq<char>,
    rag_context: Seq<char>,
    title: Seq<char>,
    content: Seq<char>,
) -> Seq<char> {
    text::replaced(
        text::replaced(
            text::replaced(template, "{rag_context}"@, rag_context),
            "{article_title}"@,
            title,
        ),
        "{article_content}"@,
        text::prefix(text::trimmed(content), CONTENT_PREVIEW_CHARS as int),
    )
}

/// The prompt for one article's summary.
pub fn fill_article_prompt(template: &str, rag_context: &str, title: &str, content: &str) -> (r:
    String)
    ensures
        r@ == article_prompt(template@, rag_context@, title@, content@),
{
    proof {
        reveal_strlit("{rag_context}");
        reveal_strlit("{article_title}");
        reveal_strlit("{article_content}");
    }
    let preview = text::preview(content, CONTENT_PREVIEW_CHARS);
    let filled = text::replace(template, "{rag_context}", rag_context);
    let filled = text::replace(filled.as_str(), "{article_title}", title);
    text::replace(filled.as_str(), "{article_content}", preview.as_str())
}

/// The prompt for the overall digest. The markers are replaced one after the other.
pub open spec fn overall_prompt(
    template: Seq<char>,
    today_rag: Seq<char>,
    articles: Seq<char>,
    date: Seq<char>,
) -> Seq<char> {
    text::replaced(
        text::replaced(
            text::replaced(template, "{rag_context}"@, today_rag),
            "{articles}"@,
            articles,
        ),
        "{date}"@,
        date,
    )
}

/// The prompt for the overall digest.
pub fn fill_overall_prompt(template: &str, today_rag: &str, articles: &str, date: &str) -> (r:
    String)
    ensures
        r@ == overall_prompt(template@, today_rag@, articles@, date@),
{
    proof {
        reveal_strlit("{rag_context}");
        reveal_strlit("{articles}");
        reveal_strlit("{date}");
    }
    let filled = text::replace(template, "{rag_context}", today_rag);
    let filled = text::replace(filled.as_str(), "{articles}", articles);
    text::replace(filled.as_str(), "{date}", date)
}

/// The line for one article in the list of summaries.
pub open spec fn summary_line(summary: Seq<char>, url: Seq<char>) -> Seq<char> {
    "  - "@ + summary + " ([Link]("@ + url + "))"@
}

/// The line for one article in the list of summaries.
pub fn write_summary_line(summary: &str, url: &str) -> (r: String)
    ensures
        r@ == summary_line(summary@, url@),
{
    "  - ".to_owned().concat(summary).concat(" ([Link](").concat(url).concat("))")
}

/// The summary of an article, with its translation if there is one.
#[derive(Debug)]
pub struct ArticleSummary {
    pub url: String,
    pub summary: String,
    pub translated: Option<String>,
}

#[verifier::ext_equal]
pub struct SummaryView {
    pub url: Seq<char>,
    pub summary: Seq<char>,
    pub translated: Option<Seq<char>>,
}

impl View for ArticleSummary {
    type V = SummaryView;

    open spec fn view(&self) -> SummaryView {
        SummaryView {
            url: self.url@,
            summary: self.summary@,
            translated: text::text_of(self.translated),
        }
    }
}

/// The summary that is shown: for a reader with a target language its translation, where
/// there is one.
pub open spec fn shown(s: SummaryView, translate: bool) -> Seq<char> {
    match s.translated {
        Some(t) if translate => t,
        _ => s.summary,
    }
}

/// The list of summaries, a line for each.
pub open spec fn summary_lines(summaries: Seq<SummaryView>, translate: bool) -> Seq<Seq<char>> {
    Seq::new(
        summaries.len(),
        |i: int| summary_line(shown(summaries[i], translate), summaries[i].url),
    )
}

/// The list of summaries, a line for each.
pub fn write_summaries(summaries: &Vec<ArticleSummary>, translate: bool) -> (r: String)
    ensures
        r@ == text::joined(summary_lines(ordering::views(summaries@), translate), "\n"@),
{
    let ghost all = summary_lines(ordering::views(summaries@), translate);
    let mut lines: Vec<String> = Vec::new();
    let mut i: usize = 0;
    while i < summaries.len()
        invariant
            i <= summaries@.len(),
            all == summary_lines(ordering::views(summaries@), translate),
            text::texts(lines@) == all.take(i as int),
        decreases summaries@.len() - i,
    {
        let ghost before = lines@;
        let s = &summaries[i];
        let line = match &s.translated {
            Some(t) => if translate {
                write_summary_line(t.as_str(), s.url.as_str())
            } else {
                write_summary_line(s.summary.as_str(), s.url.as_str())
            },
            None => write_summary_line(s.summary.as_str(), s.url.as_str()),
        };
        lines.push(line);
        assert(line@ == all[i as int]);
        assert(text::texts(lines@) == text::texts(before).push(line@));
        assert(all.take(i + 1) == all.take(i as int).push(all[i as int]));
        i = i + 1;
    }
    assert(all.take(i as int) == all);
    text::join(&lines, "\n")
}

/// A message of a chat.
pub open spec fn chat_message(role: Seq<char>, content: Seq<char>) -> JsonView {
    JsonView::Object(seq![("role"@, JsonView::Text(role)), ("content"@, JsonView::Text(content))])
}

/// The document that asks the model to answer `prompt`.
pub open spec fn chat_document(model: Seq<char>, prompt: Seq<char>) -> JsonView {
    JsonView::Object(
        seq![
            ("model"@, JsonView::Text(model)),
            (
                "messages"@,
                JsonView::List(
                    seq![
                        chat_message("system"@, SYSTEM_PROMPT@),
                        chat_message("user"@, prompt),
                    ],
                ),
            ),
            ("stream"@, JsonView::Bool(false)),
        ],
    )
}

fn write_message(role: &str, content: &str) -> (r: Json)
    ensures
        r@ == chat_message(role@, content@),
{
    let r = Json::object().with("role", Json::text(role)).with("content", Json::text(content));
    assert(r@->Object_0 =~= chat_message(role@, content@)->Object_0);
    r
}

/// The document that asks the model to answer `prompt`.
pub fn write_chat(model: &str, prompt: &str) -> (r: Json)
    ensures
        r@ == chat_document(model@, prompt@),
{
    let messages: Vec<Json> = vec![
        write_message("system", SYSTEM_PROMPT),
        write_message("user", prompt),
    ];
    let list = Json::list(messages);
    assert(list@->List_0 =~= seq![
        chat_message("system"@, SYSTEM_PROMPT@),
        chat_message("user"@, prompt@),
    ]);
    let r = Json::object().with("model", Json::text(model)).with("messages", list).with(
        "stream",
        Json::Bool(false),
    );
    assert(r@->Object_0 =~= chat_document(model@, prompt@)->Object_0);
    r
}

/// The request that asks the model behind `path` to answer `prompt`.
pub open spec fn chat_post(config: OllamaConfigView, path: Seq<char>, prompt: Seq<char>) -> PostView {
    PostView {
        url: config.url + path,
        basic_auth: None,
        headers: Seq::empty(),
        body: BodyView::Document(chat_document(config.model, prompt)),
    }
}

/// The request that asks the model behind `path` to answer `prompt`.
pub fn write_chat_post(config: &OllamaConfig, path: &str, prompt: &str) -> (r: Post)
    ensures
        r@ == chat_post(config@, path@, prompt@),
{
    let headers: Vec<(String, String)> = Vec::new();
    assert(http::pairs(headers@) =~= Seq::<(Seq<char>, Seq<char>)>::empty());
    Post {
        url: config.url.clone().concat(path),
        basic_auth: None,
        headers,
        body: Body::Document(write_chat(config.model.as_str(), prompt)),
    }
}

/// The request for the summary of an article, in the light of related articles.
pub open spec fn article_request(
    config: OllamaConfigView,
    path: Seq<char>,
    rag_context: Seq<char>,
    title: Seq<char>,
    content: Seq<char>,
) -> PostView {
    chat_post(
        config,
        path,
        article_prompt(config.article_summary_prompt, rag_context, title, content),
    )
}

/// The request for the paragraph that connects the articles.
pub open spec fn digest_request(
    config: OllamaConfigView,
    path: Seq<char>,
    today_rag: Seq<char>,
    summaries: Seq<SummaryView>,
    date: Seq<char>,
    translate: bool,
) -> PostView {
    chat_post(
        config,
        path,
        overall_prompt(
            config.summarizer_prompt,
            today_rag,
            text::joined(summary_lines(summaries, translate), "\n"@),
            date,
        ),
    )
}

/// The answer in a reply: `choices[0].message.content`.
pub open spec fn chat_content(document: JsonView) -> Option<Seq<char>> {
    match document.member("choices"@) {
        Some(choices) => match choices.element(0) {
            Some(choice) => match choice.member("message"@) {
                Some(message) => message.member_text("content"@),
                None => None,
            },
            None => None,
        },
        None => None,
    }
}

/// What a reply to a chat request gives.
pub open spec fn chat_answer(reply: ReplyView) -> Result<Seq<char>, ReplyErrorView> {
    match reply.readable() {
        Err(e) => Err(e),
        Ok(document) => match chat_content(document) {
            Some(content) => Ok(content),
            None => Err(ReplyErrorView::Format),
        },
    }
}

fn read_content(document: &Json) -> (r: Option<String>)
    ensures
        text::text_of(r) == chat_content(document@),
{
    match document.get("choices") {
        Some(choices) => match choices.at(0) {
            Some(choice) => match choice.get("message") {
                Some(message) => match message.get_str("content") {
                    Some(s) => Some(s.to_owned()),
                    None => None,
                },
                None => None,
            },
            None => None,
        },
        None => None,
    }
}

/// A client of an OpenAI-compatible chat API.
#[derive(Debug)]
pub struct LlmClient {
    pub config: OllamaConfig,
}

impl LlmClient {
    pub fn new(config: OllamaConfig) -> (r: Self)
        ensures
            r.config == config,
    {
        LlmClient { config }
    }

    /// The request that asks the model to answer `prompt`.
    pub fn chat_request(&self, prompt: &str) -> (r: Post)
        ensures
            r@ == chat_post(self.config@, "/v1/chat/completions"@, prompt@),
    {
        write_chat_post(&self.config, "/v1/chat/completions", prompt)
    }

    /// The model's answer in a reply.
    pub fn chat(&self, reply: &Reply) -> (r: Result<String, ReplyError>)
        ensures
            match r {
                Ok(content) => chat_answer(reply@) == Ok::<Seq<char>, ReplyErrorView>(content@),
                Err(e) => chat_answer(reply@) == Err::<Seq<char>, ReplyErrorView>(e@),
            },
    {
        let document = match reply.read() {
            Ok(j) => j,
            Err(e) => {
                return Err(e);
            },
        };
        match read_content(document) {
            Some(content) => Ok(content),
            None => Err(ReplyError::Format),
        }
    }

    /// What is reported of a reply that gives no answer.
    pub fn error_message(error: &ReplyError) -> (r: String)
        ensures
            r@ == http::reply_message(error@, "LLM"@, "Unexpected response format from LLM"@),
    {
        error.message("LLM", "Unexpected response format from LLM")
    }

    /// The request for the summary of an article, in the light of related articles.
    pub fn summarize_article(&self, rag_context: &str, title: &str, content: &str) -> (r: Post)
        ensures
            r@ == article_request(
                self.config@,
                "/v1/chat/completions"@,
                rag_context@,
                title@,
                content@,
            ),
    {
        let prompt = fill_article_prompt(
            self.config.article_summary_prompt.as_str(),
            rag_context,
            title,
            content,
        );
        self.chat_request(prompt.as_str())
    }

    /// The request for the paragraph that connects the articles. A reader with a target
    /// language is shown translations where there are any.
    pub fn generate_overall_digest(
        &self,
        today_rag: &str,
        article_summaries: &Vec<ArticleSummary>,
        date: &str,
        target_language: Option<&String>,
    ) -> (r: Post)
        ensures
            r@ == digest_request(
                self.config@,
                "/v1/chat/completions"@,
                today_rag@,
                ordering::views(article_summaries@),
                date@,
                target_language is Some,
            ),
    {
        let articles = write_summaries(article_summaries, target_language.is_some());
        let prompt = fill_overall_prompt(
            self.config.summarizer_prompt.as_str(),
            today_rag,
            articles.as_str(),
            date,
        );
        self.chat_request(prompt.as_str())
    }
}

} // verus!
