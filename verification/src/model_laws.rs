//! What the language model and the translator are asked, and what is read from their replies.

use crate::config::OllamaConfigView;
use crate::http::{PostView, ReplyErrorView, ReplyView};
use crate::json;
use crate::json::JsonView;
use crate::llm;
use crate::llm::SummaryView;
use crate::ollama;
use crate::text;
use crate::translate;
use vstd::prelude::*;
use vstd::string::*;

verus! {

/// The first eight hundred characters of a text without the white space around it, or all of
/// them.
pub open spec fn front_of(content: Seq<char>) -> Seq<char> {
    let bare = text::trimmed(content);
    if bare.len() <= 800 {
        bare
    } else {
        bare.take(800)
    }
}

/// The markers of the prompts, and where they differ.
proof fn lemma_markers()
    ensures
        "{rag_context}"@.len() == 13,
        "{article_title}"@.len() == 15,
        "{article_content}"@.len() == 17,
        "{articles}"@.len() == 10,
        "{date}"@.len() == 6,
        "{rag_context}"@[0] == '{',
        "{article_title}"@[0] == '{',
        "{article_content}"@[0] == '{',
        "{articles}"@[0] == '{',
        "{date}"@[0] == '{',
        "{rag_context}"@[1] == 'r',
        "{article_title}"@[1] == 'a',
        "{article_content}"@[1] == 'a',
        "{articles}"@[1] == 'a',
        "{date}"@[1] == 'd',
        "{article_title}"@[9] == 't',
        "{article_content}"@[9] == 'c',
        !"{rag_context}"@.drop_first().contains('{'),
        !"{article_title}"@.drop_first().contains('{'),
        !"{article_content}"@.drop_first().contains('{'),
        !"{articles}"@.drop_first().contains('{'),
        !"{date}"@.drop_first().contains('{'),
{
    reveal_strlit("{rag_context}");
    reveal_strlit("{article_title}");
    reveal_strlit("{article_content}");
    reveal_strlit("{articles}");
    reveal_strlit("{date}");
}

/// The prompt for an article is the template with the context, the title and the front of
/// the content where its markers stand, and else as it is.
pub proof fn law_article_prompt_fills_its_markers(
    a: Seq<char>,
    rag_context: Seq<char>,
    b: Seq<char>,
    title: Seq<char>,
    c: Seq<char>,
    content: Seq<char>,
    d: Seq<char>,
)
    requires
        !a.contains('{') && !b.contains('{') && !c.contains('{') && !d.contains('{'),
        !rag_context.contains('{') && !title.contains('{'),
    ensures
        llm::article_prompt(
            a + "{rag_context}"@ + b + "{article_title}"@ + c + "{article_content}"@ + d,
            rag_context,
            title,
            content,
        ) == a + rag_context + b + title + c + front_of(content) + d,
{
    lemma_markers();
    lemma_three_markers(
        a,
        "{rag_context}"@,
        rag_context,
        b,
        "{article_title}"@,
        title,
        c,
        "{article_content}"@,
        front_of(content),
        d,
        1,
        1,
        9,
    );
}

/// The prompt for the digest is the template with the stored articles, the list of summaries
/// and the date where its markers stand, and else as it is.
pub proof fn law_overall_prompt_fills_its_markers(
    a: Seq<char>,
    today_rag: Seq<char>,
    b: Seq<char>,
    articles: Seq<char>,
    c: Seq<char>,
    date: Seq<char>,
    d: Seq<char>,
)
    requires
        !a.contains('{') && !b.contains('{') && !c.contains('{') && !d.contains('{'),
        !today_rag.contains('{') && !articles.contains('{'),
    ensures
        llm::overall_prompt(
            a + "{rag_context}"@ + b + "{articles}"@ + c + "{date}"@ + d,
            today_rag,
            articles,
            date,
        ) == a + today_rag + b + articles + c + date + d,
{
    lemma_markers();
    lemma_three_markers(
        a,
        "{rag_context}"@,
        today_rag,
        b,
        "{articles}"@,
        articles,
        c,
        "{date}"@,
        date,
        d,
        1,
        1,
        1,
    );
}

proof fn lemma_concat_lacks(a: Seq<char>, b: Seq<char>, c: char)
    requires
        !a.contains(c),
        !b.contains(c),
    ensures
        !(a + b).contains(c),
{
    if (a + b).contains(c) {
        let i = choose|i: int| 0 <= i < (a + b).len() && (a + b)[i] == c;
        if i < a.len() {
            assert(a[i] == c);
        } else {
            assert(b[i - a.len()] == c);
        }
    }
}

proof fn lemma_three_markers(
    a: Seq<char>,
    m1: Seq<char>,
    x: Seq<char>,
    b: Seq<char>,
    m2: Seq<char>,
    y: Seq<char>,
    c: Seq<char>,
    m3: Seq<char>,
    z: Seq<char>,
    d: Seq<char>,
    k12: int,
    k13: int,
    k23: int,
)
    requires
        m1.len() > 1 && m2.len() > 1 && m3.len() > 1,
        m1[0] == '{' && m2[0] == '{' && m3[0] == '{',
        0 <= k12 < m1.len() && k12 < m2.len() && m1[k12] != m2[k12],
        0 <= k13 < m1.len() && k13 < m3.len() && m1[k13] != m3[k13],
        0 <= k23 < m2.len() && k23 < m3.len() && m2[k23] != m3[k23],
        !m1.drop_first().contains('{'),
        !m2.drop_first().contains('{'),
        !m3.drop_first().contains('{'),
        !a.contains('{') && !b.contains('{') && !c.contains('{') && !d.contains('{'),
        !x.contains('{') && !y.contains('{'),
    ensures
        text::replaced(
            text::replaced(text::replaced(a + m1 + b + m2 + c + m3 + d, m1, x), m2, y),
            m3,
            z,
        ) == a + x + b + y + c + z + d,
{
    let tail3 = m3 + d;
    let tail2 = m2 + (c + tail3);
    assert(a + m1 + b + m2 + c + m3 + d =~= a + m1 + (b + tail2));
    text::law_replace_first_occurrence(a, m1, b + tail2, x);
    text::lemma_replace_passes_plain_text(b, m1, tail2, x);
    text::law_replace_passes_other_text(m2, m1, c + tail3, x, k12);
    text::lemma_replace_passes_plain_text(c, m1, tail3, x);
    text::law_replace_passes_other_text(m3, m1, d, x, k13);
    text::law_replace_lacks_marker(d, m1, x);
    let one = a + x + (b + tail2);
    assert(text::replaced(a + m1 + b + m2 + c + m3 + d, m1, x) == one);
    let front = a + x + b;
    lemma_concat_lacks(a, x, '{');
    lemma_concat_lacks(a + x, b, '{');
    assert(one =~= front + m2 + (c + tail3));
    text::law_replace_first_occurrence(front, m2, c + tail3, y);
    text::lemma_replace_passes_plain_text(c, m2, tail3, y);
    text::law_replace_passes_other_text(m3, m2, d, y, k23);
    text::law_replace_lacks_marker(d, m2, y);
    let two = front + y + (c + tail3);
    assert(text::replaced(one, m2, y) == two);
    let longer = front + y + c;
    lemma_concat_lacks(front, y, '{');
    lemma_concat_lacks(front + y, c, '{');
    assert(two =~= longer + m3 + d);
    text::law_replace_first_occurrence(longer, m3, d, z);
    text::law_replace_lacks_marker(d, m3, z);
    assert(longer + z + d =~= a + x + b + y + c + z + d);
}

/// A template without markers is a prompt as it stands.
pub proof fn law_template_without_markers_stays(
    template: Seq<char>,
    a: Seq<char>,
    b: Seq<char>,
    c: Seq<char>,
)
    requires
        !template.contains('{'),
    ensures
        llm::article_prompt(template, a, b, c) == template,
        llm::overall_prompt(template, a, b, c) == template,
{
    lemma_markers();
    text::law_replace_lacks_marker(template, "{rag_context}"@, a);
    text::law_replace_lacks_marker(template, "{article_title}"@, b);
    text::law_replace_lacks_marker(
        template,
        "{article_content}"@,
        text::prefix(text::trimmed(c), 800),
    );
    text::law_replace_lacks_marker(template, "{articles}"@, b);
    text::law_replace_lacks_marker(template, "{date}"@, c);
}

/// A reader is shown a summary's translation where there is one and they read another
/// language, and else the summary itself.
pub proof fn law_reader_is_shown_the_translation(s: SummaryView, translate: bool)
    ensures
        translate && s.translated is Some ==> llm::shown(s, translate) == s.translated->0,
        !translate || s.translated is None ==> llm::shown(s, translate) == s.summary,
{
}

/// The list has a line for each summary, in order, that shows the summary and links to the
/// article's address: each line stands in the joined list.
pub proof fn law_list_shows_every_summary(summaries: Seq<SummaryView>, translate: bool, i: int)
    requires
        0 <= i < summaries.len(),
    ensures
        ({
            let lines = llm::summary_lines(summaries, translate);
            let all = text::joined(lines, "\n"@);
            &&& lines.len() == summaries.len()
            &&& lines[i] == "  - "@ + llm::shown(summaries[i], translate) + " ([Link]("@
                + summaries[i].url + "))"@
            &&& text::occurs(lines[i], all)
            &&& text::occurs(summaries[i].url, lines[i])
            &&& text::occurs(llm::shown(summaries[i], translate), lines[i])
        }),
{
    let lines = llm::summary_lines(summaries, translate);
    let summary = llm::shown(summaries[i], translate);
    let url = summaries[i].url;
    text::law_join_holds_every_part(lines, "\n"@, i);
    text::lemma_occurs_between("  - "@, summary, " ([Link]("@ + url + "))"@);
    assert("  - "@ + summary + (" ([Link]("@ + url + "))"@) =~= lines[i]);
    text::lemma_occurs_between("  - "@ + summary + " ([Link]("@, url, "))"@);
}

/// One more summary is one more line, behind the others.
pub proof fn law_list_grows_by_lines(summaries: Seq<SummaryView>, next: SummaryView, translate: bool)
    requires
        summaries.len() > 0,
    ensures
        text::joined(llm::summary_lines(summaries.push(next), translate), "\n"@) == text::joined(
            llm::summary_lines(summaries, translate),
            "\n"@,
        ) + "\n"@ + text::joined(llm::summary_lines(seq![next], translate), "\n"@),
{
    let front = llm::summary_lines(summaries, translate);
    let back = llm::summary_lines(seq![next], translate);
    text::law_join_puts_separators_between(front, back, "\n"@);
    assert(front + back =~= llm::summary_lines(summaries.push(next), translate));
}

/// The entries of pairs of an address and a summary hold these, with no translation.
pub proof fn law_pairs_are_address_and_summary(pairs: Seq<(String, String)>, i: int)
    requires
        0 <= i < pairs.len(),
    ensures
        ollama::untranslated(pairs).len() == pairs.len(),
        ollama::untranslated(pairs)[i].url == pairs[i].0@,
        ollama::untranslated(pairs)[i].summary == pairs[i].1@,
        ollama::untranslated(pairs)[i].translated is None,
{
}

proof fn lemma_chat_names()
    ensures
        "model"@.len() == 5,
        "messages"@.len() == 8,
        "stream"@.len() == 6,
        "role"@.len() == 4,
        "content"@.len() == 7,
{
    reveal_strlit("model");
    reveal_strlit("messages");
    reveal_strlit("stream");
    reveal_strlit("role");
    reveal_strlit("content");
}

/// The model is asked by a document that names it, asks for the answer in one piece, and
/// has the prompt as the user's message behind that of the system.
pub proof fn law_chat_request_holds_the_prompt(
    config: OllamaConfigView,
    path: Seq<char>,
    prompt: Seq<char>,
)
    ensures
        ({
            let post = llm::chat_post(config, path, prompt);
            let d = post.body->Document_0;
            let messages = d.member("messages"@)->0;
            &&& post.url == config.url + path
            &&& post.basic_auth is None
            &&& post.headers.len() == 0
            &&& post.body is Document
            &&& d.member_text("model"@) == Some(config.model)
            &&& d.member("stream"@) == Some(JsonView::Bool(false))
            &&& d.member("messages"@) is Some
            &&& messages.elements() is Some && messages.elements()->0.len() == 2
            &&& messages.element(0)->0.member_text("role"@) == Some("system"@)
            &&& messages.element(0)->0.member_text("content"@) == Some(llm::SYSTEM_PROMPT@)
            &&& messages.element(1)->0.member_text("role"@) == Some("user"@)
            &&& messages.element(1)->0.member_text("content"@) == Some(prompt)
        }),
{
    lemma_chat_names();
    let entries = llm::chat_document(config.model, prompt)->Object_0;
    json::law_first_entry_is_the_member(entries, 0);
    json::law_first_entry_is_the_member(entries, 1);
    json::law_first_entry_is_the_member(entries, 2);
    let system = llm::chat_message("system"@, llm::SYSTEM_PROMPT@)->Object_0;
    json::law_first_entry_is_the_member(system, 0);
    json::law_first_entry_is_the_member(system, 1);
    let user = llm::chat_message("user"@, prompt)->Object_0;
    json::law_first_entry_is_the_member(user, 0);
    json::law_first_entry_is_the_member(user, 1);
}

/// The model's answer is the content of the first choice's message; a document without one
/// is of another form, and a reply that cannot be read gives its error.
pub proof fn law_first_choice_is_the_answer(
    reply: ReplyView,
    document: JsonView,
    choices: Seq<JsonView>,
    message: JsonView,
    content: Seq<char>,
    error: ReplyErrorView,
)
    ensures
        reply.readable() == Ok::<JsonView, ReplyErrorView>(document) && document.member(
            "choices"@,
        ) == Some(JsonView::List(choices)) && choices.len() > 0 && choices[0].member("message"@)
            == Some(message) && message.member("content"@) == Some(JsonView::Text(content))
            ==> llm::chat_answer(reply) == Ok::<Seq<char>, ReplyErrorView>(content),
        reply.readable() == Ok::<JsonView, ReplyErrorView>(document) && (document.member(
            "choices"@,
        ) is None || document.member("choices"@) == Some(JsonView::List(Seq::empty())))
            ==> llm::chat_answer(reply) == Err::<Seq<char>, ReplyErrorView>(
            ReplyErrorView::Format,
        ),
        reply.readable() == Err::<JsonView, ReplyErrorView>(error) ==> llm::chat_answer(reply)
            == Err::<Seq<char>, ReplyErrorView>(error),
{
}

/// Whether a request has JSON's headers, and the key in the header for it where there is one.
pub open spec fn authorized_by(post: PostView, api_key: Option<Seq<char>>) -> bool {
    &&& post.headers[0] == ("Content-Type"@, "application/json"@)
    &&& api_key is None ==> post.headers.len() == 1
    &&& api_key matches Some(key) ==> post.headers.len() == 2 && post.headers[1] == (
        "Authorization"@,
        key,
    )
    &&& post.basic_auth is None
    &&& post.body is Document
}

/// A language is asked for with the text alone; a translation with the text, the language it
/// is in and the one it is to be in. Both carry the key where there is one.
pub proof fn law_translator_is_asked_with_text_and_languages(
    base_url: Seq<char>,
    api_key: Option<Seq<char>>,
    q: Seq<char>,
    source: Seq<char>,
    target: Seq<char>,
)
    ensures
        ({
            let post = translate::detect_post(base_url, api_key, q);
            let d = post.body->Document_0;
            &&& post.url == base_url + "/v2/detect"@
            &&& authorized_by(post, api_key)
            &&& d.member_text("q"@) == Some(q)
        }),
        ({
            let post = translate::translate_post(base_url, api_key, q, source, target);
            let d = post.body->Document_0;
            &&& post.url == base_url + "/v2/translate"@
            &&& authorized_by(post, api_key)
            &&& d.member_text("q"@) == Some(q)
            &&& d.member_text("source"@) == Some(source)
            &&& d.member_text("target"@) == Some(target)
        }),
{
    reveal_strlit("q");
    reveal_strlit("source");
    reveal_strlit("target");
    assert("q"@.len() == 1 && "source"@.len() == 6 && "target"@.len() == 6);
    assert("source"@[0] == 's' && "target"@[0] == 't');
    let entries = translate::translate_post(
        base_url,
        api_key,
        q,
        source,
        target,
    ).body->Document_0->Object_0;
    json::law_first_entry_is_the_member(entries, 0);
    json::law_first_entry_is_the_member(entries, 1);
    json::law_first_entry_is_the_member(entries, 2);
    let only = translate::detect_post(base_url, api_key, q).body->Document_0->Object_0;
    json::law_first_entry_is_the_member(only, 0);
}

/// A detection gives the language of the member "0", a translation the translated text; a
/// document without it is of another form, and a reply that cannot be read gives its error.
pub proof fn law_translator_replies_are_read(
    reply: ReplyView,
    document: JsonView,
    first: JsonView,
    found: Seq<char>,
    error: ReplyErrorView,
)
    ensures
        reply.readable() == Ok::<JsonView, ReplyErrorView>(document) && document.member("0"@)
            == Some(first) && first.member("language"@) == Some(JsonView::Text(found))
            ==> translate::detection(reply) == Ok::<Seq<char>, ReplyErrorView>(found),
        reply.readable() == Ok::<JsonView, ReplyErrorView>(document) && document.member("0"@) is None
            ==> translate::detection(reply) == Err::<Seq<char>, ReplyErrorView>(
            ReplyErrorView::Format,
        ),
        reply.readable() == Err::<JsonView, ReplyErrorView>(error) ==> translate::detection(reply)
            == Err::<Seq<char>, ReplyErrorView>(error),
        reply.readable() == Ok::<JsonView, ReplyErrorView>(document) && document.member(
            "translatedText"@,
        ) == Some(JsonView::Text(found)) ==> translate::translation(reply) == Ok::<
            Seq<char>,
            ReplyErrorView,
        >(found),
        reply.readable() == Ok::<JsonView, ReplyErrorView>(document) && document.member(
            "translatedText"@,
        ) is None ==> translate::translation(reply) == Err::<Seq<char>, ReplyErrorView>(
            ReplyErrorView::Format,
        ),
        reply.readable() == Err::<JsonView, ReplyErrorView>(error) ==> translate::translation(
            reply,
        ) == Err::<Seq<char>, ReplyErrorView>(error),
{
}

/// A chat request is written with its model, its messages in order, each with its role and
/// content, and whether the answer is to come in pieces.
pub proof fn law_chat_document_holds_its_messages(request: ollama::ChatRequest, i: int)
    requires
        0 <= i < request.messages@.len(),
    ensures
        ({
            let d = request.document();
            let messages = d.member("messages"@)->0;
            &&& d.member_text("model"@) == Some(request.model@)
            &&& d.member("stream"@) == Some(JsonView::Bool(request.stream))
            &&& d.member("messages"@) is Some
            &&& messages.elements() is Some
            &&& messages.elements()->0.len() == request.messages@.len()
            &&& messages.element(i)->0.member_text("role"@) == Some(request.messages@[i].role@)
            &&& messages.element(i)->0.member_text("content"@) == Some(
                request.messages@[i].content@,
            )
        }),
{
    lemma_chat_names();
    let entries = request.document()->Object_0;
    json::law_first_entry_is_the_member(entries, 0);
    json::law_first_entry_is_the_member(entries, 1);
    json::law_first_entry_is_the_member(entries, 2);
    let message = llm::chat_message(
        request.messages@[i].role@,
        request.messages@[i].content@,
    )->Object_0;
    json::law_first_entry_is_the_member(message, 0);
    json::law_first_entry_is_the_member(message, 1);
}

/// Nothing but what a reply holds is read from it: an answer, a language or a translation
/// that is given stands in the reply's document where it belongs, and a readable document
/// that gives none is of another form.
pub proof fn law_nothing_is_read_that_is_not_there(reply: ReplyView, document: JsonView)
    requires
        reply.readable() == Ok::<JsonView, ReplyErrorView>(document),
    ensures
        llm::chat_answer(reply) matches Ok(answer) ==> {
            let choices = document.member("choices"@)->0;
            let message = choices.element(0)->0.member("message"@)->0;
            &&& document.member("choices"@) is Some
            &&& choices is List && choices->List_0.len() > 0
            &&& choices.element(0)->0.member("message"@) is Some
            &&& message.member("content"@) == Some(JsonView::Text(answer))
        },
        translate::detection(reply) matches Ok(code) ==> {
            &&& document.member("0"@) is Some
            &&& document.member("0"@)->0.member("language"@) == Some(JsonView::Text(code))
        },
        translate::translation(reply) matches Ok(found) ==> document.member("translatedText"@)
            == Some(JsonView::Text(found)),
        llm::chat_answer(reply) matches Err(e) ==> e == ReplyErrorView::Format,
        translate::detection(reply) matches Err(e) ==> e == ReplyErrorView::Format,
        translate::translation(reply) matches Err(e) ==> e == ReplyErrorView::Format,
{
}

/// What the model is asked by a request: the content of the user's message.
pub open spec fn question(post: PostView) -> Option<Seq<char>> {
    match post.body->Document_0.member("messages"@) {
        Some(messages) => match messages.element(1) {
            Some(message) => message.member_text("content"@),
            None => None,
        },
        None => None,
    }
}

/// The model is asked about an article by the prompt that is configured for articles, with
/// the context, the title and the front of the content where its markers stand.
pub proof fn law_model_is_asked_about_the_article(
    config: OllamaConfigView,
    path: Seq<char>,
    a: Seq<char>,
    rag_context: Seq<char>,
    b: Seq<char>,
    title: Seq<char>,
    c: Seq<char>,
    content: Seq<char>,
    d: Seq<char>,
)
    requires
        config.article_summary_prompt == a + "{rag_context}"@ + b + "{article_title}"@ + c
            + "{article_content}"@ + d,
        !a.contains('{') && !b.contains('{') && !c.contains('{') && !d.contains('{'),
        !rag_context.contains('{') && !title.contains('{'),
    ensures
        ({
            let post = llm::article_request(config, path, rag_context, title, content);
            &&& post.url == config.url + path
            &&& post.body is Document
            &&& post.body->Document_0.member_text("model"@) == Some(config.model)
            &&& question(post) == Some(a + rag_context + b + title + c + front_of(content) + d)
        }),
{
    law_article_prompt_fills_its_markers(a, rag_context, b, title, c, content, d);
    law_chat_request_holds_the_prompt(
        config,
        path,
        llm::article_prompt(config.article_summary_prompt, rag_context, title, content),
    );
}

/// The model is asked for the digest by the prompt that is configured for it: the stored
/// articles, the date and every summary that the reader is to be shown, with its address,
/// stand in what it is asked.
pub proof fn law_model_is_asked_with_every_summary(
    config: OllamaConfigView,
    path: Seq<char>,
    a: Seq<char>,
    today_rag: Seq<char>,
    b: Seq<char>,
    summaries: Seq<SummaryView>,
    c: Seq<char>,
    date: Seq<char>,
    d: Seq<char>,
    translate: bool,
    i: int,
)
    requires
        config.summarizer_prompt == a + "{rag_context}"@ + b + "{articles}"@ + c + "{date}"@ + d,
        !a.contains('{') && !b.contains('{') && !c.contains('{') && !d.contains('{'),
        !today_rag.contains('{'),
        !text::joined(llm::summary_lines(summaries, translate), "\n"@).contains('{'),
        0 <= i < summaries.len(),
    ensures
        ({
            let post = llm::digest_request(config, path, today_rag, summaries, date, translate);
            let list = text::joined(llm::summary_lines(summaries, translate), "\n"@);
            let shown = if translate && summaries[i].translated is Some {
                summaries[i].translated->0
            } else {
                summaries[i].summary
            };
            &&& post.url == config.url + path
            &&& post.body is Document
            &&& post.body->Document_0.member_text("model"@) == Some(config.model)
            &&& question(post) == Some(a + today_rag + b + list + c + date + d)
            &&& text::occurs(
                "  - "@ + shown + " ([Link]("@ + summaries[i].url + "))"@,
                question(post)->0,
            )
        }),
{
    let list = text::joined(llm::summary_lines(summaries, translate), "\n"@);
    law_overall_prompt_fills_its_markers(a, today_rag, b, list, c, date, d);
    law_chat_request_holds_the_prompt(
        config,
        path,
        llm::overall_prompt(config.summarizer_prompt, today_rag, list, date),
    );
    law_list_shows_every_summary(summaries, translate, i);
    let line = llm::summary_lines(summaries, translate)[i];
    text::lemma_occurs_within(line, a + today_rag + b, list, c + date + d);
    assert(a + today_rag + b + list + (c + date + d) =~= a + today_rag + b + list + c + date + d);
}

} // verus!
