//! What the other two interfaces of the feed reader are asked, and what is read from them.

use crate::config::FreshRSSConfigView;
use crate::freshrss;
use crate::freshrss::{ArticleView, GreaderErrorView, GreaderMarkView, MarkReplyView};
use crate::freshrss_native;
use crate::freshrss_native::{EntryView, NativeErrorView};
use crate::http::{PostView, ReplyErrorView, ReplyView};
use crate::json;
use crate::json::JsonView;
use crate::ordering;
use crate::text;
use vstd::prelude::*;
use vstd::string::*;

verus! {

/// The number of an entry is what its id ends in, behind the last slash or alone.
pub proof fn law_entry_number_is_behind_the_last_slash(front: Seq<char>, n: nat)
    requires
        n <= u64::MAX,
    ensures
        freshrss::entry_number(front + seq!['/'] + text::decimal(n)) == Some(n as int),
        freshrss::entry_number(text::decimal(n)) == Some(n as int),
{
    let d = text::decimal(n);
    text::law_decimal_is_digits(n);
    text::law_decimal_reads_back(n);
    text::law_split_without_separator(d, '/');
    text::law_split_at_separator(front, '/', d);
    let pieces = text::split_on(front, '/') + seq![d];
    assert(pieces.last() == d);
}

/// An id that ends in anything else has no number.
pub proof fn law_other_ids_have_no_number(front: Seq<char>, back: Seq<char>, i: int)
    requires
        !back.contains('/'),
        0 <= i < back.len() && !text::digit(back[i]) && (i > 0 || (back[0] != '+' && back[0]
            != '-')) || back.len() == 0,
    ensures
        freshrss::entry_number(front + seq!['/'] + back) is None,
{
    text::law_split_without_separator(back, '/');
    text::law_split_at_separator(front, '/', back);
    let pieces = text::split_on(front, '/') + seq![back];
    assert(pieces.last() == back);
    if back.len() > 0 {
        text::law_only_digits_are_numbers(back, i);
    }
}

/// An entry's id is the number in its member "id"; without the member, or without a number
/// in it, the error says so.
pub proof fn law_entry_has_the_id_it_names(item: JsonView)
    ensures
        item.member_text("id"@) is None ==> freshrss::entry_id(item) == Err::<
            u64,
            GreaderErrorView,
        >(GreaderErrorView::MissingId),
        item.member_text("id"@) matches Some(id) ==> {
            &&& freshrss::entry_number(id) is None ==> freshrss::entry_id(item) == Err::<
                u64,
                GreaderErrorView,
            >(GreaderErrorView::BadId { text: id })
            &&& freshrss::entry_number(id) matches Some(n) ==> freshrss::entry_id(item) is Ok
                && freshrss::entry_id(item)->Ok_0 == n
        },
{
    if let Some(id) = item.member_text("id"@) {
        let last = text::split_on(id, '/').last();
        assert(text::unsigned_up_to(last, u64::MAX as int) matches Some(n) ==> 0 <= n <= u64::MAX);
    }
}

/// Whether `s` is the text under `key`, or the default where there is none.
pub open spec fn text_or(
    s: Seq<char>,
    document: Option<JsonView>,
    key: Seq<char>,
    default: Seq<char>,
) -> bool {
    &&& document is Some && document->0.member(key) is Some && document->0.member(key)->0 is Text
        ==> s == document->0.member(key)->0->Text_0
    &&& document is None || document->0.member(key) is None || !(document->0.member(key)->0 is Text)
        ==> s == default
}

/// The first element under `key`, where there is a list with one.
pub open spec fn head(item: JsonView, key: Seq<char>) -> Option<JsonView> {
    if item.member(key) is Some && item.member(key)->0 is List && item.member(
        key,
    )->0->List_0.len() > 0 {
        Some(item.member(key)->0->List_0[0])
    } else {
        None
    }
}

/// Whether an article says what its entry says.
pub open spec fn tells_of(article: ArticleView, item: JsonView) -> bool {
    let none = Seq::<char>::empty();
    &&& freshrss::entry_id(item) == Ok::<u64, GreaderErrorView>(article.id)
    &&& text_or(article.title, Some(item), "title"@, none)
    &&& text_or(article.content, Some(item), "summary"@, none)
    &&& text_or(article.url, head(item, "canonical"@), "href"@, none)
    &&& text_or(article.feed_title, head(item, "streamIds"@), "title"@, "Unknown Feed"@)
    &&& text_or(article.feed_url, head(item, "streamIds"@), "url"@, none)
    &&& article.author == item.member_text("author"@)
    &&& article.language is None
    &&& article.published == published(item)
}

/// The publication time of an entry: its member "ts", or zero.
pub open spec fn published(item: JsonView) -> int {
    if item.member("ts"@) is Some && item.member("ts"@)->0.integer() is Some {
        item.member("ts"@)->0.integer()->0
    } else {
        0
    }
}

/// The article of an entry says what the entry says.
pub proof fn law_article_says_what_its_entry_says(item: JsonView, id: u64)
    requires
        freshrss::entry_id(item) == Ok::<u64, GreaderErrorView>(id),
    ensures
        tells_of(freshrss::entry_article(item, id), item),
{
}

/// The articles of the entries: one for each entry of the window, and none for the others.
pub proof fn law_entries_of_the_window_are_taken_up(items: Seq<JsonView>, since: int, i: int, k: int)
    requires
        freshrss::entry_articles(items, since) is Ok,
    ensures
        ({
            let articles = freshrss::entry_articles(items, since)->Ok_0;
            &&& 0 <= i < items.len() ==> freshrss::entry_id(items[i]) is Ok
            &&& 0 <= i < items.len() && published(items[i]) >= since ==> exists|j: int|
                0 <= j < articles.len() && tells_of(#[trigger] articles[j], items[i])
            &&& 0 <= k < articles.len() ==> exists|j: int|
                0 <= j < items.len() && published(#[trigger] items[j]) >= since && tells_of(
                    articles[k],
                    items[j],
                )
        }),
    decreases items.len(),
{
    if items.len() > 0 {
        let shorter = items.drop_last();
        let last = items[items.len() - 1];
        let before = freshrss::entry_articles(shorter, since)->Ok_0;
        let articles = freshrss::entry_articles(items, since)->Ok_0;
        law_entries_of_the_window_are_taken_up(shorter, since, i, k);
        if 0 <= i < shorter.len() && published(items[i]) >= since {
            assert(shorter[i] == items[i]);
            let j = choose|j: int|
                0 <= j < before.len() && tells_of(#[trigger] before[j], shorter[i]);
            assert(articles[j] == before[j]);
        }
        if i == shorter.len() && published(last) >= since {
            assert(tells_of(articles[articles.len() - 1], last));
        }
        if 0 <= k < before.len() {
            let j = choose|j: int|
                0 <= j < shorter.len() && published(#[trigger] shorter[j]) >= since && tells_of(
                    before[k],
                    shorter[j],
                );
            assert(items[j] == shorter[j]);
        }
        if k == before.len() && k < articles.len() {
            assert(tells_of(articles[k], last));
        }
    }
}

/// The first entry without an id is the one that is reported.
pub proof fn law_first_bad_entry_is_reported(items: Seq<JsonView>, since: int, i: int)
    requires
        0 <= i < items.len(),
        freshrss::entry_id(items[i]) is Err,
        forall|j: int| 0 <= j < i ==> freshrss::entry_id(#[trigger] items[j]) is Ok,
    ensures
        freshrss::entry_articles(items, since) is Err,
        freshrss::entry_articles(items, since)->Err_0 == freshrss::entry_id(items[i])->Err_0,
    decreases items.len(),
{
    let shorter = items.drop_last();
    if i < shorter.len() {
        law_first_bad_entry_is_reported(shorter, since, i);
    } else {
        lemma_good_entries(shorter, since);
    }
}

proof fn lemma_good_entries(items: Seq<JsonView>, since: int)
    requires
        forall|j: int| 0 <= j < items.len() ==> freshrss::entry_id(#[trigger] items[j]) is Ok,
    ensures
        freshrss::entry_articles(items, since) is Ok,
    decreases items.len(),
{
    if items.len() > 0 {
        let shorter = items.drop_last();
        assert forall|j: int| 0 <= j < shorter.len() implies freshrss::entry_id(
            #[trigger] shorter[j],
        ) is Ok by {
            assert(freshrss::entry_id(items[j]) is Ok);
        }
        assert(freshrss::entry_id(items[items.len() - 1]) is Ok);
        lemma_good_entries(shorter, since);
    }
}

/// A reply with a list of entries gives their articles, newest first, none left out; a
/// document of another form and a reply that cannot be read give an error.
pub proof fn law_reply_gives_the_articles_of_its_entries(
    reply: ReplyView,
    since: int,
    items: Seq<JsonView>,
)
    ensures
        reply.readable() == Ok::<JsonView, ReplyErrorView>(JsonView::List(items))
            && freshrss::entry_articles(items, since) is Ok ==> ({
            let all = freshrss::entry_articles(items, since)->Ok_0;
            let given = freshrss::fetched(reply, since);
            &&& given is Ok
            &&& given->Ok_0.to_multiset() == all.to_multiset()
            &&& forall|i: int, j: int|
                0 <= i <= j < given->Ok_0.len() ==> (#[trigger] given->Ok_0[i]).published >= (
                #[trigger] given->Ok_0[j]).published
        }),
        reply.readable() == Ok::<JsonView, ReplyErrorView>(JsonView::List(items))
            && freshrss::entry_articles(items, since) is Err ==> freshrss::fetched(reply, since)
            == freshrss::entry_articles(items, since),
        reply.readable() is Ok && !(reply.readable()->Ok_0 is List) ==> freshrss::fetched(
            reply,
            since,
        ) == Err::<Seq<ArticleView>, GreaderErrorView>(
            GreaderErrorView::Reply(ReplyErrorView::Format),
        ),
        reply.readable() is Err ==> freshrss::fetched(reply, since) == Err::<
            Seq<ArticleView>,
            GreaderErrorView,
        >(GreaderErrorView::Reply(reply.readable()->Err_0)),
{
    if freshrss::entry_articles(items, since) is Ok {
        let all = freshrss::entry_articles(items, since)->Ok_0;
        ordering::law_largest_first_sorts(all, freshrss::by_date());
        let given = ordering::largest_first(all, freshrss::by_date());
        assert forall|i: int, j: int| 0 <= i <= j < given.len() implies (
        #[trigger] given[i]).published >= (#[trigger] given[j]).published by {
            assert((freshrss::by_date())(given[i]) >= (freshrss::by_date())(given[j]));
        }
    }
}

/// A user's own password, or the global one where there is none.
pub open spec fn own_or_global(own: Option<Seq<char>>, global: Seq<char>) -> Seq<char> {
    if own is Some {
        own->0
    } else {
        global
    }
}

/// Whether a request is one of the user's, with their own password or else the global one.
pub open spec fn asked_by(
    post: PostView,
    config: FreshRSSConfigView,
    username: Seq<char>,
    password: Option<Seq<char>>,
) -> bool {
    &&& post.url == config.url + "/api/greader.php"@
    &&& post.basic_auth is Some
    &&& post.basic_auth == Some((username, own_or_global(password, config.api_password)))
    &&& post.headers == seq![("Content-Type"@, "application/x-www-form-urlencoded"@)]
    &&& post.body is Text
}

/// All entries are asked for at once, and each mark names its article; both in the user's
/// name.
pub proof fn law_reader_is_asked_in_the_users_name(
    config: FreshRSSConfigView,
    username: Seq<char>,
    password: Option<Seq<char>>,
    id: u64,
)
    ensures
        ({
            let post = freshrss::fetch_post(config, username, password);
            &&& asked_by(post, config, username, password)
            &&& post.body->Text_0 == "cmd=reader/api/0/stream/contents&stream=feed/"@
        }),
        ({
            let post = freshrss::mark_post(config, username, password, id);
            let command = "cmd=reader/api/0/edit/mark-as-read&i="@;
            &&& asked_by(post, config, username, password)
            &&& post.body->Text_0.take(command.len() as int) == command
            &&& text::unsigned_value(post.body->Text_0.skip(command.len() as int)) == Some(
                id as nat,
            )
        }),
{
    let command = "cmd=reader/api/0/edit/mark-as-read&i="@;
    let d = text::decimal(id as nat);
    text::law_decimal_reads_back(id as nat);
    assert((command + d).take(command.len() as int) =~= command);
    assert((command + d).skip(command.len() as int) =~= d);
}

/// A mark that the server confirms moves the marking on to the next article; any other reply
/// ends it with an error that tells of it, and nothing is marked any more.
pub proof fn law_marking_goes_on_while_confirmed(
    mark: GreaderMarkView,
    code: u16,
    status: Seq<char>,
    message: Seq<char>,
)
    requires
        mark.wf(),
        mark.error is None,
        mark.next < mark.ids.len(),
    ensures
        mark.current() == Some(mark.ids[mark.next]),
        ({
            let after = mark.after(MarkReplyView::Status { code, status });
            &&& 200 <= code <= 299 ==> after == (GreaderMarkView { next: mark.next + 1, ..mark })
            &&& !(200 <= code <= 299) ==> {
                &&& after.current() is None
                &&& after.next == mark.next
                &&& after.error == Some(
                    GreaderErrorView::Mark { id: mark.ids[mark.next], status },
                )
            }
        }),
        ({
            let after = mark.after(MarkReplyView::Unsent(message));
            &&& after.current() is None
            &&& after.next == mark.next
            &&& after.error == Some(GreaderErrorView::Unsent { message })
        }),
{
}

/// What is reported of an error tells what it is about.
pub proof fn law_reader_errors_tell_their_cause(
    s: Seq<char>,
    id: u64,
    status: Seq<char>,
    body: Seq<char>,
)
    ensures
        text::occurs(s, freshrss::error_message(GreaderErrorView::BadId { text: s })),
        ({
            let m = freshrss::error_message(GreaderErrorView::Mark { id, status });
            &&& text::occurs(text::decimal(id as nat), m)
            &&& text::occurs(status, m)
        }),
        freshrss::error_message(GreaderErrorView::Unsent { message: s }) == s,
        ({
            let m = freshrss_native::error_message(NativeErrorView::Fetch { status, body });
            &&& text::occurs(status, m)
            &&& text::occurs(body, m)
        }),
        ({
            let m = freshrss_native::error_message(NativeErrorView::Mark { status, body });
            &&& text::occurs(status, m)
            &&& text::occurs(body, m)
        }),
        text::occurs(
            s,
            freshrss_native::error_message(NativeErrorView::Unreadable { detail: s }),
        ),
{
    let none = Seq::<char>::empty();
    lemma_two_parts("Cannot parse entry id: "@, s, none, none);
    assert("Cannot parse entry id: "@ + s + none + none =~= "Cannot parse entry id: "@ + s);
    lemma_two_parts("Failed to mark article "@, text::decimal(id as nat), " as read: "@, status);
    lemma_two_parts("FreshRSS entries API error: "@, status, " - "@, body);
    lemma_two_parts("Failed to mark articles as read: "@, status, " - "@, body);
    let a = "Failed to parse FreshRSS entries response as JSON: "@;
    lemma_two_parts(a, s, none, none);
    assert(a + s + none + none =~= a + s);
}

proof fn lemma_two_parts(a: Seq<char>, x: Seq<char>, b: Seq<char>, y: Seq<char>)
    ensures
        text::occurs(x, a + x + b + y),
        text::occurs(y, a + x + b + y),
{
    let none = Seq::<char>::empty();
    text::lemma_occurs_between(a, x, b + y);
    assert(a + x + (b + y) =~= a + x + b + y);
    text::lemma_occurs_between(a + x + b, y, none);
    assert(a + x + b + y + none =~= a + x + b + y);
}

/// The article of an entry of the native interface says what the entry says, with title and
/// URL of its feed where it has one.
pub proof fn law_native_article_says_what_its_entry_says(entries: Seq<EntryView>, i: int)
    requires
        0 <= i < entries.len(),
    ensures
        ({
            let articles = freshrss_native::entry_articles(entries);
            let a = articles[i];
            let e = entries[i];
            &&& articles.len() == entries.len()
            &&& a.id == e.id
            &&& a.title == e.title
            &&& a.author == e.author
            &&& a.content == e.body
            &&& a.url == e.link
            &&& a.language == e.language
            &&& a.published == e.updated
            &&& e.feed is None ==> a.feed_title is None && a.feed_url is None
            &&& e.feed matches Some(feed) ==> a.feed_title == Some(feed.0) && a.feed_url == Some(
                feed.1,
            )
        }),
{
}

/// A request to the native interface names the user and the password, and has the further
/// members that it is made with.
pub proof fn law_native_request_holds_its_members(
    config: FreshRSSConfigView,
    username: Seq<char>,
    password: Option<Seq<char>>,
    members: Seq<(Seq<char>, JsonView)>,
    i: int,
)
    requires
        0 <= i < members.len(),
        forall|j: int| 0 <= j < i ==> (#[trigger] members[j]).0 != members[i].0,
        members[i].0 != "user"@ && members[i].0 != "password"@,
    ensures
        ({
            let post = freshrss_native::native_post(config, username, password, members);
            let d = post.body->Document_0;
            &&& post.url == config.url + "/api/entries.json"@
            &&& post.basic_auth is None
            &&& post.headers.len() == 0
            &&& post.body is Document
            &&& d.member_text("user"@) == Some(username)
            &&& password is Some ==> d.member_text("password"@) == password
            &&& password is None ==> d.member_text("password"@) == Some(config.api_password)
            &&& d.member(members[i].0) == Some(members[i].1)
        }),
{
    reveal_strlit("user");
    reveal_strlit("password");
    assert("user"@.len() == 4 && "password"@.len() == 8);
    let entries = freshrss_native::native_post(
        config,
        username,
        password,
        members,
    ).body->Document_0->Object_0;
    json::law_first_entry_is_the_member(entries, 0);
    json::law_first_entry_is_the_member(entries, 1);
    assert(entries[i + 2] == members[i]);
    assert forall|j: int| 0 <= j < i + 2 implies (#[trigger] entries[j]).0 != entries[i + 2].0 by {
        if j >= 2 {
            assert(entries[j] == members[j - 2]);
        }
    }
    json::law_first_entry_is_the_member(entries, i + 2);
}

/// The document of ids holds each id, in order.
pub proof fn law_id_document_holds_every_id(ids: Seq<u64>, i: int)
    requires
        0 <= i < ids.len(),
    ensures
        freshrss_native::id_document(ids) is List,
        freshrss_native::id_document(ids)->List_0.len() == ids.len(),
        freshrss_native::id_document(ids).element(i) == Some(JsonView::Number(ids[i] as int)),
{
}

/// Whether a request to the native interface names the user, with their own password or else
/// the global one.
pub open spec fn named_in(
    post: PostView,
    config: FreshRSSConfigView,
    username: Seq<char>,
    password: Option<Seq<char>>,
) -> bool {
    &&& post.url == config.url + "/api/entries.json"@
    &&& post.body is Document
    &&& post.body->Document_0.member_text("user"@) == Some(username)
    &&& post.body->Document_0.member_text("password"@) == Some(
        own_or_global(password, config.api_password),
    )
}

/// Entries are asked for from the given time on, five hundred at most; marks name the action
/// and every article. Both are in the user's name.
pub proof fn law_native_interface_is_asked_in_the_users_name(
    config: FreshRSSConfigView,
    username: Seq<char>,
    password: Option<Seq<char>>,
    since: int,
    ids: Seq<u64>,
    i: int,
)
    requires
        0 <= i < ids.len(),
    ensures
        ({
            let post = freshrss_native::fetch_post(config, username, password, since);
            let d = post.body->Document_0;
            &&& named_in(post, config, username, password)
            &&& d.member("since"@) == Some(JsonView::Number(since))
            &&& d.member("limit"@) == Some(JsonView::Number(500))
        }),
        ({
            let post = freshrss_native::mark_post(config, username, password, ids);
            let d = post.body->Document_0;
            &&& named_in(post, config, username, password)
            &&& d.member_text("action"@) == Some("read"@)
            &&& d.member("ids"@) is Some
            &&& d.member("ids"@)->0.elements() is Some
            &&& d.member("ids"@)->0.elements()->0.len() == ids.len()
            &&& d.member("ids"@)->0.element(i) == Some(JsonView::Number(ids[i] as int))
        }),
{
    reveal_strlit("user");
    reveal_strlit("password");
    reveal_strlit("since");
    reveal_strlit("limit");
    reveal_strlit("action");
    reveal_strlit("ids");
    assert("user"@.len() == 4 && "password"@.len() == 8 && "since"@.len() == 5);
    assert("limit"@.len() == 5 && "action"@.len() == 6 && "ids"@.len() == 3);
    assert("since"@[0] == 's' && "limit"@[0] == 'l');
    let asked = seq![("since"@, JsonView::Number(since)), ("limit"@, JsonView::Number(500))];
    law_native_request_holds_its_members(config, username, password, asked, 0);
    law_native_request_holds_its_members(config, username, password, asked, 1);
    let marked = seq![
        ("action"@, JsonView::Text("read"@)),
        ("ids"@, freshrss_native::id_document(ids)),
    ];
    law_native_request_holds_its_members(config, username, password, marked, 0);
    law_native_request_holds_its_members(config, username, password, marked, 1);
}

} // verus!
