//! What a Fever exchange makes of the server's feeds, ids and items.

use crate::config::FreshRSSConfigView;
use crate::digest;
use crate::fever_exchange;
use crate::fever_exchange::{FetchStageView, FetchView, MarkView};
use crate::freshrss_fever;
use crate::freshrss_fever::{ArticleView, FeverErrorView, FeverFeedView, FeverItemView};
use crate::ordering;
use crate::text;
use vstd::prelude::*;
use vstd::string::*;

verus! {

/// Whether no two feeds have the same id.
pub open spec fn distinct_feeds(feeds: Seq<FeverFeedView>) -> bool {
    forall|i: int, j: int|
        0 <= i < j < feeds.len() ==> (#[trigger] feeds[i]).id != (#[trigger] feeds[j]).id
}

/// The table holds every feed under its id, with its title and URL.
pub proof fn law_feed_table_holds_every_feed(
    feeds: Seq<FeverFeedView>,
    i: int,
    title: Seq<char>,
    url: Seq<char>,
)
    requires
        distinct_feeds(feeds),
        0 <= i < feeds.len(),
        feeds[i].title == Some(title) || feeds[i].title is None && title.len() == 0,
        feeds[i].url == Some(url) || feeds[i].url is None && url.len() == 0,
    ensures
        fever_exchange::feed_table(feeds).contains_key(feeds[i].id),
        fever_exchange::feed_table(feeds)[feeds[i].id] == (title, url),
    decreases feeds.len(),
{
    let shorter = feeds.drop_last();
    if i < feeds.len() - 1 {
        assert(distinct_feeds(shorter)) by {
            assert forall|a: int, b: int| 0 <= a < b < shorter.len() implies (
            #[trigger] shorter[a]).id != (#[trigger] shorter[b]).id by {
                assert(feeds[a].id != feeds[b].id);
            }
        }
        law_feed_table_holds_every_feed(shorter, i, title, url);
        assert(feeds[i].id != feeds[feeds.len() - 1].id);
    } else {
        assert(freshrss_fever::text_or_empty(feeds[i].title) =~= title);
        assert(freshrss_fever::text_or_empty(feeds[i].url) =~= url);
    }
}

/// The table holds no other ids than those of the feeds.
pub proof fn law_feed_table_holds_only_feeds(feeds: Seq<FeverFeedView>, id: u64)
    requires
        forall|i: int| 0 <= i < feeds.len() ==> (#[trigger] feeds[i]).id != id,
    ensures
        !fever_exchange::feed_table(feeds).contains_key(id),
    decreases feeds.len(),
{
    if feeds.len() > 0 {
        let shorter = feeds.drop_last();
        assert forall|i: int| 0 <= i < shorter.len() implies (#[trigger] shorter[i]).id != id by {
            assert(feeds[i].id != id);
        }
        assert(feeds[feeds.len() - 1].id != id);
        law_feed_table_holds_only_feeds(shorter, id);
    }
}

/// Of two entries with one id the later counts, and an entry touches no other id.
pub proof fn law_later_feed_counts(feeds: Seq<FeverFeedView>, feed: FeverFeedView, id: u64)
    ensures
        ({
            let table = fever_exchange::feed_table(feeds.push(feed));
            &&& table.contains_key(feed.id)
            &&& feed.title matches Some(title) ==> table[feed.id].0 == title
            &&& feed.title is None ==> table[feed.id].0.len() == 0
            &&& feed.url matches Some(url) ==> table[feed.id].1 == url
            &&& feed.url is None ==> table[feed.id].1.len() == 0
            &&& id != feed.id ==> table.contains_key(id) == fever_exchange::feed_table(
                feeds,
            ).contains_key(id)
            &&& id != feed.id && table.contains_key(id) ==> table[id]
                == fever_exchange::feed_table(feeds)[id]
        }),
{
    assert(feeds.push(feed).drop_last() =~= feeds);
}

/// Whether an article says what its item says.
pub open spec fn tells_of(article: ArticleView, item: FeverItemView) -> bool {
    &&& article.id == item.id
    &&& item.title matches Some(t) ==> article.title == t
    &&& item.title is None ==> article.title.len() == 0
    &&& item.html matches Some(t) ==> article.content == t
    &&& item.html is None ==> article.content.len() == 0
    &&& item.url matches Some(t) ==> article.url == t
    &&& item.url is None ==> article.url.len() == 0
    &&& item.author is None ==> article.author is None
    &&& item.author matches Some(a) ==> (article.author == Some(a) || article.author is None)
        && (article.author is None <==> text::blank(a))
    &&& article.language is None
    &&& item.created_on_time matches Some(t) ==> article.published == t
    &&& item.created_on_time is None ==> article.published == 0
}

/// Whether an article carries the title and URL of a feed.
pub open spec fn carries_feed(article: ArticleView, feed: FeverFeedView) -> bool {
    &&& feed.title matches Some(t) ==> article.feed_title == t
    &&& feed.title is None ==> article.feed_title.len() == 0
    &&& article.feed_url is Some
    &&& feed.url matches Some(t) ==> article.feed_url == Some(t)
    &&& feed.url is None ==> article.feed_url->0.len() == 0
}

/// Whether an article carries what the feeds tell of the one that its item names: title and
/// URL where it is listed, and else its number.
pub open spec fn names_its_feed(
    article: ArticleView,
    item: FeverItemView,
    feeds: Seq<FeverFeedView>,
) -> bool {
    let id = if item.feed_id is Some {
        item.feed_id->0
    } else {
        0
    };
    &&& forall|i: int|
        0 <= i < feeds.len() && (#[trigger] feeds[i]).id == id ==> carries_feed(article, feeds[i])
    &&& (forall|i: int| 0 <= i < feeds.len() ==> (#[trigger] feeds[i]).id != id) ==> {
        &&& article.feed_title == "Feed #"@ + text::decimal(id as nat)
        &&& article.feed_url is None
    }
}

/// Trimming leaves nothing of a text that is all white space, and of no other.
pub proof fn law_only_blank_text_trims_to_nothing(s: Seq<char>)
    ensures
        text::trimmed(s).len() == 0 <==> text::blank(s),
{
    text::law_trim_takes_only_white_space(s);
    let (front, back) = choose|front: Seq<char>, back: Seq<char>|
        #![trigger text::blank(front), text::blank(back)]
        text::blank(front) && text::blank(back) && s == front + text::trimmed(s) + back;
    let t = text::trimmed(s);
    if t.len() == 0 {
        assert(s =~= front + back);
        assert(text::blank(s));
    } else {
        assert(s[front.len() as int] == t[0]);
        assert(!text::blank(s));
    }
}

/// The article of an item says what the item says, and carries the title and URL of the feed
/// that the item names.
pub proof fn law_article_says_what_its_item_says(
    item: FeverItemView,
    feeds: Seq<FeverFeedView>,
)
    requires
        distinct_feeds(feeds),
    ensures
        tells_of(freshrss_fever::article_of(item, fever_exchange::feed_table(feeds)), item),
        names_its_feed(
            freshrss_fever::article_of(item, fever_exchange::feed_table(feeds)),
            item,
            feeds,
        ),
{
    let table = fever_exchange::feed_table(feeds);
    let article = freshrss_fever::article_of(item, table);
    let id = if item.feed_id is Some {
        item.feed_id->0
    } else {
        0
    };
    if let Some(a) = item.author {
        law_only_blank_text_trims_to_nothing(a);
    }
    assert forall|i: int| 0 <= i < feeds.len() && (#[trigger] feeds[i]).id == id implies carries_feed(
        article,
        feeds[i],
    ) by {
        law_feed_table_holds_every_feed(
            feeds,
            i,
            freshrss_fever::text_or_empty(feeds[i].title),
            freshrss_fever::text_or_empty(feeds[i].url),
        );
    }
    if forall|i: int| 0 <= i < feeds.len() ==> (#[trigger] feeds[i]).id != id {
        law_feed_table_holds_only_feeds(feeds, id);
    }
}

/// Whether an item is unread and was published at `since` or later; one without a time
/// counts as published at zero.
pub open spec fn unread_since(item: FeverItemView, since: int) -> bool {
    &&& item.is_read is None || item.is_read->0 != 1
    &&& item.created_on_time matches Some(t) ==> t >= since
    &&& item.created_on_time is None ==> 0 >= since
}

/// Just the unread items of the window are taken up.
pub proof fn law_unread_items_are_wanted(item: FeverItemView, since: int)
    ensures
        freshrss_fever::wanted(item, since) <==> unread_since(item, since),
{
}

proof fn lemma_wanted_from_items(
    items: Seq<FeverItemView>,
    feeds: Map<u64, (Seq<char>, Seq<char>)>,
    since: int,
    k: int,
)
    requires
        0 <= k < fever_exchange::wanted_articles(items, feeds, since).len(),
    ensures
        exists|i: int|
            0 <= i < items.len() && freshrss_fever::wanted(#[trigger] items[i], since)
                && fever_exchange::wanted_articles(items, feeds, since)[k]
                == freshrss_fever::article_of(items[i], feeds),
    decreases items.len(),
{
    let shorter = items.drop_last();
    let before = fever_exchange::wanted_articles(shorter, feeds, since);
    if k < before.len() {
        lemma_wanted_from_items(shorter, feeds, since, k);
        let i = choose|i: int|
            0 <= i < shorter.len() && freshrss_fever::wanted(#[trigger] shorter[i], since)
                && before[k] == freshrss_fever::article_of(shorter[i], feeds);
        assert(items[i] == shorter[i]);
    } else {
        assert(freshrss_fever::wanted(items[items.len() - 1], since));
    }
}

proof fn lemma_items_are_taken_up(
    items: Seq<FeverItemView>,
    feeds: Map<u64, (Seq<char>, Seq<char>)>,
    since: int,
    i: int,
)
    requires
        0 <= i < items.len(),
        freshrss_fever::wanted(items[i], since),
    ensures
        fever_exchange::wanted_articles(items, feeds, since).contains(
            freshrss_fever::article_of(items[i], feeds),
        ),
    decreases items.len(),
{
    let shorter = items.drop_last();
    let before = fever_exchange::wanted_articles(shorter, feeds, since);
    let all = fever_exchange::wanted_articles(items, feeds, since);
    let article = freshrss_fever::article_of(items[i], feeds);
    if i < items.len() - 1 {
        lemma_items_are_taken_up(shorter, feeds, since, i);
        let k = choose|k: int| 0 <= k < before.len() && before[k] == article;
        assert(all[k] == article);
    } else {
        assert(all[all.len() - 1] == article);
    }
}

/// What a server's pages of items come to: the articles of a finished exchange.
pub open spec fn loaded(
    start: FetchView,
    feeds: Seq<FeverFeedView>,
    list: Seq<char>,
    pages: Seq<Seq<FeverItemView>>,
) -> Option<Seq<ArticleView>> {
    match start.run(fever_exchange::transcript(feeds, list, pages)).stage {
        FetchStageView::Finished { articles } => Some(articles),
        _ => None,
    }
}

/// Every loaded article is that of an unread item of the window among the server's pages,
/// and carries the title and URL of the feed that this item names. No article is left out
/// but where a thousand newer ones, or as new ones, were loaded.
#[verifier::spinoff_prover]
pub proof fn law_loaded_articles_are_the_unread_items(
    username: Seq<char>,
    key: Seq<char>,
    since: int,
    feeds: Seq<FeverFeedView>,
    list: Seq<char>,
    pages: Seq<Seq<FeverItemView>>,
    k: int,
    i: int,
)
    requires
        distinct_feeds(feeds),
        freshrss_fever::id_list(list).len() > 0,
        (pages.len() - 1) * 50 < fever_exchange::newest_ids(
            freshrss_fever::id_list(list),
        ).len() <= pages.len() * 50,
    ensures
        ({
            let items = fever_exchange::all_items(pages);
            let articles = loaded(
                fever_exchange::fetch_start(username, key, since),
                feeds,
                list,
                pages,
            );
            &&& articles is Some
            &&& articles->0.len() <= 1000
            &&& 0 <= k < articles->0.len() ==> exists|j: int|
                0 <= j < items.len() && unread_since(#[trigger] items[j], since) && tells_of(
                    articles->0[k],
                    items[j],
                ) && names_its_feed(articles->0[k], items[j], feeds)
            &&& 0 <= i < items.len() && unread_since(items[i], since) ==> {
                ||| exists|j: int|
                    0 <= j < articles->0.len() && tells_of(#[trigger] articles->0[j], items[i])
                        && names_its_feed(articles->0[j], items[i], feeds)
                ||| articles->0.len() == 1000 && forall|j: int|
                    0 <= j < 1000 ==> (#[trigger] articles->0[j]).published
                        >= freshrss_fever::published_at(items[i])
            }
        }),
{
    broadcast use vstd::seq_lib::group_to_multiset_ensures;

    fever_exchange::law_fetch_gives_recent_unread(username, key, since, feeds, list, pages);
    let items = fever_exchange::all_items(pages);
    let table = fever_exchange::feed_table(feeds);
    let taken = fever_exchange::wanted_articles(items, table, since);
    let sorted = ordering::largest_first(taken, fever_exchange::by_date());
    let articles = fever_exchange::most_recent(taken);
    ordering::law_largest_first_sorts(taken, fever_exchange::by_date());
    if 0 <= k < articles.len() {
        assert(articles[k] == sorted[k]);
        assert(sorted.contains(sorted[k]));
        assert(sorted.to_multiset().count(sorted[k]) > 0);
        assert(taken.contains(articles[k]));
        let t = choose|t: int| 0 <= t < taken.len() && taken[t] == articles[k];
        lemma_wanted_from_items(items, table, since, t);
        let j = choose|j: int|
            0 <= j < items.len() && freshrss_fever::wanted(#[trigger] items[j], since)
                && taken[t] == freshrss_fever::article_of(items[j], table);
        law_article_says_what_its_item_says(items[j], feeds);
        assert(unread_since(items[j], since));
    }
    if 0 <= i < items.len() && unread_since(items[i], since) {
        let article = freshrss_fever::article_of(items[i], table);
        lemma_items_are_taken_up(items, table, since, i);
        law_article_says_what_its_item_says(items[i], feeds);
        assert(taken.to_multiset().count(article) > 0);
        assert(sorted.contains(article));
        let s = choose|s: int| 0 <= s < sorted.len() && sorted[s] == article;
        if s < articles.len() {
            assert(articles[s] == article);
        } else {
            assert forall|j: int| 0 <= j < 1000 implies (#[trigger] articles[j]).published
                >= freshrss_fever::published_at(items[i]) by {
                assert(articles[j] == sorted[j]);
                assert((fever_exchange::by_date())(sorted[j]) >= (fever_exchange::by_date())(
                    sorted[s],
                ));
            }
        }
    }
}

/// A list of ids is read back as the ids that were written.
pub proof fn law_id_list_reads_back(ids: Seq<u64>)
    ensures
        freshrss_fever::id_list(fever_exchange::id_csv(ids)) == ids,
    decreases ids.len(),
{
    let csv = fever_exchange::id_csv(ids);
    let parts = fever_exchange::decimals(ids);
    reveal_strlit(",");
    if ids.len() == 0 {
        assert(csv =~= Seq::empty());
        text::law_split_without_separator(csv, ',');
        let pieces = text::split_on(csv, ',');
        assert(pieces.drop_last() =~= Seq::empty());
        assert(text::trimmed(Seq::<char>::empty()) =~= Seq::empty());
        assert(freshrss_fever::ids_of(pieces.drop_last()) =~= Seq::empty());
        assert(text::unsigned_value(Seq::<char>::empty()) is None);
        assert(freshrss_fever::ids_of(pieces) =~= ids);
    } else {
        let last = text::decimal(ids.last() as nat);
        text::law_decimal_reads_back(ids.last() as nat);
        text::law_decimal_is_digits(ids.last() as nat);
        text::law_split_without_separator(last, ',');
        let shorter = ids.drop_last();
        law_id_list_reads_back(shorter);
        assert(parts.last() == last);
        if ids.len() == 1 {
            assert(parts =~= seq![last]);
            assert(csv == last);
            let pieces = seq![last];
            assert(pieces.drop_last() =~= Seq::empty());
            assert(freshrss_fever::ids_of(pieces.drop_last()) =~= Seq::empty());
            assert(freshrss_fever::ids_of(pieces) =~= ids);
        } else {
            assert(parts.drop_last() =~= fever_exchange::decimals(shorter));
            let front = fever_exchange::id_csv(shorter);
            assert(","@ =~= seq![',']);
            assert(csv == front + ","@ + last);
            text::law_split_at_separator(front, ',', last);
            let pieces = text::split_on(csv, ',');
            assert(pieces.last() == last);
            assert(pieces.drop_last() =~= text::split_on(front, ','));
            assert(freshrss_fever::ids_of(pieces) =~= ids);
        }
    }
}

proof fn lemma_ids_of_concat(a: Seq<Seq<char>>, b: Seq<Seq<char>>)
    ensures
        freshrss_fever::ids_of(a + b) == freshrss_fever::ids_of(a) + freshrss_fever::ids_of(b),
    decreases b.len(),
{
    let all = a + b;
    if b.len() == 0 {
        assert(all =~= a);
        assert(freshrss_fever::ids_of(a) + freshrss_fever::ids_of(b) =~= freshrss_fever::ids_of(a));
    } else {
        lemma_ids_of_concat(a, b.drop_last());
        assert(all.drop_last() =~= a + b.drop_last());
        assert(all.last() == b.last());
        assert(freshrss_fever::ids_of(all) =~= freshrss_fever::ids_of(a) + freshrss_fever::ids_of(
            b,
        ));
    }
}

/// Two lists with a comma between them hold the ids of the first and then those of the
/// second; a piece without a digit holds none.
pub proof fn law_id_lists_add_up(a: Seq<char>, b: Seq<char>)
    ensures
        freshrss_fever::id_list(a + seq![','] + b) == freshrss_fever::id_list(a)
            + freshrss_fever::id_list(b),
        (forall|i: int| 0 <= i < a.len() ==> !text::digit(#[trigger] a[i]))
            ==> freshrss_fever::id_list(a).len() == 0,
{
    text::law_split_at_separator(a, ',', b);
    lemma_ids_of_concat(text::split_on(a, ','), text::split_on(b, ','));
    if forall|i: int| 0 <= i < a.len() ==> !text::digit(#[trigger] a[i]) {
        lemma_no_ids_without_digits(a);
    }
}

proof fn lemma_no_ids_without_digits(a: Seq<char>)
    requires
        forall|i: int| 0 <= i < a.len() ==> !text::digit(#[trigger] a[i]),
    ensures
        freshrss_fever::id_list(a).len() == 0,
    decreases a.len(),
{
    if exists|k: int| 0 <= k < a.len() && a[k] == ',' {
        let k = choose|k: int| 0 <= k < a.len() && a[k] == ',';
        let front = a.take(k);
        let back = a.skip(k + 1);
        assert(a =~= front + seq![','] + back);
        assert forall|i: int| 0 <= i < back.len() implies !text::digit(#[trigger] back[i]) by {
            assert(back[i] == a[k + 1 + i]);
        }
        lemma_no_ids_without_digits(front);
        lemma_no_ids_without_digits(back);
        text::law_split_at_separator(front, ',', back);
        lemma_ids_of_concat(text::split_on(front, ','), text::split_on(back, ','));
    } else {
        text::law_split_without_separator(a, ',');
        let t = text::trimmed(a);
        text::law_trim_takes_only_white_space(a);
        let (front, back) = choose|front: Seq<char>, back: Seq<char>|
            #![trigger text::blank(front), text::blank(back)]
            text::blank(front) && text::blank(back) && a == front + t + back;
        assert forall|i: int| 0 <= i < t.len() implies !text::digit(#[trigger] t[i]) by {
            assert(t[i] == a[front.len() + i]);
        }
        assert(text::unsigned_value(t) is None) by {
            if t.len() > 1 {
                assert(!text::digit(t[1]));
                text::law_only_digits_are_numbers(t, 1);
            } else if t.len() == 1 {
                assert(!text::digit(t[0]));
                assert(t.drop_first() =~= Seq::empty());
            }
        }
        let pieces = seq![a];
        assert(pieces.drop_last() =~= Seq::empty());
        assert(freshrss_fever::ids_of(pieces.drop_last()) =~= Seq::empty());
    }
}

/// A piece of a list is one id, with or without white space around it; a number that is too
/// large is none.
pub proof fn law_id_may_have_white_space(front: Seq<char>, n: nat, back: Seq<char>)
    requires
        text::blank(front) && !front.contains(','),
        text::blank(back) && !back.contains(','),
    ensures
        n <= u64::MAX ==> freshrss_fever::id_list(front + text::decimal(n) + back) == seq![
            n as u64,
        ],
        n > u64::MAX ==> freshrss_fever::id_list(front + text::decimal(n) + back).len() == 0,
{
    let d = text::decimal(n);
    let s = front + d + back;
    text::law_decimal_reads_back(n);
    text::law_decimal_is_digits(n);
    assert(text::digit(d[0]) && text::digit(d[d.len() - 1]));
    text::law_white_space_is_unicodes(d[0]);
    text::law_white_space_is_unicodes(d.last());
    text::law_trim_strips_white_space(front, d, back);
    if s.contains(',') {
        let i = choose|i: int| 0 <= i < s.len() && s[i] == ',';
        if i < front.len() {
            assert(front[i] == ',');
        } else if i < front.len() + d.len() {
            assert(d[i - front.len()] == ',');
        } else {
            assert(back[i - front.len() - d.len()] == ',');
        }
    }
    text::law_split_without_separator(s, ',');
    let pieces = seq![s];
    assert(pieces.drop_last() =~= Seq::empty());
    assert(freshrss_fever::ids_of(pieces.drop_last()) =~= Seq::empty());
    if n <= u64::MAX {
        assert(freshrss_fever::ids_of(pieces) =~= seq![n as u64]);
    }
}

/// A piece that holds anything but digits, behind a sign or not, is no id.
pub proof fn law_other_pieces_are_no_ids(s: Seq<char>, i: int)
    requires
        !s.contains(','),
        0 <= i < s.len(),
        !text::digit(s[i]),
        i > 0 || s[0] != '+',
        !text::white_space(s[0]) && !text::white_space(s.last()),
    ensures
        freshrss_fever::id_list(s).len() == 0,
{
    text::law_trimmed_text_stays(s);
    text::law_split_without_separator(s, ',');
    if s[0] == '+' {
        assert(s.drop_first()[i - 1] == s[i]);
    }
    assert(text::unsigned_value(s) is None);
    let pieces = seq![s];
    assert(pieces.drop_last() =~= Seq::empty());
    assert(freshrss_fever::ids_of(pieces.drop_last()) =~= Seq::empty());
}

/// Of the unread ids a run asks for the last thousand, or for all where there are no more.
pub proof fn law_newest_ids_are_the_last(ids: Seq<u64>)
    ensures
        ({
            let kept = fever_exchange::newest_ids(ids);
            &&& kept.len() <= 1000
            &&& kept.len() == 1000 || kept.len() == ids.len()
            &&& forall|i: int|
                0 <= i < kept.len() ==> #[trigger] kept[i] == ids[ids.len() - kept.len() + i]
        }),
{
}

/// The queries of a loading exchange: who asks, the feeds, the unread ids, and then the
/// items by pages of at most fifty ids, each read back from its query.
pub proof fn law_queries_go_in_order(
    start: FetchView,
    feeds: Seq<FeverFeedView>,
    list: Seq<char>,
)
    requires
        start.stage is Authenticate,
        freshrss_fever::id_list(list).len() > 0,
    ensures
        ({
            let one = start.after(fever_exchange::FeverReplyView::Auth(1));
            let two = one.after(fever_exchange::FeverReplyView::Feeds(feeds));
            let three = two.after(fever_exchange::FeverReplyView::UnreadIds(Some(list)));
            let wanted = fever_exchange::newest_ids(freshrss_fever::id_list(list));
            &&& start.query() == Some("api"@)
            &&& one.query() == Some("api&feeds"@)
            &&& two.query() == Some("api&unread_item_ids"@)
            &&& exists|ids: Seq<u64>|
                three.query() == Some("api&items&with_ids="@ + #[trigger] fever_exchange::id_csv(ids))
                    && ids == wanted.take(ids.len() as int) && (ids.len() == 50 || ids.len()
                    == wanted.len() && ids.len() < 50) && freshrss_fever::id_list(
                    fever_exchange::id_csv(ids),
                ) == ids
        }),
{
    let two = start.at(
        FetchStageView::ListUnread { feeds: fever_exchange::feed_table(feeds) },
    );
    let three = two.after(fever_exchange::FeverReplyView::UnreadIds(Some(list)));
    let wanted = fever_exchange::newest_ids(freshrss_fever::id_list(list));
    let ids = fever_exchange::page(wanted, 0);
    assert(ids =~= wanted.take(ids.len() as int));
    law_id_list_reads_back(ids);
    assert(three.query() == Some("api&items&with_ids="@ + fever_exchange::id_csv(ids)));
}

/// A reply with a page of items moves the exchange on by the ids that the page was asked
/// for, so that the next query takes up behind them.
pub proof fn law_next_page_follows(
    s: FetchView,
    items: Seq<FeverItemView>,
)
    requires
        s.stage matches FetchStageView::LoadItems { ids, next, .. } && 0 <= next && next + 50
            < ids.len(),
    ensures
        ({
            let ids = s.stage->LoadItems_ids;
            let next = s.stage->next;
            let later = s.after(fever_exchange::FeverReplyView::Items(items));
            exists|following: Seq<u64>|
                later.query() == Some(
                    "api&items&with_ids="@ + #[trigger] fever_exchange::id_csv(following),
                ) && following.len() <= 50 && 0 < following.len() && (following.len() == 50
                    || next + 50 + following.len() == ids.len()) && following == ids.subrange(
                    next + 50,
                    next + 50 + following.len(),
                )
        }),
{
    let ids = s.stage->LoadItems_ids;
    let next = s.stage->next;
    let later = s.after(fever_exchange::FeverReplyView::Items(items));
    let following = fever_exchange::page(ids, next + 50);
    assert(following =~= ids.subrange(next + 50, next + 50 + following.len()));
    assert(later.query() == Some("api&items&with_ids="@ + fever_exchange::id_csv(following)));
}

/// A request to mark articles names the item mark and the ids, at most fifty, from where
/// the one before it ended.
pub proof fn law_mark_names_the_next_ids(s: MarkView)
    requires
        s.pending(),
        0 <= s.next,
    ensures
        ({
            let form = s.form()->0;
            let ids = freshrss_fever::id_list(form[2].1);
            &&& s.form() is Some
            &&& form.len() == 3
            &&& form[0] == ("mark"@, "item"@)
            &&& form[1] == ("as"@, "read"@)
            &&& form[2].0 == "with_ids"@
            &&& 0 < ids.len() <= 50
            &&& ids.len() == 50 || s.next + ids.len() == s.ids.len()
            &&& ids == s.ids.subrange(s.next, s.next + ids.len())
            &&& s.after(1) == (MarkView { next: s.next + ids.len(), ..s })
        }),
        forall|auth: u64| auth != 1 ==> #[trigger] s.after(auth) == (MarkView {
            refused: true,
            ..s
        }),
{
    let ids = fever_exchange::page(s.ids, s.next);
    law_id_list_reads_back(ids);
    assert(ids =~= s.ids.subrange(s.next, s.next + ids.len()));
}

/// The key stands for user name and password with a colon between them: where the name has
/// no colon, each can be told from it.
pub proof fn law_credentials_tell_user_and_password(
    username: Seq<char>,
    password: Seq<char>,
    name: Seq<char>,
    word: Seq<char>,
)
    ensures
        freshrss_fever::credentials(username, password) == username + seq![':'] + password,
        !username.contains(':') && !name.contains(':') && freshrss_fever::credentials(
            username,
            password,
        ) == freshrss_fever::credentials(name, word) ==> username == name && password == word,
{
    let a = freshrss_fever::credentials(username, password);
    let b = freshrss_fever::credentials(name, word);
    if !username.contains(':') && !name.contains(':') && a == b {
        assert(a[username.len() as int] == ':');
        assert(b[name.len() as int] == ':');
        if username.len() < name.len() {
            assert(name[username.len() as int] == ':');
            assert(name.contains(':'));
        }
        if name.len() < username.len() {
            assert(username[name.len() as int] == ':');
            assert(username.contains(':'));
        }
        assert(a.take(username.len() as int) =~= username);
        assert(b.take(name.len() as int) =~= name);
        assert(a.skip(username.len() as int + 1) =~= password);
        assert(b.skip(name.len() as int + 1) =~= word);
    }
}

/// A request goes to the installation's Fever address, whether or not its URL ends in
/// slashes, with the query in the address, and the key before the other fields in the form.
pub proof fn law_request_goes_to_the_fever_address(
    config: FreshRSSConfigView,
    base: Seq<char>,
    slashes: Seq<char>,
    key: Seq<char>,
    query: Seq<char>,
    form: Seq<(Seq<char>, Seq<char>)>,
    i: int,
)
    requires
        config.url == base + slashes,
        base.len() > 0 ==> base.last() != '/',
        forall|j: int| 0 <= j < slashes.len() ==> #[trigger] slashes[j] == '/',
    ensures
        ({
            let post = freshrss_fever::fever_post(config, key, query, form);
            let fields = post.body->Form_0;
            &&& post.url == base + "/api/fever.php?"@ + query
            &&& post.basic_auth is None
            &&& post.headers.len() == 0
            &&& post.body is Form
            &&& fields.len() == form.len() + 1
            &&& fields[0] == ("api_key"@, key)
            &&& 0 <= i < form.len() ==> fields[i + 1] == form[i]
        }),
{
    lemma_slashes_go(base, slashes);
}

/// Slashes at the end of an address are cut off, and nothing else of it.
pub proof fn lemma_slashes_go(base: Seq<char>, slashes: Seq<char>)
    requires
        base.len() > 0 ==> base.last() != '/',
        forall|j: int| 0 <= j < slashes.len() ==> #[trigger] slashes[j] == '/',
    ensures
        text::trim_end_char(base + slashes, '/') == base,
{
    let s = base + slashes;
    let t = text::trim_end_char(s, '/');
    text::law_trim_end_char_takes_the_run(s, '/');
    if t.len() < base.len() {
        assert(s[base.len() - 1] == base.last());
    } else if t.len() > base.len() {
        assert(t.last() == s[t.len() - 1]);
        assert(s[t.len() - 1] == slashes[t.len() - 1 - base.len()]);
    }
    assert(t =~= base);
}

/// A user's own password counts where there is one, and the global one where there is none.
pub proof fn law_own_password_counts(config: FreshRSSConfigView, own: Option<Seq<char>>)
    ensures
        own is Some ==> freshrss_fever::resolved_password(config, own) == own->0,
        own is None ==> freshrss_fever::resolved_password(config, own) == config.api_password,
{
}

/// A reply is read where its status is one of success; status 503 says that the interface
/// is switched off, and any other is reported with the front of the reply.
pub proof fn law_only_success_is_read(code: u16, status: Seq<char>, body: Seq<char>)
    ensures
        freshrss_fever::status_error(code, status, body) is None <==> 200 <= code <= 299,
        code == 503 <==> freshrss_fever::status_error(code, status, body) == Some(
            FeverErrorView::ApiDisabled,
        ),
        code != 503 && !(200 <= code <= 299) ==> ({
            let error = freshrss_fever::status_error(code, status, body)->0;
            &&& error is Status
            &&& error->status == status
            &&& text::occurs(status, freshrss_fever::error_message(error))
            &&& text::occurs(error->Status_excerpt, freshrss_fever::error_message(error))
            &&& error->Status_excerpt == freshrss_fever::excerpt(body, 300)
        }),
{
    if code != 503 && !(200 <= code <= 299) {
        let cut = freshrss_fever::excerpt(body, 300);
        let none = Seq::<char>::empty();
        let a = "FreshRSS Fever API error: "@;
        let b = " — "@;
        let all = a + status + b + cut;
        text::lemma_occurs_between(a, status, b + cut);
        assert(a + status + (b + cut) =~= all);
        text::lemma_occurs_between(a + status + b, cut, none);
        assert(a + status + b + cut + none =~= all);
    }
}

/// An excerpt is the text without white space around it, whole where it is short enough,
/// and else its front with three dots behind.
pub proof fn law_excerpt_is_the_front(s: Seq<char>, max: int)
    requires
        max >= 0,
    ensures
        text::trimmed(s).len() <= max ==> freshrss_fever::excerpt(s, max) == text::trimmed(s),
        text::trimmed(s).len() > max ==> freshrss_fever::excerpt(s, max) == text::trimmed(s).take(
            max,
        ) + seq!['.', '.', '.'],
{
    reveal_strlit("...");
    assert("..."@ =~= seq!['.', '.', '.']);
}

/// What is reported of a refused key names the user.
pub proof fn law_refusal_names_the_user(username: Seq<char>)
    ensures
        text::occurs(
            username,
            freshrss_fever::error_message(FeverErrorView::Unauthorized { username }),
        ),
        text::occurs(
            username,
            freshrss_fever::error_message(FeverErrorView::MarkUnauthorized { username }),
        ),
{
    text::lemma_occurs_between(
        "FreshRSS Fever API authentication failed for user '"@,
        username,
        "'. The Fever API uses the per-user *API password* (FreshRSS web UI: Settings > Profile > 'External access via API' > 'API password'), NOT the login password. Every user must have an API password set, and it must match the configured freshrss_api_password / FRESHRSS_API_PASSWORD."@,
    );
    text::lemma_occurs_between(
        "FreshRSS Fever API authentication failed while marking articles as read for user '"@,
        username,
        "'"@,
    );
}

/// What is reported of an unreadable reply names the query, what the reader said and the
/// front of the reply.
pub proof fn law_unreadable_reply_is_shown(query: Seq<char>, detail: Seq<char>, excerpt: Seq<char>)
    ensures
        ({
            let m = freshrss_fever::error_message(
                FeverErrorView::Unreadable { query, detail, excerpt },
            );
            &&& text::occurs(query, m)
            &&& text::occurs(detail, m)
            &&& text::occurs(excerpt, m)
        }),
{
    let none = Seq::<char>::empty();
    let a = "Failed to parse FreshRSS Fever API response for '"@;
    let b = "': "@;
    let c = " — body: "@;
    let all = a + query + b + detail + c + excerpt;
    digest::lemma_line_holds_its_parts(a, query, b, detail, c, excerpt);
}

/// A loading exchange keeps its user, key and window, whatever the server replies, and
/// nothing changes it once it has ended.
pub proof fn law_exchange_keeps_its_user(s: FetchView, reply: fever_exchange::FeverReplyView)
    ensures
        s.after(reply).username == s.username,
        s.after(reply).key == s.key,
        s.after(reply).since == s.since,
        s.stage is Finished || s.stage is Failed ==> s.after(reply) == s && s.query() is None,
{
}

} // verus!
