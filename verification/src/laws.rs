//! What holds of searches as a whole.

use vstd::prelude::*;

use crate::channel::{all_queued, item_at, joined, queued_items, Inlet, Outlet};
use crate::elasticsearch::{Elasticsearch, ZDBQuery};
use crate::json::Json;
use crate::request::{
    best_first, executes, page_size, scroll_members, search_members, sort_order, tracks_scores,
    Execution, MAX_PAGE,
};
use crate::response::{rows_of_page, rows_of_pages, ElasticsearchSearchResponse, InnerHit, Row};
use crate::rows::{first_page, offset_or_zero, opens, walk_from, Opened, WalkState};
use crate::scroll::{
    fed, forwards, id_after, next_page, offers_until, page_of, pumps, FeedState, PumpState, Reply,
};

verus! {

/// The pages that replies hold, up to the reply that ends the search.
pub open spec fn pages_of(replies: Seq<Reply>) -> Seq<Seq<InnerHit>>
    decreases replies.len(),
{
    if replies.len() == 0 || page_of(replies[0]) is None {
        Seq::empty()
    } else if id_after(replies[0]) is None {
        seq![page_of(replies[0])->0]
    } else {
        seq![page_of(replies[0])->0] + pages_of(replies.drop_first())
    }
}

/// The rows of a search whose first page is `first` and that goes on with `replies`.
pub open spec fn rows_of_search(first: Seq<InnerHit>, replies: Seq<Reply>) -> Seq<Row> {
    rows_of_page(first) + rows_of_pages(pages_of(replies))
}

/// The rows after the first `offset`, and of these no more than `limit`.
pub open spec fn window(rows: Seq<Row>, offset: nat, limit: Option<u64>) -> Seq<Row> {
    let rest = if offset <= rows.len() {
        rows.skip(offset as int)
    } else {
        Seq::empty()
    };
    match limit {
        Some(n) => if n < rest.len() {
            rest.take(n as int)
        } else {
            rest
        },
        None => rest,
    }
}

/// `states` are those of a feed that takes one of `replies` after the other, and `queued` says
/// at which of them a page went into the channel.
pub open spec fn feed_run(
    states: Seq<FeedState>,
    replies: Seq<Reply>,
    queued: Seq<bool>,
) -> bool {
    &&& states.len() == replies.len() + 1
    &&& queued.len() == replies.len()
    &&& forall|i: int| 0 <= i < states.len() ==> (#[trigger] states[i]).wf()
    &&& forall|i: int|
        0 <= i < replies.len() ==> {
            &&& (#[trigger] states[i]).scroll_id is Some
            &&& queued[i] ==> page_of(replies[i]) is Some
            &&& states[i + 1] == fed(states[i], replies[i], queued[i])
        }
}

/// `states` are those of a pump that starts anew, with the page `first`, and is live
/// throughout.
pub open spec fn pump_run(states: Seq<PumpState>, first: Seq<InnerHit>) -> bool {
    &&& states.len() > 0
    &&& states[0].first == Some(first)
    &&& states[0].pages.taken == 0
    &&& states[0].rows.offered.len() == 0
    &&& states[0].rows.open
    &&& forall|i: int|
        0 <= i < states.len() - 1 ==> pumps(#[trigger] states[i], states[i + 1], true)
}

/// `states` are those of a walk that returns `rows` one after the other.
pub open spec fn walk_run(states: Seq<WalkState>, rows: Seq<Option<Row>>) -> bool {
    &&& states.len() == rows.len() + 1
    &&& forall|i: int|
        0 <= i < rows.len() ==> {
            &&& rows[i] == (#[trigger] states[i]).upcoming()
            &&& states[i + 1] == states[i].advance()
            &&& !states[i].at_limit() ==> states[i + 1].rows->0.taken <= states[i + 1].rows->0.asked
        }
}

/// A reply may hold at least one hit and no more than a full page, and no more than the
/// limit. Less than a full page is asked for only under such a limit.
pub proof fn law_page_size(limit: Option<u64>)
    requires
        limit != Some(0u64),
    ensures
        1 <= page_size(limit) <= MAX_PAGE,
        limit matches Some(n) ==> page_size(limit) <= n,
        page_size(limit) < MAX_PAGE ==> limit == Some(page_size(limit) as u64),
{
}

/// An order that the query gives is kept. Without one, rows are ordered, best score first,
/// exactly under a limit of less than a full page, and then scores are computed.
pub proof fn law_sort_order(query: ZDBQuery, given: Option<Json>)
    ensures
        given is Some ==> sort_order(query.limit, given) == given,
        given is None ==> {
            &&& sort_order(query.limit, given) is Some <==> (query.limit is Some && query.limit->0
                < MAX_PAGE)
            &&& sort_order(query.limit, given) is Some ==> {
                &&& sort_order(query.limit, given) == Some(best_first())
                &&& tracks_scores(query)
            }
        },
{
}

/// The body of a search says whether to compute scores and what to match; it names a least
/// score and an order exactly where there is one; and it says nothing else.
pub proof fn law_search_members(
    track_scores: bool,
    min_score: Option<Json>,
    sort: Option<Json>,
    query: Json,
)
    ensures
        ({
            let body = search_members(track_scores, min_score, sort, query);
            &&& body.contains_key("track_scores"@)
            &&& body["track_scores"@] == Json::Bool(track_scores)
            &&& body.contains_key("query"@)
            &&& body["query"@] == query
            &&& body.contains_key("min_score"@) <==> min_score is Some
            &&& min_score is Some ==> body["min_score"@] == min_score->0
            &&& body.contains_key("sort"@) <==> sort is Some
            &&& sort is Some ==> body["sort"@] == sort->0
            &&& forall|key: Seq<char>| #[trigger]
                body.contains_key(key) ==> key == "track_scores"@ || key == "query"@ || key
                    == "min_score"@ || key == "sort"@
        }),
{
    reveal_strlit("track_scores");
    reveal_strlit("min_score");
    reveal_strlit("sort");
    reveal_strlit("query");
    assert("track_scores"@.len() == 12);
    assert("min_score"@.len() == 9);
    assert("sort"@.len() == 4);
    assert("query"@.len() == 5);
}

/// The body that continues a search holds the id of the search and for how long to keep it,
/// and nothing else.
pub proof fn law_scroll_members(scroll_id: Seq<char>)
    ensures
        ({
            let body = scroll_members(scroll_id);
            &&& body.contains_key("scroll"@)
            &&& body["scroll"@] == Json::Text("10m"@)
            &&& body.contains_key("scroll_id"@)
            &&& body["scroll_id"@] == Json::Text(scroll_id)
            &&& forall|key: Seq<char>| #[trigger]
                body.contains_key(key) ==> key == "scroll"@ || key == "scroll_id"@
        }),
{
    reveal_strlit("scroll");
    reveal_strlit("scroll_id");
    assert("scroll"@.len() == 6);
    assert("scroll_id"@.len() == 9);
}

/// A search with a limit of zero asks Elasticsearch for nothing, and a walk over its
/// response returns no row, however often it is asked.
pub proof fn law_zero_limit(
    execution: Execution,
    elasticsearch: Elasticsearch,
    query: ZDBQuery,
    opened: Opened,
)
    requires
        query.limit == Some(0u64),
        executes(execution, elasticsearch, query),
        opens(execution->Respond_0, opened),
    ensures
        execution is Respond,
        opened is Empty,
        opened->Empty_0@.upcoming() is None,
        opened->Empty_0@.advance() == opened->Empty_0@,
{
}

/// Once a walk is at its limit it stays there, and returns no row.
pub proof fn law_limit_is_final(walk: WalkState)
    requires
        walk.at_limit(),
    ensures
        walk.upcoming() is None,
        walk.advance().at_limit(),
{
}

/// Once a walk has returned `None`, it returns no row.
pub proof fn law_end_is_final(walk: WalkState)
    requires
        walk.wf(),
        walk.upcoming() is None,
    ensures
        walk.advance().upcoming() is None,
{
}

/// A walk with an offset of `a + b` returns what one with an offset of `a` returns after `b`
/// calls, where its limit leaves room for these.
pub proof fn law_offsets_add(rows: Seq<Row>, a: nat, b: nat, limit: Option<u64>, k: int)
    requires
        0 <= k,
        limit matches Some(n) ==> n + b <= u64::MAX,
    ensures
        item_at(window(rows, a + b, limit), k) == item_at(
            window(
                rows,
                a,
                match limit {
                    Some(n) => Some((n + b) as u64),
                    None => None,
                },
            ),
            b + k,
        ),
{
}

/// A walk with a limit of `a` returns the first rows of one with a greater limit, or with
/// none: `a` of them, or all where there are fewer.
pub proof fn law_limits_nest(rows: Seq<Row>, offset: nat, a: u64, b: Option<u64>)
    requires
        b matches Some(n) ==> a <= n,
    ensures
        window(rows, offset, Some(a)).is_prefix_of(window(rows, offset, b)),
        window(rows, offset, Some(a)).len() == if a <= window(rows, offset, b).len() {
            a as nat
        } else {
            window(rows, offset, b).len()
        },
{
}

/// A walk over a scroller that supplies `rows` returns those after the first `offset` and
/// within the limit, each once and in their order, and then `None`.
pub proof fn law_walk(
    scroller: Inlet<Row>,
    limit: Option<u64>,
    offset: nat,
    states: Seq<WalkState>,
    returned: Seq<Option<Row>>,
    rows: Seq<Row>,
)
    requires
        scroller.supplies(rows),
        walk_run(states, returned),
        states[0] == walk_from(scroller, limit, offset),
        states[0].rows->0.taken <= scroller.asked,
    ensures
        forall|k: int|
            0 <= k < returned.len() ==> #[trigger] returned[k] == item_at(
                window(rows, offset, limit),
                k,
            ),
{
    assert forall|k: int| 0 <= k < returned.len() implies #[trigger] returned[k] == item_at(
        window(rows, offset, limit),
        k,
    ) by {
        lemma_walk_state(states, returned, k);
        let start = states[0].rows->0.taken;
        if !states[k].at_limit() {
            assert(states[k + 1].rows->0.taken <= scroller.asked);
            assert(item_at(scroller.stream, start + k) == item_at(rows, start + k));
            if offset > scroller.stream.len() {
                assert(item_at(scroller.stream, start - 1) == item_at(rows, start - 1));
            }
        }
    }
}

/// Where a walk stands after `k` calls.
proof fn lemma_walk_state(states: Seq<WalkState>, returned: Seq<Option<Row>>, k: int)
    requires
        walk_run(states, returned),
        states[0].rows is Some,
        states[0].cnt == 0,
        0 <= k < states.len(),
    ensures
        states[k].limit == states[0].limit,
        states[k].rows is Some,
        states[k].rows->0.stream == states[0].rows->0.stream,
        states[k].rows->0.asked == states[0].rows->0.asked,
        states[k].rows->0.taken == states[0].rows->0.taken + states[k].cnt,
        states[k].cnt == match states[0].limit {
            Some(n) => if k <= n {
                k
            } else {
                n as int
            },
            None => k,
        },
    decreases k,
{
    if k > 0 {
        lemma_walk_state(states, returned, k - 1);
        assert(states[k] == states[k - 1].advance());
    }
}

/// A feed sends the pages of the replies in their order, each once, until the reply that ends
/// the search, or until nobody takes them any more. When it has come to its end, whoever asks
/// at the other end of its channel gets these pages, and then the answer that there are no
/// more.
pub proof fn law_feed(states: Seq<FeedState>, replies: Seq<Reply>, queued: Seq<bool>)
    requires
        feed_run(states, replies, queued),
        states[0].pages.offered.len() == 0,
    ensures
        queued_items(states.last().pages.offered).is_prefix_of(pages_of(replies)),
        states.last().pages.stream == states[0].pages.stream,
        states.last().pages.wanted == states[0].pages.wanted,
        states.last().scroll_id is None ==> states[0].pages.serves(pages_of(replies)),
{
    lemma_feed(states, replies, queued);
    let end = states.last();
    let pages = pages_of(replies);
    assert(queued_items(states[0].pages.offered) =~= Seq::empty());
    assert(Seq::<Seq<InnerHit>>::empty() + pages =~= pages);
    assert(end.wf());
    if end.scroll_id is None {
        assert forall|k: int| 0 <= k < end.pages.wanted implies #[trigger] item_at(
            states[0].pages.stream,
            k,
        ) == item_at(pages, k) by {}
    }
}

/// What a feed has sent, and whether something was refused.
proof fn lemma_feed(states: Seq<FeedState>, replies: Seq<Reply>, queued: Seq<bool>)
    requires
        feed_run(states, replies, queued),
    ensures
        ({
            let before = queued_items(states[0].pages.offered);
            let end = states.last().pages;
            &&& end.stream == states[0].pages.stream
            &&& end.wanted == states[0].pages.wanted
            &&& queued_items(end.offered).is_prefix_of(before + pages_of(replies))
            &&& queued_items(end.offered) == before + pages_of(replies) || (end.offered.len() > 0
                && !end.offered.last().1)
        }),
    decreases replies.len(),
{
    let before = queued_items(states[0].pages.offered);
    if replies.len() == 0 {
        assert(before + pages_of(replies) =~= before);
    } else {
        let rest = replies.drop_first();
        let later = states.drop_first();
        let next = queued_items(states[1].pages.offered);
        assert(states[0].scroll_id is Some);
        assert(states[1] == fed(states[0], replies[0], queued[0]));
        assert(states[0].pages.offered.push((page_of(replies[0])->0, queued[0])).drop_last()
            =~= states[0].pages.offered);
        assert forall|i: int| 0 <= i < later.len() implies (#[trigger] later[i]).wf() by {
            assert(states[i + 1].wf());
        }
        assert forall|i: int| 0 <= i < rest.len() implies {
            &&& (#[trigger] later[i]).scroll_id is Some
            &&& queued.drop_first()[i] ==> page_of(rest[i]) is Some
            &&& later[i + 1] == fed(later[i], rest[i], queued.drop_first()[i])
        } by {
            assert(states[i + 1].scroll_id is Some);
        }
        lemma_feed(later, rest, queued.drop_first());
        if rest.len() > 0 {
            assert(states[1].scroll_id is Some);
            assert(next + pages_of(rest) =~= before + pages_of(replies));
        } else {
            assert(states.last() == states[1]);
            assert(pages_of(rest) =~= Seq::empty());
            if page_of(replies[0]) is Some {
                assert(pages_of(replies) =~= seq![page_of(replies[0])->0]);
                assert(before.push(page_of(replies[0])->0) =~= before + pages_of(replies));
            } else {
                assert(before + pages_of(replies) =~= before);
            }
        }
    }
}

/// What comes after the reply that ends a search is not part of it.
pub proof fn law_search_ends(replies: Seq<Reply>, last: int)
    requires
        0 <= last < replies.len(),
        id_after(replies[last]) is None,
    ensures
        pages_of(replies) == pages_of(replies.take(last + 1)),
    decreases replies.len(),
{
    let cut = replies.take(last + 1);
    assert(cut[0] == replies[0]);
    if page_of(replies[0]) is Some && id_after(replies[0]) is Some {
        law_search_ends(replies.drop_first(), last - 1);
        assert(replies.drop_first().take(last) =~= cut.drop_first());
    }
}

/// A pump that is supplied with `pages` sends the rows of its first page and of as many of
/// these as it has taken, in their order, each once.
pub proof fn law_pump(states: Seq<PumpState>, first: Seq<InnerHit>, pages: Seq<Seq<InnerHit>>)
    requires
        pump_run(states, first),
        states[0].pages.supplies(pages),
    ensures
        ({
            let pump = states.last();
            &&& pump.pages.stream == states[0].pages.stream
            &&& pump.pages.asked == states[0].pages.asked
            &&& pump.rows.stream == states[0].rows.stream
            &&& pump.rows.wanted == states[0].rows.wanted
            &&& pump.rows.open
            &&& if states.len() == 1 {
                pump == states[0]
            } else {
                &&& pump.first is None
                &&& pump.pages.taken == states.len() - 2
                &&& pump.pages.taken <= pages.len()
                &&& queued_items(pump.rows.offered) == rows_of_pages(
                    seq![first] + pages.take(pump.pages.taken as int),
                )
            }
        }),
    decreases states.len(),
{
    if states.len() > 1 {
        let before = states.drop_last();
        let pre = before.last();
        let post = states.last();
        assert(pre == states[states.len() - 2]);
        assert(pumps(pre, post, true));
        assert forall|i: int| 0 <= i < before.len() - 1 implies pumps(
            #[trigger] before[i],
            before[i + 1],
            true,
        ) by {
            assert(pumps(states[i], states[i + 1], true));
        }
        law_pump(before, first, pages);
        lemma_next_page(pre, post, pages);
        let page = next_page(pre)->0;
        let taken = post.pages.taken as int;
        let all = seq![first] + pages.take(taken);
        lemma_queued(pre.rows.offered, rows_of_page(page));
        if states.len() == 2 {
            assert(all.drop_last() =~= Seq::empty());
            assert(queued_items(pre.rows.offered) =~= Seq::empty());
            assert(rows_of_pages(all.drop_last()) =~= Seq::empty());
            assert(all.last() == page);
        } else {
            assert(all.drop_last() =~= seq![first] + pages.take(taken - 1));
            assert(all.last() == page);
        }
    }
}

/// After the first page, the page that a pump takes next is the next of those it is supplied
/// with.
proof fn lemma_next_page(pre: PumpState, post: PumpState, pages: Seq<Seq<InnerHit>>)
    requires
        pre.rows.open,
        pumps(pre, post, true) || pumps(pre, post, false),
        pre.pages.supplies(pages),
    ensures
        pre.first is None ==> next_page(pre) == item_at(pages, pre.pages.taken as int),
{
}

/// When a pump that is supplied with `pages` has come to its end, whoever asks at the other
/// end of its channel gets the rows of its first page and of these, in their order, each once,
/// and then the answer that there are no more.
pub proof fn law_pump_ends(
    states: Seq<PumpState>,
    first: Seq<InnerHit>,
    pages: Seq<Seq<InnerHit>>,
    end: PumpState,
)
    requires
        pump_run(states, first),
        states[0].pages.supplies(pages),
        pumps(states.last(), end, false),
        end.wf(),
    ensures
        states[0].rows.serves(rows_of_page(first) + rows_of_pages(pages)),
{
    law_pump(states, first, pages);
    let pre = states.last();
    let all = seq![first] + pages;
    let total = rows_of_pages(all);
    lemma_rows_of_first(first, pages);
    lemma_next_page(pre, end, pages);
    let count = states.len() - 1;
    if count == 0 {
        assert(queued_items(pre.rows.offered) =~= rows_of_pages(all.take(0)));
    } else {
        assert(all.take(count) =~= seq![first] + pages.take(count - 1));
    }
    assert(queued_items(pre.rows.offered) == rows_of_pages(all.take(count)));
    if next_page(pre) is None {
        assert(pages.take(count - 1) =~= pages);
    } else {
        let page = next_page(pre)->0;
        let rows = rows_of_page(page);
        assert(forwards(pre.rows, rows, end.rows, false));
        let n = choose|n: int|
            0 <= n < rows.len() && end.rows == (Outlet {
                offered: pre.rows.offered + #[trigger] offers_until(rows, n),
                open: false,
                ..pre.rows
            });
        lemma_queued(pre.rows.offered, rows.take(n));
        assert(end.rows.offered.drop_last() =~= pre.rows.offered + all_queued(rows.take(n)));
        assert(all[count] == page);
        assert(all.take(count + 1).drop_last() =~= all.take(count));
        lemma_rows_of_prefix(all, count + 1);
        assert(queued_items(end.rows.offered).is_prefix_of(total));
    }
    assert forall|k: int| 0 <= k < states[0].rows.wanted implies #[trigger] item_at(
        states[0].rows.stream,
        k,
    ) == item_at(total, k) by {}
}

/// The rows of the first pages come first.
proof fn lemma_rows_of_prefix(pages: Seq<Seq<InnerHit>>, n: int)
    requires
        0 <= n <= pages.len(),
    ensures
        rows_of_pages(pages.take(n)).is_prefix_of(rows_of_pages(pages)),
    decreases pages.len(),
{
    if n == pages.len() {
        assert(pages.take(n) =~= pages);
    } else {
        lemma_rows_of_prefix(pages.drop_last(), n);
        assert(pages.drop_last().take(n) =~= pages.take(n));
    }
}

/// What went into a channel by offers all of which it took.
proof fn lemma_queued<T>(before: Seq<(T, bool)>, items: Seq<T>)
    ensures
        queued_items(before + all_queued(items)) == queued_items(before) + items,
    decreases items.len(),
{
    let offers = before + all_queued(items);
    if items.len() == 0 {
        assert(offers =~= before);
        assert(queued_items(before) + items =~= queued_items(before));
    } else {
        lemma_queued(before, items.drop_last());
        assert(offers.drop_last() =~= before + all_queued(items.drop_last()));
        assert((queued_items(before) + items.drop_last()).push(items.last()) =~= queued_items(before)
            + items);
    }
}

/// The rows of a page and of the pages after it.
proof fn lemma_rows_of_first(first: Seq<InnerHit>, pages: Seq<Seq<InnerHit>>)
    ensures
        rows_of_pages(seq![first] + pages) == rows_of_page(first) + rows_of_pages(pages),
    decreases pages.len(),
{
    let all = seq![first] + pages;
    if pages.len() == 0 {
        assert(all.drop_last() =~= Seq::empty());
        assert(rows_of_pages(all.drop_last()) =~= Seq::empty());
        assert(rows_of_pages(all) =~= rows_of_page(first) + rows_of_pages(pages));
    } else {
        lemma_rows_of_first(first, pages.drop_last());
        assert(all.drop_last() =~= seq![first] + pages.drop_last());
        assert(rows_of_pages(all) =~= rows_of_page(first) + rows_of_pages(pages));
    }
}

/// Walking a response returns the rows of its own page and of the pages that Elasticsearch
/// replied after it, in their order, each once: those after the first `offset`, and no more
/// than `limit` of them; and then `None`. The feed and the pump of the response run until
/// they have come to their ends.
pub proof fn law_rows_of_response(
    response: ElasticsearchSearchResponse,
    opened: Opened,
    feed: Seq<FeedState>,
    replies: Seq<Reply>,
    queued: Seq<bool>,
    pump: Seq<PumpState>,
    end: PumpState,
    walk: Seq<WalkState>,
    returned: Seq<Option<Row>>,
)
    requires
        response.elasticsearch is Some,
        opens(response, opened),
        feed_run(feed, replies, queued),
        feed[0] == opened->feed@,
        feed.last().scroll_id is None,
        pump_run(pump, first_page(response)),
        pump[0] == opened->pump@,
        pumps(pump.last(), end, false),
        end.wf(),
        walk_run(walk, returned),
        walk[0] == walk_from(
            opened->scroller@,
            response.limit,
            offset_or_zero(response.offset),
        ),
        walk[0].rows->0.taken <= walk[0].rows->0.asked,
    ensures
        forall|k: int|
            0 <= k < returned.len() ==> #[trigger] returned[k] == item_at(
                window(
                    rows_of_search(first_page(response), replies),
                    offset_or_zero(response.offset),
                    response.limit,
                ),
                k,
            ),
{
    let first = first_page(response);
    let pages = pages_of(replies);
    let rows = rows_of_search(first, replies);
    law_feed(feed, replies, queued);
    lemma_joined(feed[0].pages, pump[0].pages, pages);
    law_pump_ends(pump, first, pages, end);
    lemma_joined(pump[0].rows, opened->scroller@, rows);
    law_walk(
        opened->scroller@,
        response.limit,
        offset_or_zero(response.offset),
        walk,
        returned,
        rows,
    );
}

/// So it is while the search is under way. The rows that have gone into the channel by now,
/// from pages that have gone into the other by now, are returned as the whole search returns
/// them: those after the first `offset`, and no more than `limit` of them.
pub proof fn law_rows_so_far(
    response: ElasticsearchSearchResponse,
    opened: Opened,
    feed: Seq<FeedState>,
    replies: Seq<Reply>,
    queued: Seq<bool>,
    pump: Seq<PumpState>,
    walk: Seq<WalkState>,
    returned: Seq<Option<Row>>,
)
    requires
        response.elasticsearch is Some,
        opens(response, opened),
        feed_run(feed, replies, queued),
        feed[0] == opened->feed@,
        pump_run(pump, first_page(response)),
        pump[0] == opened->pump@,
        pump.last().rows.wf(),
        pump.last().pages.taken <= queued_items(feed.last().pages.offered).len(),
        walk_run(walk, returned),
        walk[0] == walk_from(
            opened->scroller@,
            response.limit,
            offset_or_zero(response.offset),
        ),
    ensures
        forall|k: int|
            0 <= k < returned.len() && offset_or_zero(response.offset) + k < queued_items(
                pump.last().rows.offered,
            ).len() ==> #[trigger] returned[k] == item_at(
                window(
                    rows_of_search(first_page(response), replies),
                    offset_or_zero(response.offset),
                    response.limit,
                ),
                k,
            ),
{
    let first = first_page(response);
    lemma_sent(feed, replies, queued, pump, first);
    lemma_walk_sent(
        opened->scroller@,
        response.limit,
        offset_or_zero(response.offset),
        walk,
        returned,
        rows_of_search(first, replies),
        queued_items(pump.last().rows.offered),
    );
}

/// The rows that a pump has sent by now, from pages that its feed has sent by now, are the
/// first rows of the search.
proof fn lemma_sent(
    feed: Seq<FeedState>,
    replies: Seq<Reply>,
    queued: Seq<bool>,
    pump: Seq<PumpState>,
    first: Seq<InnerHit>,
)
    requires
        feed_run(feed, replies, queued),
        feed[0].pages.offered.len() == 0,
        pump_run(pump, first),
        joined(feed[0].pages, pump[0].pages),
        pump.last().pages.taken <= queued_items(feed.last().pages.offered).len(),
    ensures
        queued_items(pump.last().rows.offered).is_prefix_of(rows_of_search(first, replies)),
        pump.last().rows.stream == pump[0].rows.stream,
{
    let pages = pages_of(replies);
    let stream = pump[0].pages.stream;
    law_feed(feed, replies, queued);
    law_pump(pump, first, stream);
    lemma_rows_of_first(first, pages);
    if pump.len() > 1 {
        let taken = pump.last().pages.taken as int;
        assert(feed.last().wf());
        assert(stream.take(taken) =~= pages.take(taken));
        assert((seq![first] + pages).take(taken + 1) =~= seq![first] + pages.take(taken));
        lemma_rows_of_prefix(seq![first] + pages, taken + 1);
    }
}

/// A walk returns the rows of `sent`, with which both the scroller's stream and `rows` begin,
/// as a walk over `rows` does.
proof fn lemma_walk_sent(
    scroller: Inlet<Row>,
    limit: Option<u64>,
    offset: nat,
    states: Seq<WalkState>,
    returned: Seq<Option<Row>>,
    rows: Seq<Row>,
    sent: Seq<Row>,
)
    requires
        sent.is_prefix_of(rows),
        sent.is_prefix_of(scroller.stream),
        walk_run(states, returned),
        states[0] == walk_from(scroller, limit, offset),
    ensures
        forall|k: int|
            0 <= k < returned.len() && offset + k < sent.len() ==> #[trigger] returned[k]
                == item_at(window(rows, offset, limit), k),
{
    assert forall|k: int| 0 <= k < returned.len() && offset + k < sent.len() implies #[trigger]
        returned[k] == item_at(window(rows, offset, limit), k) by {
        lemma_returned(states, returned, k);
        lemma_row_sent(scroller, limit, offset, returned[k], rows, sent, k);
    }
}

/// What a walk returns at the call after `k` others.
proof fn lemma_returned(states: Seq<WalkState>, returned: Seq<Option<Row>>, k: int)
    requires
        walk_run(states, returned),
        states[0].rows is Some,
        states[0].cnt == 0,
        0 <= k < returned.len(),
    ensures
        returned[k] == if states[0].limit is Some && states[0].limit->0 <= k {
            None
        } else {
            item_at(states[0].rows->0.stream, states[0].rows->0.taken + k)
        },
{
    lemma_walk_state(states, returned, k);
    assert(returned[k] == states[k].upcoming());
}

/// A row that has been sent is the same in the scroller's stream and in `rows`.
proof fn lemma_row_sent(
    scroller: Inlet<Row>,
    limit: Option<u64>,
    offset: nat,
    row: Option<Row>,
    rows: Seq<Row>,
    sent: Seq<Row>,
    k: int,
)
    requires
        sent.is_prefix_of(rows),
        sent.is_prefix_of(scroller.stream),
        0 <= k,
        offset + k < sent.len(),
        row == if limit is Some && limit->0 <= k {
            None
        } else {
            item_at(scroller.stream, offset + k)
        },
    ensures
        row == item_at(window(rows, offset, limit), k),
{
    assert(sent[offset + k] == rows[offset + k]);
    assert(sent[offset + k] == scroller.stream[offset + k]);
}

/// What one end of a channel serves, the other supplies.
pub(crate) proof fn lemma_joined<T>(outlet: Outlet<T>, inlet: Inlet<T>, items: Seq<T>)
    requires
        joined(outlet, inlet),
        outlet.serves(items),
    ensures
        inlet.supplies(items),
{
}

} // verus!
