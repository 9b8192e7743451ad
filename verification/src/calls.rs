//! What calls come to, said of their arguments and their results alone.

use vstd::prelude::*;

use crate::channel::{item_at, joined, Inlet};
use crate::decimal::{decimal, push_decimal};
use crate::elasticsearch::{Elasticsearch, ZDBQuery};
use crate::json::{json_text, json_view, Json};
use crate::laws::{
    feed_run, law_feed, law_scroll_members, law_search_members, law_walk, lemma_joined, pages_of,
    window,
};
use crate::request::{
    optional_json, page_size, posts_scroll, scroll_members, search_body, search_members,
    sort_best_first, sort_order, ElasticsearchSearchRequest, Execution, SearchPost, SEARCH_FILTER_PATH,
};
use crate::response::{
    row_of, rows_of_page, rows_of_pages, ElasticsearchSearchResponse, InnerHit, Row, Score,
};
use crate::rows::{first_page, offset_or_zero, walk_from, Opened, SearchResponseIntoIter};
use crate::scroll::{
    fed, page_of, read_reply, FeedState, HitPump, Reply, ScrollFeed, ScrollStep,
};

verus! {

/// The row of a hit names the very place that the hit names, and has its score; where the hit
/// has none, the score is zero.
pub proof fn law_row(hit: InnerHit, row: Row)
    requires
        call_ensures(InnerHit::row, (&hit,), row),
    ensures
        row.1 == hit.fields.zdb_ctid@[0],
        hit.score is Some ==> row.0 == hit.score->0,
        hit.score is None ==> row.0 == (Score { bits: 0 }),
{
}

/// A copy of an index has its two addresses.
pub proof fn law_copy(elasticsearch: Elasticsearch, copy: Elasticsearch)
    requires
        call_ensures(Elasticsearch::clone, (&elasticsearch,), copy),
    ensures
        copy.options.url@ == elasticsearch.options.url@,
        copy.base_url@ == elasticsearch.base_url@,
        copy == elasticsearch,
{
}

/// A reply with a page says that page, hit by hit, and the id of the reply, whatever else the
/// reply holds. An error, a reply without hits and one without a page say neither.
pub proof fn law_read_reply(reply: Reply, step: ScrollStep)
    requires
        call_ensures(read_reply, (reply,), step),
    ensures
        reply is Ok && reply->Ok_0.hits is Some && reply->Ok_0.hits->0.hits is Some ==> {
            &&& step.hits is Some
            &&& step.hits->0@ == reply->Ok_0.hits->0.hits->0@
            &&& step.scroll_id == reply->Ok_0.scroll_id
        },
        reply is Err || reply->Ok_0.hits is None || reply->Ok_0.hits->0.hits is None ==> {
            &&& step.hits is None
            &&& step.scroll_id is None
        },
{
}

/// The body of a search is an object with these members: whether to compute scores, and what
/// to match, always; the least score and the order exactly where they are given, as they are
/// given; and no other.
pub proof fn law_search_body(
    track_scores: bool,
    min_score: Option<serde_json::Value>,
    sort: Option<serde_json::Value>,
    query: serde_json::Value,
    body: serde_json::Value,
)
    requires
        call_ensures(search_body, (track_scores, min_score, sort, query), body),
    ensures
        json_view(body) matches Json::Object(members) && {
            &&& members.contains_key("track_scores"@)
            &&& members["track_scores"@] == Json::Bool(track_scores)
            &&& members.contains_key("query"@)
            &&& members["query"@] == json_view(query)
            &&& members.contains_key("min_score"@) <==> min_score is Some
            &&& min_score is Some ==> members["min_score"@] == json_view(min_score->0)
            &&& members.contains_key("sort"@) <==> sort is Some
            &&& sort is Some ==> members["sort"@] == json_view(sort->0)
            &&& forall|key: Seq<char>| #[trigger]
                members.contains_key(key) ==> key == "track_scores"@ || key == "query"@ || key
                    == "min_score"@ || key == "sort"@
        },
{
    law_search_members(
        track_scores,
        match min_score {
            Some(value) => Some(json_view(value)),
            None => None,
        },
        match sort {
            Some(value) => Some(json_view(value)),
            None => None,
        },
        json_view(query),
    );
}

/// The order that puts the best score first has one key: the score, descending.
pub proof fn law_sort_best_first(sort: serde_json::Value)
    requires
        call_ensures(sort_best_first, (), sort),
    ensures
        json_view(sort) matches Json::Array(keys) && {
            &&& keys.len() == 1
            &&& keys[0] matches Json::Object(by)
            &&& forall|key: Seq<char>| #[trigger] by.contains_key(key) <==> key == "_score"@
            &&& by["_score"@] == Json::Text("desc"@)
        },
{
}

/// A request sends the text of `body` to `url` as JSON, and carries the limit, the offset and
/// the index that it is made with.
pub proof fn law_get_hits(
    url: String,
    limit: Option<u64>,
    offset: Option<u64>,
    elasticsearch: Elasticsearch,
    body: serde_json::Value,
    post: SearchPost,
)
    requires
        call_ensures(
            ElasticsearchSearchRequest::get_hits,
            (url, limit, offset, elasticsearch, body),
            post,
        ),
    ensures
        post.url@ == url@,
        post.content_type@ == "application/json"@,
        post.body@ == json_text(json_view(body)),
        post.limit == limit,
        post.offset == offset,
        post.elasticsearch == elasticsearch,
{
}

/// A search for rows asks Elasticsearch, and its request carries the limit and the offset of
/// the query, whatever they are, and the index.
pub proof fn law_search_carries_on(
    elasticsearch: Elasticsearch,
    query: ZDBQuery,
    request: ElasticsearchSearchRequest,
    execution: Execution,
)
    requires
        call_ensures(
            ElasticsearchSearchRequest::initial_search,
            (elasticsearch, query),
            execution,
        ) || {
            &&& call_ensures(ElasticsearchSearchRequest::new, (&elasticsearch, query), request)
            &&& call_ensures(ElasticsearchSearchRequest::execute, (request,), execution)
        },
        query.limit != Some(0u64),
    ensures
        execution is Post,
        execution->Post_0.limit == query.limit,
        execution->Post_0.offset == query.offset,
        execution->Post_0.elasticsearch == elasticsearch,
        execution->Post_0.content_type@ == "application/json"@,
{
}

/// A search is sent to the address of the index. It asks for as many hits as the limit says,
/// but for no more than ten thousand at once: `read` takes a digit after those before it.
/// Nothing else in the address depends on the query.
pub proof fn law_search_address(
    elasticsearch: Elasticsearch,
    query: ZDBQuery,
    request: ElasticsearchSearchRequest,
    execution: Execution,
    read: spec_fn(int, char) -> int,
)
    requires
        call_ensures(
            ElasticsearchSearchRequest::initial_search,
            (elasticsearch, query),
            execution,
        ) || {
            &&& call_ensures(ElasticsearchSearchRequest::new, (&elasticsearch, query), request)
            &&& call_ensures(ElasticsearchSearchRequest::execute, (request,), execution)
        },
        query.limit != Some(0u64),
        forall|before: int, c: char| #[trigger]
            read(before, c) == 10 * before + (c as int - '0' as int),
    ensures
        ({
            let url = execution->Post_0.url@;
            let fixed = elasticsearch.base_url@
                + "/_search?search_type=query_then_fetch&_source=false&scroll=10m&filter_path=_scroll_id,_shards.*,hits.total,hits.max_score,hits.hits._score,hits.hits.fields.*,hits.hits.highlight.*&stored_fields=_none_&docvalue_fields=zdb_ctid&size="@;
            let digits = url.skip(fixed.len() as int);
            &&& fixed.is_prefix_of(url)
            &&& digits.len() > 0
            &&& forall|i: int| 0 <= i < digits.len() ==> '0' <= #[trigger] digits[i] <= '9'
            &&& digits[0] != '0'
            &&& query.limit is Some && query.limit->0 < 10_000 ==> digits.fold_left(0int, read)
                == query.limit->0
            &&& query.limit is None || query.limit->0 >= 10_000 ==> digits.fold_left(0int, read)
                == 10_000
        }),
{
    let url = execution->Post_0.url@;
    let size = page_size(query.limit);
    lemma_decimal(size, read);
    lemma_search_path();
    let fixed = elasticsearch.base_url@
        + "/_search?search_type=query_then_fetch&_source=false&scroll=10m&filter_path=_scroll_id,_shards.*,hits.total,hits.max_score,hits.hits._score,hits.hits.fields.*,hits.hits.highlight.*&stored_fields=_none_&docvalue_fields=zdb_ctid&size="@;
    assert(url =~= fixed + decimal(size));
    assert(url.skip(fixed.len() as int) =~= decimal(size));
}

/// The fixed part of the address of a search, piece by piece.
proof fn lemma_search_path()
    ensures
        "/_search"@ + "?search_type=query_then_fetch"@ + "&_source=false"@ + "&scroll=10m"@
            + "&filter_path="@ + SEARCH_FILTER_PATH@ + "&stored_fields=_none_"@
            + "&docvalue_fields=zdb_ctid"@ + "&size="@
            == "/_search?search_type=query_then_fetch&_source=false&scroll=10m&filter_path=_scroll_id,_shards.*,hits.total,hits.max_score,hits.hits._score,hits.hits.fields.*,hits.hits.highlight.*&stored_fields=_none_&docvalue_fields=zdb_ctid&size="@,
{
    reveal_strlit("/_search");
    reveal_strlit("?search_type=query_then_fetch");
    reveal_strlit("&_source=false");
    reveal_strlit("&scroll=10m");
    reveal_strlit("&filter_path=");
    reveal_strlit("_scroll_id,_shards.*,hits.total,hits.max_score,hits.hits._score,hits.hits.fields.*,hits.hits.highlight.*");
    reveal_strlit("&stored_fields=_none_");
    reveal_strlit("&docvalue_fields=zdb_ctid");
    reveal_strlit("&size=");
    reveal_strlit("/_search?search_type=query_then_fetch&_source=false&scroll=10m&filter_path=_scroll_id,_shards.*,hits.total,hits.max_score,hits.hits._score,hits.hits.fields.*,hits.hits.highlight.*&stored_fields=_none_&docvalue_fields=zdb_ctid&size=");
}

/// What a search sends is the text of an object. It says what to match, as the query does. It
/// names a least score exactly where the query does, and that one. Scores are computed where
/// the query wants them, has a limit, or has a least score. The order is the one of the query;
/// where it has none, the best score comes first under a limit below ten thousand, and else no
/// order is asked for. There is nothing else in the object.
pub proof fn law_search_sends(
    elasticsearch: Elasticsearch,
    query: ZDBQuery,
    request: ElasticsearchSearchRequest,
    execution: Execution,
)
    requires
        call_ensures(
            ElasticsearchSearchRequest::initial_search,
            (elasticsearch, query),
            execution,
        ) || {
            &&& call_ensures(ElasticsearchSearchRequest::new, (&elasticsearch, query), request)
            &&& call_ensures(ElasticsearchSearchRequest::execute, (request,), execution)
        },
        query.limit != Some(0u64),
        query.query_dsl is Some,
    ensures
        exists|body: Map<Seq<char>, Json>|
            {
                &&& execution->Post_0.body@ == #[trigger] json_text(Json::Object(body))
                &&& body.contains_key("query"@)
                &&& body["query"@] == json_view(query.query_dsl->0)
                &&& body.contains_key("min_score"@) <==> query.min_score is Some
                &&& query.min_score is Some ==> body["min_score"@] == json_view(
                    query.min_score->0,
                )
                &&& body.contains_key("track_scores"@)
                &&& body["track_scores"@] == Json::Bool(
                    query.want_score || query.limit is Some || query.min_score is Some,
                )
                &&& body.contains_key("sort"@) <==> (query.sort_json is Some || (query.limit is Some
                    && query.limit->0 < 10_000))
                &&& query.sort_json is Some ==> body["sort"@] == json_view(query.sort_json->0)
                &&& query.sort_json is None && body.contains_key("sort"@) ==> body["sort"@]
                    == Json::Array(
                    seq![
                        Json::Object(
                            Map::<Seq<char>, Json>::empty().insert("_score"@, Json::Text("desc"@)),
                        ),
                    ],
                )
                &&& forall|key: Seq<char>| #[trigger]
                    body.contains_key(key) ==> key == "query"@ || key == "min_score"@ || key
                        == "track_scores"@ || key == "sort"@
            },
{
    let track_scores = query.want_score || query.limit is Some || query.min_score is Some;
    let min_score = optional_json(query.min_score);
    let sort = sort_order(query.limit, optional_json(query.sort_json));
    let matching = json_view(query.query_dsl->0);
    law_search_members(track_scores, min_score, sort, matching);
    let body = search_members(track_scores, min_score, sort, matching);
    assert(execution->Post_0.body@ == json_text(Json::Object(body)));
}

/// A search for no rows is answered without asking Elasticsearch. The answer has a limit of
/// zero, and nothing else in it.
pub proof fn law_search_for_no_rows(
    elasticsearch: Elasticsearch,
    query: ZDBQuery,
    request: ElasticsearchSearchRequest,
    execution: Execution,
)
    requires
        call_ensures(
            ElasticsearchSearchRequest::initial_search,
            (elasticsearch, query),
            execution,
        ) || {
            &&& call_ensures(ElasticsearchSearchRequest::new, (&elasticsearch, query), request)
            &&& call_ensures(ElasticsearchSearchRequest::execute, (request,), execution)
        },
        query.limit == Some(0u64),
    ensures
        execution is Respond,
        execution->Respond_0.elasticsearch is None,
        execution->Respond_0.limit == Some(0u64),
        execution->Respond_0.offset is None,
        execution->Respond_0.scroll_id is None,
        execution->Respond_0.shards is None,
        execution->Respond_0.hits is None,
{
}

/// A search is continued at the cluster, by the whole of its id: what is sent is the text of
/// an object that holds the id, for how long to keep the search, and nothing else. The reply
/// is for going on with, and has neither limit nor offset.
pub proof fn law_scroll(elasticsearch: Elasticsearch, scroll_id: &str, post: SearchPost)
    requires
        call_ensures(ElasticsearchSearchRequest::scroll, (elasticsearch, scroll_id), post),
    ensures
        post.url@ == elasticsearch.options.url@
            + "_search/scroll?filter_path=_scroll_id,_shards.*,hits.total,hits.max_score,hits.hits._score,hits.hits.fields.*,hits.hits.highlight.*"@,
        post.content_type@ == "application/json"@,
        post.limit is None,
        post.offset is None,
        post.elasticsearch == elasticsearch,
        exists|body: Map<Seq<char>, Json>|
            {
                &&& post.body@ == #[trigger] json_text(Json::Object(body))
                &&& forall|key: Seq<char>| #[trigger]
                    body.contains_key(key) <==> key == "scroll"@ || key == "scroll_id"@
                &&& body["scroll_id"@] == Json::Text(scroll_id@)
                &&& body["scroll"@] == Json::Text("10m"@)
            },
{
    lemma_posts_scroll(post, elasticsearch, scroll_id@);
}

/// What is sent to continue a search.
proof fn lemma_posts_scroll(post: SearchPost, elasticsearch: Elasticsearch, scroll_id: Seq<char>)
    requires
        posts_scroll(post, elasticsearch, scroll_id),
    ensures
        post.url@ == elasticsearch.options.url@
            + "_search/scroll?filter_path=_scroll_id,_shards.*,hits.total,hits.max_score,hits.hits._score,hits.hits.fields.*,hits.hits.highlight.*"@,
        exists|body: Map<Seq<char>, Json>|
            {
                &&& post.body@ == #[trigger] json_text(Json::Object(body))
                &&& forall|key: Seq<char>| #[trigger]
                    body.contains_key(key) <==> key == "scroll"@ || key == "scroll_id"@
                &&& body["scroll_id"@] == Json::Text(scroll_id)
                &&& body["scroll"@] == Json::Text("10m"@)
            },
{
    law_scroll_members(scroll_id);
    let body = scroll_members(scroll_id);
    assert(post.body@ == json_text(Json::Object(body)));
    lemma_scroll_path();
    assert(post.url@ =~= elasticsearch.options.url@
        + "_search/scroll?filter_path=_scroll_id,_shards.*,hits.total,hits.max_score,hits.hits._score,hits.hits.fields.*,hits.hits.highlight.*"@);
}

/// The fixed part of the address that continues searches, piece by piece.
proof fn lemma_scroll_path()
    ensures
        "_search/scroll"@ + "?filter_path="@ + SEARCH_FILTER_PATH@
            == "_search/scroll?filter_path=_scroll_id,_shards.*,hits.total,hits.max_score,hits.hits._score,hits.hits.fields.*,hits.hits.highlight.*"@,
{
    reveal_strlit("_search/scroll");
    reveal_strlit("?filter_path=");
    reveal_strlit("_scroll_id,_shards.*,hits.total,hits.max_score,hits.hits._score,hits.hits.fields.*,hits.hits.highlight.*");
    reveal_strlit("_search/scroll?filter_path=_scroll_id,_shards.*,hits.total,hits.max_score,hits.hits._score,hits.hits.fields.*,hits.hits.highlight.*");
}

/// A reply that is a response gives that response, with the index, the limit and the offset
/// of its request in place of its own. One that is none gives an error with its status and its
/// text.
pub proof fn law_receive(
    post: SearchPost,
    code: u16,
    text: String,
    parsed: Option<ElasticsearchSearchResponse>,
    reply: Reply,
)
    requires
        call_ensures(SearchPost::receive, (post, code, text, parsed), reply),
    ensures
        reply is Ok <==> parsed is Some,
        reply matches Ok(response) ==> {
            &&& response.elasticsearch == Some(post.elasticsearch)
            &&& response.limit == post.limit
            &&& response.offset == post.offset
            &&& response.scroll_id == parsed->0.scroll_id
            &&& response.shards == parsed->0.shards
            &&& response.hits == parsed->0.hits
        },
        reply matches Err(error) ==> error.0 == Some(code) && error.1@ == text@,
{
}

/// The response to a query has the limit and the offset of the query and the index that was
/// searched, and else what Elasticsearch replied.
pub proof fn law_response_to_query(
    elasticsearch: Elasticsearch,
    query: ZDBQuery,
    request: ElasticsearchSearchRequest,
    execution: Execution,
    code: u16,
    text: String,
    parsed: ElasticsearchSearchResponse,
    reply: Reply,
)
    requires
        call_ensures(
            ElasticsearchSearchRequest::initial_search,
            (elasticsearch, query),
            execution,
        ) || {
            &&& call_ensures(ElasticsearchSearchRequest::new, (&elasticsearch, query), request)
            &&& call_ensures(ElasticsearchSearchRequest::execute, (request,), execution)
        },
        query.limit != Some(0u64),
        call_ensures(SearchPost::receive, (execution->Post_0, code, text, Some(parsed)), reply),
    ensures
        reply matches Ok(response) && {
            &&& response.limit == query.limit
            &&& response.offset == query.offset
            &&& response.elasticsearch == Some(elasticsearch)
            &&& response.scroll_id == parsed.scroll_id
            &&& response.shards == parsed.shards
            &&& response.hits == parsed.hits
        },
{
}

/// The answer to a search for no rows is walked without a feed and a pump, and the walk returns
/// `None`, however often it is asked. `walks` are one walk after another, each but the last
/// asked for a row.
pub proof fn law_walk_over_no_rows(
    response: ElasticsearchSearchResponse,
    opened: Opened,
    walks: Seq<SearchResponseIntoIter>,
    walking: Seq<&mut SearchResponseIntoIter>,
    returned: Seq<Option<Row>>,
    k: int,
)
    requires
        response.elasticsearch is None,
        call_ensures(ElasticsearchSearchResponse::into_iter, (response,), opened),
        walks[0] == opened->Empty_0 || call_ensures(SearchResponseIntoIter::empty, (), walks[0]),
        walks.len() == returned.len() + 1,
        walking.len() == returned.len(),
        forall|i: int|
            0 <= i < returned.len() ==> {
                &&& *(#[trigger] walking[i]) == walks[i]
                &&& *final(walking[i]) == walks[i + 1]
                &&& call_ensures(SearchResponseIntoIter::next, (walking[i],), returned[i])
            },
        0 <= k < returned.len(),
    ensures
        opened is Empty,
        returned[k] is None,
        walks[k]@ == walks[0]@,
    decreases k,
{
    if k > 0 {
        law_walk_over_no_rows(response, opened, walks, walking, returned, k - 1);
        assert(*walking[k - 1] == walks[k - 1]);
    }
    assert(*walking[k] == walks[k]);
}

/// A search goes on by the id that came last: by the one of the response, and then by that of
/// each reply that holds a page, as long as pages are taken. It goes on exactly as long as there
/// is such an id. Each request is sent to the cluster of the response, and is the text of an
/// object that holds the whole of that id, for how long to keep the search, and nothing else.
///
/// `feeds` are one feed after another, each asked for a request, and each but the last then
/// given the reply to it.
pub proof fn law_requests_follow_ids(
    response: ElasticsearchSearchResponse,
    opened: Opened,
    feeds: Seq<ScrollFeed>,
    asked: Seq<Option<SearchPost>>,
    feeding: Seq<&mut ScrollFeed>,
    replies: Seq<Reply>,
    queued: Seq<bool>,
    i: int,
)
    requires
        response.elasticsearch is Some,
        call_ensures(ElasticsearchSearchResponse::into_iter, (response,), opened),
        feeds.len() == replies.len() + 1,
        asked.len() == feeds.len(),
        feeding.len() == replies.len(),
        queued.len() == replies.len(),
        forall|i: int|
            0 <= i < feeds.len() ==> call_ensures(
                ScrollFeed::next_request,
                (&#[trigger] feeds[i],),
                asked[i],
            ),
        forall|i: int| 0 <= i < replies.len() ==> (#[trigger] asked[i]) is Some,
        forall|i: int|
            0 <= i < replies.len() ==> {
                &&& *(#[trigger] feeding[i]) == feeds[i]
                &&& *final(feeding[i]) == feeds[i + 1]
                &&& call_ensures(ScrollFeed::accept, (feeding[i], replies[i]), queued[i])
            },
        feeds[0] == opened->feed,
        0 <= i < feeds.len(),
    ensures
        ({
            let cluster = response.elasticsearch->0;
            let reply = replies[i - 1];
            let id = if i == 0 {
                response.scroll_id
            } else if queued[i - 1] && reply is Ok && reply->Ok_0.hits is Some
                && reply->Ok_0.hits->0.hits is Some {
                reply->Ok_0.scroll_id
            } else {
                None
            };
            &&& asked[i] is Some <==> id is Some
            &&& asked[i] matches Some(post) ==> {
                &&& post.url@ == cluster.options.url@
                    + "_search/scroll?filter_path=_scroll_id,_shards.*,hits.total,hits.max_score,hits.hits._score,hits.hits.fields.*,hits.hits.highlight.*"@
                &&& post.content_type@ == "application/json"@
                &&& post.limit is None
                &&& post.offset is None
                &&& post.elasticsearch == cluster
                &&& exists|body: Map<Seq<char>, Json>|
                    {
                        &&& post.body@ == #[trigger] json_text(Json::Object(body))
                        &&& forall|key: Seq<char>| #[trigger]
                            body.contains_key(key) <==> key == "scroll"@ || key == "scroll_id"@
                        &&& body["scroll_id"@] == Json::Text(id->0@)
                        &&& body["scroll"@] == Json::Text("10m"@)
                    }
            }
        }),
{
    lemma_same_cluster(feeds, asked, feeding, replies, queued, i);
    assert(call_ensures(ScrollFeed::next_request, (&feeds[i],), asked[i]));
    if i > 0 {
        assert(*feeding[i - 1] == feeds[i - 1]);
    }
    if asked[i] is Some {
        lemma_posts_scroll(asked[i]->0, feeds[i]@.elasticsearch, feeds[i]@.scroll_id->0@);
    }
}

/// Feeds that are one after another ask the same cluster.
proof fn lemma_same_cluster(
    feeds: Seq<ScrollFeed>,
    asked: Seq<Option<SearchPost>>,
    feeding: Seq<&mut ScrollFeed>,
    replies: Seq<Reply>,
    queued: Seq<bool>,
    i: int,
)
    requires
        feeds.len() == replies.len() + 1,
        asked.len() == feeds.len(),
        feeding.len() == replies.len(),
        queued.len() == replies.len(),
        forall|i: int|
            0 <= i < feeds.len() ==> call_ensures(
                ScrollFeed::next_request,
                (&#[trigger] feeds[i],),
                asked[i],
            ),
        forall|i: int| 0 <= i < replies.len() ==> (#[trigger] asked[i]) is Some,
        forall|i: int|
            0 <= i < replies.len() ==> {
                &&& *(#[trigger] feeding[i]) == feeds[i]
                &&& *final(feeding[i]) == feeds[i + 1]
                &&& call_ensures(ScrollFeed::accept, (feeding[i], replies[i]), queued[i])
            },
        0 <= i < feeds.len(),
    ensures
        feeds[i]@.elasticsearch == feeds[0]@.elasticsearch,
    decreases i,
{
    if i > 0 {
        lemma_same_cluster(feeds, asked, feeding, replies, queued, i - 1);
        assert(*feeding[i - 1] == feeds[i - 1]);
    }
}

/// A feed that is given a reply with a page offers that page, hit by hit, and once. Given one
/// without, it offers nothing, and has sent nothing on. Where the page was not taken it comes
/// to its end, and it keeps the channel open only while it has not.
pub proof fn law_accept(reply: Reply, queued: bool)
    ensures
        forall|feed: &mut ScrollFeed| #[trigger]
            call_ensures(ScrollFeed::accept, (feed, reply), queued) ==> {
                let before = (*feed)@.pages.offered;
                let after = final(feed)@.pages.offered;
                &&& if reply is Ok && reply->Ok_0.hits is Some && reply->Ok_0.hits->0.hits is Some {
                    after == before.push((reply->Ok_0.hits->0.hits->0@, queued))
                } else {
                    after == before && !queued
                }
                &&& !queued ==> final(feed)@.scroll_id is None
                &&& final(feed)@.pages.open <==> final(feed)@.scroll_id is Some
            },
{
}

/// A pump sends a page by offering the row of each hit, in their order, until one is not
/// taken: the place that the hit names, and its score, or zero where it has none. It says
/// whether all were taken, and keeps its channel open exactly if they were.
pub proof fn law_forward(hits: Vec<InnerHit>, live: bool)
    ensures
        forall|pump: &mut HitPump| #[trigger]
            call_ensures(HitPump::forward, (pump, &hits), live) && (*pump)@.rows.open ==> {
                let before = (*pump)@.rows.offered;
                let after = final(pump)@.rows.offered;
                let count = after.len() - before.len();
                &&& before.is_prefix_of(after)
                &&& if live {
                    count == hits@.len()
                } else {
                    1 <= count <= hits@.len()
                }
                &&& forall|i: int|
                    0 <= i < count ==> {
                        let offer = #[trigger] after[before.len() + i];
                        let hit = hits@[i];
                        &&& offer.1 <==> live || i < count - 1
                        &&& offer.0.1 == hit.fields.zdb_ctid@[0]
                        &&& hit.score is Some ==> offer.0.0 == hit.score->0
                        &&& hit.score is None ==> offer.0.0 == (Score { bits: 0 })
                    }
                &&& final(pump)@.rows.open == live
                &&& final(pump)@.first == (*pump)@.first
                &&& final(pump)@.pages == (*pump)@.pages
            },
{
}

/// A pump that has come to its end stays there.
pub proof fn law_pump_stays_ended(live: bool)
    ensures
        forall|last: &mut HitPump, next: &mut HitPump|
            #![trigger call_ensures(HitPump::pump, (last,), false), call_ensures(HitPump::pump, (next,), live)]
            call_ensures(HitPump::pump, (last,), false) && *next == *final(last) && call_ensures(
                HitPump::pump,
                (next,),
                live,
            ) ==> !live && final(next)@ == (*next)@,
{
}

/// Walking a response returns a row for each hit of its own page and of the pages in the
/// replies after it, in their order: for those after the first `offset`, and for no more than
/// `limit` of them. The row names the place that the hit names, and has its score, or zero
/// where it has none. After that, and else, the walk returns `None`.
///
/// `feeds` are one feed after another, each asked for a request, and each but the last then
/// given the reply to it. `pages` are those of the replies, up to one without a page. `walks`
/// are one walk after another, each but the last asked for a row.
pub proof fn law_rows_of_hits(
    response: ElasticsearchSearchResponse,
    opened: Opened,
    feeds: Seq<ScrollFeed>,
    asked: Seq<Option<SearchPost>>,
    feeding: Seq<&mut ScrollFeed>,
    replies: Seq<Reply>,
    queued: Seq<bool>,
    pages: Seq<Seq<InnerHit>>,
    pump: Ghost<&mut HitPump>,
    walks: Seq<SearchResponseIntoIter>,
    walking: Seq<&mut SearchResponseIntoIter>,
    returned: Seq<Option<Row>>,
)
    requires
        response.elasticsearch is Some,
        call_ensures(ElasticsearchSearchResponse::into_iter, (response,), opened),
        feeds.len() == replies.len() + 1,
        asked.len() == feeds.len(),
        feeding.len() == replies.len(),
        queued.len() == replies.len(),
        forall|i: int|
            0 <= i < feeds.len() ==> call_ensures(
                ScrollFeed::next_request,
                (&#[trigger] feeds[i],),
                asked[i],
            ),
        forall|i: int| 0 <= i < replies.len() ==> (#[trigger] asked[i]) is Some,
        forall|i: int|
            0 <= i < replies.len() ==> {
                &&& *(#[trigger] feeding[i]) == feeds[i]
                &&& *final(feeding[i]) == feeds[i + 1]
                &&& call_ensures(ScrollFeed::accept, (feeding[i], replies[i]), queued[i])
            },
        feeds[0] == opened->feed,
        asked.last() is None,
        pages.len() <= replies.len(),
        forall|i: int|
            0 <= i < pages.len() ==> {
                &&& replies[i] is Ok
                &&& replies[i]->Ok_0.hits is Some
                &&& replies[i]->Ok_0.hits->0.hits is Some
                &&& replies[i]->Ok_0.hits->0.hits->0@ == #[trigger] pages[i]
            },
        pages.len() < replies.len() ==> {
            let end = replies[pages.len() as int];
            end is Err || end->Ok_0.hits is None || end->Ok_0.hits->0.hits is None
        },
        *pump@ == opened->pump,
        call_ensures(HitPump::run, (pump@,), ()),
        call_ensures(
            SearchResponseIntoIter::fast_forward,
            (opened->scroller, opened->limit, opened->offset),
            walks[0],
        ),
        walks.len() == returned.len() + 1,
        walking.len() == returned.len(),
        forall|i: int|
            0 <= i < returned.len() ==> {
                &&& *(#[trigger] walking[i]) == walks[i]
                &&& *final(walking[i]) == walks[i + 1]
                &&& call_ensures(SearchResponseIntoIter::next, (walking[i],), returned[i])
            },
    ensures
        opened is Scrolling,
        opened->limit == response.limit,
        opened->offset == response.offset,
        ({
            let own = match response.hits->0.hits {
                Some(page) => page@,
                None => Seq::empty(),
            };
            let hits = own + pages.flatten();
            let offset: int = match response.offset {
                Some(n) => n as int,
                None => 0,
            };
            forall|k: int|
                0 <= k < returned.len() ==> {
                    &&& (#[trigger] returned[k]) is Some <==> {
                        &&& offset + k < hits.len()
                        &&& response.limit is Some ==> k < response.limit->0
                    }
                    &&& returned[k] is Some ==> {
                        let hit = hits[offset + k];
                        let row = returned[k]->0;
                        &&& row.1 == hit.fields.zdb_ctid@[0]
                        &&& hit.score is Some ==> row.0 == hit.score->0
                        &&& hit.score is None ==> row.0 == (Score { bits: 0 })
                    }
                }
        }),
{
    let hits = first_page(response) + pages.flatten();
    let rows = rows_of_page(hits);
    let offset = offset_or_zero(response.offset);
    lemma_feeding(feeds, asked, feeding, replies, queued, pages, opened->pump@.pages);
    lemma_rows_of_hits(first_page(response), pages);
    lemma_joined((*final(pump@))@.rows, opened->scroller@, rows);
    lemma_walking(opened->scroller@, response.limit, offset, walks, walking, returned, rows);
    assert forall|k: int| 0 <= k < returned.len() implies #[trigger] returned[k] == if offset + k
        < hits.len() && (response.limit is Some ==> k < response.limit->0) {
        Some(row_of(hits[offset + k]))
    } else {
        None
    } by {
        lemma_window(hits, offset, response.limit, k);
    }
}

/// The rows of hits within an offset and a limit.
proof fn lemma_window(hits: Seq<InnerHit>, offset: nat, limit: Option<u64>, k: int)
    requires
        0 <= k,
    ensures
        item_at(window(rows_of_page(hits), offset, limit), k) == if offset + k < hits.len() && (
        limit is Some ==> k < limit->0) {
            Some(row_of(hits[offset + k]))
        } else {
            None
        },
{
}

/// What feeds that are one after another supply to the other end of their channel, once the
/// last has come to its end.
proof fn lemma_feeding(
    feeds: Seq<ScrollFeed>,
    asked: Seq<Option<SearchPost>>,
    calls: Seq<&mut ScrollFeed>,
    replies: Seq<Reply>,
    queued: Seq<bool>,
    pages: Seq<Seq<InnerHit>>,
    inlet: Inlet<Seq<InnerHit>>,
)
    requires
        feeds.len() == replies.len() + 1,
        asked.len() == feeds.len(),
        calls.len() == replies.len(),
        queued.len() == replies.len(),
        forall|i: int|
            0 <= i < feeds.len() ==> call_ensures(
                ScrollFeed::next_request,
                (&#[trigger] feeds[i],),
                asked[i],
            ),
        forall|i: int| 0 <= i < replies.len() ==> (#[trigger] asked[i]) is Some,
        forall|i: int|
            0 <= i < replies.len() ==> {
                &&& *(#[trigger] calls[i]) == feeds[i]
                &&& *final(calls[i]) == feeds[i + 1]
                &&& call_ensures(ScrollFeed::accept, (calls[i], replies[i]), queued[i])
            },
        asked.last() is None,
        feeds[0]@.wf(),
        feeds[0]@.pages.offered.len() == 0,
        joined(feeds[0]@.pages, inlet),
        pages.len() <= replies.len(),
        forall|i: int| 0 <= i < pages.len() ==> page_of(replies[i]) == Some(#[trigger] pages[i]),
        pages.len() < replies.len() ==> page_of(replies[pages.len() as int]) is None,
    ensures
        inlet.supplies(pages),
{
    let states = Seq::new(feeds.len(), |i: int| feeds[i]@);
    assert forall|i: int| 0 <= i < states.len() implies (#[trigger] states[i]).wf() by {
        if i > 0 {
            assert(*calls[i - 1] == feeds[i - 1]);
        }
    }
    assert forall|i: int| 0 <= i < replies.len() implies {
        &&& (#[trigger] states[i]).scroll_id is Some
        &&& queued[i] ==> page_of(replies[i]) is Some
        &&& states[i + 1] == fed(states[i], replies[i], queued[i])
    } by {
        assert(asked[i] is Some);
        assert(*calls[i] == feeds[i]);
    }
    assert(call_ensures(ScrollFeed::next_request, (&feeds[replies.len() as int],), asked.last()));
    law_feed(states, replies, queued);
    lemma_pages(states, replies, queued, pages);
    lemma_joined(states[0].pages, inlet, pages);
}

/// What walks return that are one after another, over a scroller that supplies `rows`.
proof fn lemma_walking(
    scroller: Inlet<Row>,
    limit: Option<u64>,
    offset: nat,
    walks: Seq<SearchResponseIntoIter>,
    calls: Seq<&mut SearchResponseIntoIter>,
    returned: Seq<Option<Row>>,
    rows: Seq<Row>,
)
    requires
        scroller.supplies(rows),
        walks[0]@ == walk_from(scroller, limit, offset),
        walks[0]@.rows->0.taken <= scroller.asked,
        walks.len() == returned.len() + 1,
        calls.len() == returned.len(),
        forall|i: int|
            0 <= i < returned.len() ==> {
                &&& *(#[trigger] calls[i]) == walks[i]
                &&& *final(calls[i]) == walks[i + 1]
                &&& call_ensures(SearchResponseIntoIter::next, (calls[i],), returned[i])
            },
    ensures
        forall|k: int|
            0 <= k < returned.len() ==> #[trigger] returned[k] == item_at(
                window(rows, offset, limit),
                k,
            ),
{
    let stops = Seq::new(walks.len(), |i: int| walks[i]@);
    assert forall|i: int| 0 <= i < returned.len() implies {
        &&& returned[i] == (#[trigger] stops[i]).upcoming()
        &&& stops[i + 1] == stops[i].advance()
        &&& !stops[i].at_limit() ==> stops[i + 1].rows->0.taken <= stops[i + 1].rows->0.asked
    } by {
        assert(*calls[i] == walks[i]);
    }
    law_walk(scroller, limit, offset, stops, returned, rows);
}

/// The pages of the replies that a feed takes.
proof fn lemma_pages(
    states: Seq<FeedState>,
    replies: Seq<Reply>,
    queued: Seq<bool>,
    pages: Seq<Seq<InnerHit>>,
)
    requires
        feed_run(states, replies, queued),
        pages.len() <= replies.len(),
        forall|i: int| 0 <= i < pages.len() ==> page_of(replies[i]) == Some(#[trigger] pages[i]),
        pages.len() < replies.len() ==> page_of(replies[pages.len() as int]) is None,
    ensures
        pages_of(replies) == pages,
    decreases replies.len(),
{
    if pages.len() > 0 {
        assert(page_of(replies[0]) == Some(pages[0]));
        let rest = replies.drop_first();
        let later = states.drop_first();
        let marks = queued.drop_first();
        let others = pages.drop_first();
        assert forall|i: int| 0 <= i < later.len() implies (#[trigger] later[i]).wf() by {
            assert(states[i + 1].wf());
        }
        assert forall|i: int| 0 <= i < rest.len() implies {
            &&& (#[trigger] later[i]).scroll_id is Some
            &&& marks[i] ==> page_of(rest[i]) is Some
            &&& later[i + 1] == fed(later[i], rest[i], marks[i])
        } by {
            assert(states[i + 1].scroll_id is Some);
        }
        assert forall|i: int| 0 <= i < others.len() implies page_of(rest[i]) == Some(
            #[trigger] others[i],
        ) by {
            assert(page_of(replies[i + 1]) == Some(pages[i + 1]));
        }
        lemma_pages(later, rest, marks, others);
        assert(states[0].scroll_id is Some);
        if rest.len() > 0 {
            assert(states[1].scroll_id is Some);
        }
        assert(pages =~= seq![pages[0]] + others);
    }
}

/// The rows of pages are those of their hits.
proof fn lemma_rows_of_hits(first: Seq<InnerHit>, pages: Seq<Seq<InnerHit>>)
    ensures
        rows_of_page(first) + rows_of_pages(pages) == rows_of_page(first + pages.flatten()),
    decreases pages.len(),
{
    if pages.len() == 0 {
        assert(first + pages.flatten() =~= first);
        assert(rows_of_page(first) + rows_of_pages(pages) =~= rows_of_page(first));
    } else {
        let last = pages.last();
        let before = first + pages.drop_last().flatten();
        lemma_rows_of_hits(first, pages.drop_last());
        pages.drop_last().lemma_flatten_push(last);
        assert(pages.drop_last().push(last) =~= pages);
        assert(first + pages.flatten() =~= before + last);
        assert(rows_of_page(before + last) =~= rows_of_page(before) + rows_of_page(last));
        assert(rows_of_page(first) + rows_of_pages(pages) =~= rows_of_page(first) + rows_of_pages(
            pages.drop_last(),
        ) + rows_of_page(last));
    }
}

/// A number that is appended to a text stands behind it, digit by digit, the greatest first:
/// `read` takes a digit after those before it. It begins with a zero only if it is zero.
pub proof fn law_push_decimal(n: u64, read: spec_fn(int, char) -> int)
    requires
        forall|before: int, c: char| #[trigger]
            read(before, c) == 10 * before + (c as int - '0' as int),
    ensures
        forall|text: &mut String| #[trigger]
            call_ensures(push_decimal, (text, n), ()) ==> {
                let digits = final(text)@.skip((*text)@.len() as int);
                &&& (*text)@.is_prefix_of(final(text)@)
                &&& digits.len() > 0
                &&& forall|i: int| 0 <= i < digits.len() ==> '0' <= #[trigger] digits[i] <= '9'
                &&& digits.fold_left(0int, read) == n
                &&& digits[0] == '0' ==> n == 0
            },
{
    lemma_decimal(n as nat, read);
    assert forall|text: &mut String| #[trigger] call_ensures(push_decimal, (text, n), ()) implies {
        let digits = final(text)@.skip((*text)@.len() as int);
        &&& (*text)@.is_prefix_of(final(text)@)
        &&& digits.len() > 0
        &&& forall|i: int| 0 <= i < digits.len() ==> '0' <= #[trigger] digits[i] <= '9'
        &&& digits.fold_left(0int, read) == n
        &&& digits[0] == '0' ==> n == 0
    } by {
        assert(final(text)@.skip((*text)@.len() as int) =~= decimal(n as nat));
    }
}

/// What the digits of a number say.
proof fn lemma_decimal(n: nat, read: spec_fn(int, char) -> int)
    requires
        forall|before: int, c: char| #[trigger]
            read(before, c) == 10 * before + (c as int - '0' as int),
    ensures
        ({
            let digits = decimal(n);
            &&& digits.len() > 0
            &&& forall|i: int| 0 <= i < digits.len() ==> '0' <= #[trigger] digits[i] <= '9'
            &&& digits.fold_left(0int, read) == n
            &&& digits[0] == '0' ==> n == 0
        }),
    decreases n,
{
    let digits = decimal(n);
    reveal_with_fuel(Seq::fold_left, 3);
    if n < 10 {
        assert(digits.drop_last() =~= Seq::empty());
    } else {
        lemma_decimal(n / 10, read);
        assert(digits.drop_last() =~= decimal(n / 10));
    }
}

} // verus!
