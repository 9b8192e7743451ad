//! What is sent to Elasticsearch, and what becomes of the reply.

use vstd::prelude::*;
use vstd::string::*;

use crate::decimal::{decimal, push_decimal};
use crate::elasticsearch::{Elasticsearch, ElasticsearchError, ZDBQuery};
use crate::json::{
    empty_object, json_array, json_bool, json_object, json_string, json_text, json_to_string,
    json_view, Json,
};
use crate::response::ElasticsearchSearchResponse;

verus! {

/// The parts of a reply that Elasticsearch is to send.
pub const SEARCH_FILTER_PATH: &'static str = "_scroll_id,_shards.*,hits.total,hits.max_score,hits.hits._score,hits.hits.fields.*,hits.hits.highlight.*";

/// The greatest number of hits in one reply.
pub const MAX_PAGE: u64 = 10_000;

/// A query to be put to an index.
pub struct ElasticsearchSearchRequest {
    elasticsearch: Elasticsearch,
    query: ZDBQuery,
}

/// An HTTP POST to make, with what the response to it is to carry on.
#[derive(Debug)]
pub struct SearchPost {
    pub url: String,
    /// The value of the header `content-type`.
    pub content_type: String,
    pub body: String,
    pub limit: Option<u64>,
    pub offset: Option<u64>,
    pub elasticsearch: Elasticsearch,
}

/// What executing a search comes to.
#[derive(Debug)]
pub enum Execution {
    /// The response is known without asking Elasticsearch.
    Respond(ElasticsearchSearchResponse),
    /// Elasticsearch is to be asked.
    Post(SearchPost),
}

/// How many hits a reply may hold: the limit, where it is less than a full page.
pub open spec fn page_size(limit: Option<u64>) -> nat {
    match limit {
        Some(n) => if n < MAX_PAGE {
            n as nat
        } else {
            MAX_PAGE as nat
        },
        None => MAX_PAGE as nat,
    }
}

/// The address of a search of the index at `base_url`.
pub open spec fn search_url(base_url: Seq<char>, limit: Option<u64>) -> Seq<char> {
    base_url + "/_search"@ + "?search_type=query_then_fetch"@ + "&_source=false"@ + "&scroll=10m"@
        + "&filter_path="@ + SEARCH_FILTER_PATH@ + "&stored_fields=_none_"@
        + "&docvalue_fields=zdb_ctid"@ + "&size="@ + decimal(page_size(limit))
}

/// The address at which the cluster at `url` continues searches.
pub open spec fn scroll_url(url: Seq<char>) -> Seq<char> {
    url + "_search/scroll"@ + "?filter_path="@ + SEARCH_FILTER_PATH@
}

/// What an optional value holds.
pub open spec fn optional_json(value: Option<serde_json::Value>) -> Option<Json> {
    match value {
        Some(v) => Some(json_view(v)),
        None => None,
    }
}

/// Whether Elasticsearch is to compute scores.
pub open spec fn tracks_scores(query: ZDBQuery) -> bool {
    query.want_score || query.limit is Some || query.min_score is Some
}

/// The best score first.
pub open spec fn best_first() -> Json {
    Json::Array(
        seq![Json::Object(Map::<Seq<char>, Json>::empty().insert("_score"@, Json::Text("desc"@)))],
    )
}

/// The order to ask for: the one of the query; else, under a limit of less than a full page,
/// the best score first; else none.
pub open spec fn sort_order(limit: Option<u64>, sort_json: Option<Json>) -> Option<Json> {
    match sort_json {
        Some(order) => Some(order),
        None => match limit {
            Some(n) => if n < MAX_PAGE {
                Some(best_first())
            } else {
                None
            },
            None => None,
        },
    }
}

/// `object` with the member `key`, where there is a value for it.
pub open spec fn with_optional(
    object: Map<Seq<char>, Json>,
    key: Seq<char>,
    value: Option<Json>,
) -> Map<Seq<char>, Json> {
    match value {
        Some(json) => object.insert(key, json),
        None => object,
    }
}

/// The members of the body of a search.
pub open spec fn search_members(
    track_scores: bool,
    min_score: Option<Json>,
    sort: Option<Json>,
    query: Json,
) -> Map<Seq<char>, Json> {
    with_optional(
        with_optional(
            Map::<Seq<char>, Json>::empty().insert("track_scores"@, Json::Bool(track_scores)),
            "min_score"@,
            min_score,
        ),
        "sort"@,
        sort,
    ).insert("query"@, query)
}

/// The members of the body that continues the search `scroll_id`.
pub open spec fn scroll_members(scroll_id: Seq<char>) -> Map<Seq<char>, Json> {
    Map::<Seq<char>, Json>::empty().insert("scroll"@, Json::Text("10m"@)).insert(
        "scroll_id"@,
        Json::Text(scroll_id),
    )
}

/// `post` sends the object `body` to `url`, and `limit`, `offset` and `elasticsearch` are
/// for the response.
pub open spec fn posts(
    post: SearchPost,
    url: Seq<char>,
    limit: Option<u64>,
    offset: Option<u64>,
    elasticsearch: Elasticsearch,
    body: Json,
) -> bool {
    &&& post.url@ == url
    &&& post.content_type@ == "application/json"@
    &&& post.body@ == json_text(body)
    &&& post.limit == limit
    &&& post.offset == offset
    &&& post.elasticsearch == elasticsearch
}

/// The body of the search for `query`.
pub open spec fn search_json(query: ZDBQuery) -> Json {
    Json::Object(
        search_members(
            tracks_scores(query),
            optional_json(query.min_score),
            sort_order(query.limit, optional_json(query.sort_json)),
            json_view(query.query_dsl->0),
        ),
    )
}

/// `post` asks the index `elasticsearch` for the rows of `query`.
pub open spec fn posts_search(
    post: SearchPost,
    elasticsearch: Elasticsearch,
    query: ZDBQuery,
) -> bool {
    posts(
        post,
        search_url(elasticsearch.base_url@, query.limit),
        query.limit,
        query.offset,
        elasticsearch,
        search_json(query),
    )
}

/// `post` asks the cluster of `elasticsearch` to continue the search `scroll_id`.
pub open spec fn posts_scroll(
    post: SearchPost,
    elasticsearch: Elasticsearch,
    scroll_id: Seq<char>,
) -> bool {
    posts(
        post,
        scroll_url(elasticsearch.options.url@),
        None,
        None,
        elasticsearch,
        Json::Object(scroll_members(scroll_id)),
    )
}

/// The response to a search for no rows.
pub open spec fn no_rows() -> ElasticsearchSearchResponse {
    ElasticsearchSearchResponse {
        elasticsearch: None,
        limit: Some(0),
        offset: None,
        scroll_id: None,
        shards: None,
        hits: None,
    }
}

/// `execution` is what a search of `elasticsearch` for `query` comes to: with a limit of
/// zero, no rows; else a request.
pub open spec fn executes(
    execution: Execution,
    elasticsearch: Elasticsearch,
    query: ZDBQuery,
) -> bool {
    if query.limit == Some(0u64) {
        execution == Execution::Respond(no_rows())
    } else {
        execution matches Execution::Post(post) && posts_search(post, elasticsearch, query)
    }
}

/// The order that puts the best score first.
pub fn sort_best_first() -> (sort: serde_json::Value)
    ensures
        json_view(sort) == best_first(),
{
    let mut by_score = empty_object();
    by_score.insert("_score".to_string(), json_string("desc".to_string()));
    let mut keys: Vec<serde_json::Value> = Vec::new();
    keys.push(json_object(by_score));
    let sort = json_array(keys);
    assert(json_view(sort) == best_first()) by {
        assert(keys@.map_values(|item: serde_json::Value| json_view(item)) =~= seq![
            json_view(keys@[0]),
        ]);
    }
    sort
}

/// The body of a search.
pub fn search_body(
    track_scores: bool,
    min_score: Option<serde_json::Value>,
    sort: Option<serde_json::Value>,
    query: serde_json::Value,
) -> (body: serde_json::Value)
    ensures
        json_view(body) == Json::Object(
            search_members(
                track_scores,
                optional_json(min_score),
                optional_json(sort),
                json_view(query),
            ),
        ),
{
    let mut object = empty_object();
    object.insert("track_scores".to_string(), json_bool(track_scores));
    if let Some(value) = min_score {
        object.insert("min_score".to_string(), value);
    }
    if let Some(value) = sort {
        object.insert("sort".to_string(), value);
    }
    object.insert("query".to_string(), query);
    json_object(object)
}

impl ElasticsearchSearchRequest {
    /// The index that is searched.
    pub closed spec fn elasticsearch(self) -> Elasticsearch {
        self.elasticsearch
    }

    /// What is searched for.
    pub closed spec fn query(self) -> ZDBQuery {
        self.query
    }

    /// A request to search the index `elasticsearch` for `query`.
    pub fn new(elasticsearch: &Elasticsearch, query: ZDBQuery) -> (request: Self)
        ensures
            request.elasticsearch() == *elasticsearch,
            request.query() == query,
    {
        ElasticsearchSearchRequest { elasticsearch: elasticsearch.clone(), query }
    }

    /// What executing the request comes to. A query that asks for rows says what they match.
    pub fn execute(self) -> (execution: Execution)
        requires
            self.query().limit != Some(0u64) ==> self.query().query_dsl is Some,
        ensures
            executes(execution, self.elasticsearch(), self.query()),
    {
        ElasticsearchSearchRequest::initial_search(self.elasticsearch, self.query)
    }

    /// What the search of `elasticsearch` for `query` comes to.
    pub fn initial_search(elasticsearch: Elasticsearch, query: ZDBQuery) -> (execution: Execution)
        requires
            query.limit != Some(0u64) ==> query.query_dsl is Some,
        ensures
            executes(execution, elasticsearch, query),
    {
        let mut url = String::new();
        url.append(&elasticsearch.base_url);
        url.append("/_search");
        url.append("?search_type=query_then_fetch");
        url.append("&_source=false");
        url.append("&scroll=10m");
        url.append("&filter_path=");
        url.append(SEARCH_FILTER_PATH);
        url.append("&stored_fields=_none_");
        url.append("&docvalue_fields=zdb_ctid");

        let track_scores = query.want_score || query.limit.is_some() || query.min_score.is_some();
        let mut sort_json = query.sort_json;

        url.append("&size=");
        match query.limit {
            Some(limit) if limit == 0 => {
                // with a limit of zero there is nothing to ask Elasticsearch for
                return Execution::Respond(
                    ElasticsearchSearchResponse {
                        elasticsearch: None,
                        limit: Some(0),
                        offset: None,
                        scroll_id: None,
                        shards: None,
                        hits: None,
                    },
                );
            },
            Some(limit) if limit < MAX_PAGE => {
                push_decimal(&mut url, limit);
                if sort_json.is_none() {
                    sort_json = Some(sort_best_first());
                }
            },
            _ => {
                push_decimal(&mut url, MAX_PAGE);
            },
        }

        let body = search_body(
            track_scores,
            query.min_score,
            sort_json,
            query.query_dsl.unwrap(),
        );
        assert(url@ =~= search_url(elasticsearch.base_url@, query.limit));
        Execution::Post(
            ElasticsearchSearchRequest::get_hits(
                url,
                query.limit,
                query.offset,
                elasticsearch,
                body,
            ),
        )
    }

    /// The request that continues the search `scroll_id`.
    pub fn scroll(elasticsearch: Elasticsearch, scroll_id: &str) -> (post: SearchPost)
        ensures
            posts_scroll(post, elasticsearch, scroll_id@),
    {
        let mut url = String::new();
        url.append(&elasticsearch.options.url);
        url.append("_search/scroll");
        url.append("?filter_path=");
        url.append(SEARCH_FILTER_PATH);

        let mut object = empty_object();
        object.insert("scroll".to_string(), json_string("10m".to_string()));
        object.insert("scroll_id".to_string(), json_string(scroll_id.to_string()));

        assert(url@ =~= scroll_url(elasticsearch.options.url@));
        ElasticsearchSearchRequest::get_hits(url, None, None, elasticsearch, json_object(object))
    }

    /// The request that sends `body` to `url`.
    pub fn get_hits(
        url: String,
        limit: Option<u64>,
        offset: Option<u64>,
        elasticsearch: Elasticsearch,
        body: serde_json::Value,
    ) -> (post: SearchPost)
        ensures
            posts(post, url@, limit, offset, elasticsearch, json_view(body)),
    {
        SearchPost {
            url,
            content_type: "application/json".to_string(),
            body: json_to_string(&body),
            limit,
            offset,
            elasticsearch,
        }
    }
}

impl SearchPost {
    /// The response that the reply with the status `code` and the text `body` gives, where
    /// `parsed` is what `body` says as a response, if it is one. The response carries the
    /// index, the limit and the offset of the search.
    pub fn receive(
        self,
        code: u16,
        body: String,
        parsed: Option<ElasticsearchSearchResponse>,
    ) -> (response: Result<ElasticsearchSearchResponse, ElasticsearchError>)
        ensures
            response == match parsed {
                Some(reply) => Ok(
                    (ElasticsearchSearchResponse {
                        elasticsearch: Some(self.elasticsearch),
                        limit: self.limit,
                        offset: self.offset,
                        scroll_id: reply.scroll_id,
                        shards: reply.shards,
                        hits: reply.hits,
                    }),
                ),
                None => Err(ElasticsearchError(Some(code), body)),
            },
    {
        match parsed {
            Some(mut response) => {
                response.elasticsearch = Some(self.elasticsearch);
                response.limit = self.limit;
                response.offset = self.offset;
                Ok(response)
            },
            None => Err(ElasticsearchError(Some(code), body)),
        }
    }
}

} // verus!
