use zdb_search::decimal::push_decimal;
use zdb_search::elasticsearch::{Elasticsearch, ElasticsearchError, ElasticsearchOptions, ZDBQuery};
use zdb_search::request::{
    search_body, sort_best_first, ElasticsearchSearchRequest, Execution, SearchPost,
};
use zdb_search::response::ElasticsearchSearchResponse;

const FILTER: &str = "_scroll_id,_shards.*,hits.total,hits.max_score,hits.hits._score,hits.hits.fields.*,hits.hits.highlight.*";

fn index() -> Elasticsearch {
    Elasticsearch {
        options: ElasticsearchOptions { url: String::from("http://localhost:9200/") },
        base_url: String::from("http://localhost:9200/1234.5678"),
    }
}

fn json(text: &str) -> serde_json::Value {
    serde_json::from_str(text).unwrap()
}

fn match_all() -> ZDBQuery {
    ZDBQuery {
        want_score: false,
        limit: None,
        offset: None,
        min_score: None,
        sort_json: None,
        query_dsl: Some(json("{\"match_all\":{}}")),
    }
}

fn post_of(query: ZDBQuery) -> SearchPost {
    match ElasticsearchSearchRequest::new(&index(), query).execute() {
        Execution::Post(post) => post,
        Execution::Respond(_) => panic!("answered without a request"),
    }
}

fn search_url(size: &str) -> String {
    format!(
        "http://localhost:9200/1234.5678/_search?search_type=query_then_fetch&_source=false&scroll=10m&filter_path={}&stored_fields=_none_&docvalue_fields=zdb_ctid&size={}",
        FILTER, size
    )
}

#[test]
fn decimal_text() {
    for n in [0u64, 7, 9, 10, 19, 100, 9999, 10_000, 120_034, u64::MAX] {
        let mut text = String::from("n=");
        push_decimal(&mut text, n);
        assert_eq!(text, format!("n={}", n));
    }
}

#[test]
fn search_without_limit() {
    let post = post_of(match_all());
    assert_eq!(post.url, search_url("10000"));
    assert_eq!(post.content_type, "application/json");
    assert_eq!(post.body, "{\"query\":{\"match_all\":{}},\"track_scores\":false}");
    assert_eq!(post.limit, None);
    assert_eq!(post.offset, None);
    assert_eq!(post.elasticsearch.base_url, "http://localhost:9200/1234.5678");
    assert_eq!(post.elasticsearch.options.url, "http://localhost:9200/");
}

#[test]
fn search_below_a_full_page() {
    let mut query = match_all();
    query.limit = Some(10);
    query.offset = Some(3);
    let post = post_of(query);
    assert_eq!(post.url, search_url("10"));
    assert_eq!(
        post.body,
        "{\"query\":{\"match_all\":{}},\"sort\":[{\"_score\":\"desc\"}],\"track_scores\":true}"
    );
    assert_eq!(post.limit, Some(10));
    assert_eq!(post.offset, Some(3));
}

#[test]
fn page_size_at_its_bounds() {
    for (limit, size, ordered) in [
        (1u64, "1", true),
        (9_999, "9999", true),
        (10_000, "10000", false),
        (10_001, "10000", false),
        (u64::MAX, "10000", false),
    ] {
        let mut query = match_all();
        query.limit = Some(limit);
        let post = post_of(query);
        assert_eq!(post.url, search_url(size));
        assert_eq!(post.body.contains("\"sort\""), ordered);
        assert!(post.body.contains("\"track_scores\":true"));
        assert_eq!(post.limit, Some(limit));
    }
}

#[test]
fn given_order_is_kept() {
    for limit in [None, Some(5u64), Some(20_000)] {
        let mut query = match_all();
        query.limit = limit;
        query.sort_json = Some(json("[{\"generate_series\":\"desc\"}]"));
        let body = json(&post_of(query).body);
        assert_eq!(body["sort"], json("[{\"generate_series\":\"desc\"}]"));
    }
}

#[test]
fn scores_are_tracked_on_demand() {
    let mut wanted = match_all();
    wanted.want_score = true;
    assert_eq!(
        post_of(wanted).body,
        "{\"query\":{\"match_all\":{}},\"track_scores\":true}"
    );

    let mut least = match_all();
    least.min_score = Some(serde_json::Value::from(2.5));
    assert_eq!(
        post_of(least).body,
        "{\"min_score\":2.5,\"query\":{\"match_all\":{}},\"track_scores\":true}"
    );
}

#[test]
fn body_members() {
    let body = search_body(false, Some(json("1")), Some(json("[]")), json("null"));
    assert_eq!(
        body,
        json("{\"track_scores\":false,\"min_score\":1,\"sort\":[],\"query\":null}")
    );
    assert_eq!(sort_best_first(), json("[{\"_score\":\"desc\"}]"));
}

#[test]
fn limit_of_zero_needs_no_query() {
    let mut query = match_all();
    query.limit = Some(0);
    query.offset = Some(4);
    query.query_dsl = None;
    match ElasticsearchSearchRequest::new(&index(), query).execute() {
        Execution::Respond(response) => {
            assert!(response.elasticsearch.is_none());
            assert_eq!(response.limit, Some(0));
            assert_eq!(response.offset, None);
            assert!(response.scroll_id.is_none());
            assert!(response.shards.is_none());
            assert!(response.hits.is_none());
        }
        Execution::Post(_) => panic!("asked for no rows"),
    }
}

#[test]
fn scroll_request() {
    let post = ElasticsearchSearchRequest::scroll(index(), "a\"b\\c");
    assert_eq!(
        post.url,
        format!("http://localhost:9200/_search/scroll?filter_path={}", FILTER)
    );
    assert_eq!(post.content_type, "application/json");
    assert_eq!(post.body, "{\"scroll\":\"10m\",\"scroll_id\":\"a\\\"b\\\\c\"}");
    assert_eq!(post.limit, None);
    assert_eq!(post.offset, None);
}

#[test]
fn reply_that_is_a_response() {
    let mut query = match_all();
    query.limit = Some(8);
    query.offset = Some(2);
    let parsed = ElasticsearchSearchResponse {
        elasticsearch: None,
        limit: None,
        offset: None,
        scroll_id: Some(String::from("next")),
        shards: None,
        hits: None,
    };
    let response = post_of(query).receive(200, String::from("{}"), Some(parsed)).unwrap();
    assert_eq!(response.elasticsearch.unwrap().base_url, "http://localhost:9200/1234.5678");
    assert_eq!(response.limit, Some(8));
    assert_eq!(response.offset, Some(2));
    assert_eq!(response.scroll_id, Some(String::from("next")));
}

#[test]
fn reply_that_is_no_response() {
    match post_of(match_all()).receive(200, String::from("not json"), None) {
        Err(ElasticsearchError(code, text)) => {
            assert_eq!(code, Some(200));
            assert_eq!(text, "not json");
        }
        Ok(_) => panic!("took text for a response"),
    }
}
