use std::collections::HashMap;

use zdb_search::elasticsearch::{Elasticsearch, ElasticsearchError, ElasticsearchOptions, ZDBQuery};
use zdb_search::request::{ElasticsearchSearchRequest, Execution};
use zdb_search::response::{
    ElasticsearchSearchResponse, Fields, Hits, HitsTotal, InnerHit, Row, Score,
};
use zdb_search::rows::{Opened, SearchResponseIntoIter};
use zdb_search::channel::{new_page_channel, new_row_channel};
use zdb_search::scroll::{read_reply, Reply, Scroller};

fn index() -> Elasticsearch {
    Elasticsearch {
        options: ElasticsearchOptions { url: String::from("http://localhost:9200/") },
        base_url: String::from("http://localhost:9200/index"),
    }
}

fn hit(ctid: u64) -> InnerHit {
    InnerHit {
        index: None,
        type_: None,
        score: Some(Score { bits: 1.5f64.to_bits() }),
        id: None,
        fields: Fields { zdb_ctid: [ctid], other: HashMap::new() },
    }
}

fn page(from: u64, to: u64) -> Vec<InnerHit> {
    (from..=to).map(hit).collect()
}

fn response(
    scroll_id: Option<&str>,
    hits: Option<Vec<InnerHit>>,
    limit: Option<u64>,
    offset: Option<u64>,
) -> ElasticsearchSearchResponse {
    ElasticsearchSearchResponse {
        elasticsearch: Some(index()),
        limit,
        offset,
        scroll_id: scroll_id.map(String::from),
        shards: None,
        hits: Some(Hits {
            total: HitsTotal { value: 0, relation: String::from("eq") },
            max_score: None,
            hits,
        }),
    }
}

fn failure() -> Reply {
    Err(ElasticsearchError(Some(404), String::from("gone")))
}

/// Walks a response whose search goes on with `replies`.
fn walk(response: ElasticsearchSearchResponse, replies: Vec<Reply>) -> Vec<u64> {
    let mut walk = match response.into_iter() {
        Opened::Empty(walk) => walk,
        Opened::Scrolling { scroller, mut feed, mut pump, limit, offset } => {
            for reply in replies {
                if feed.next_request().is_none() {
                    break;
                }
                feed.accept(reply);
            }
            drop(feed);
            pump.run();
            SearchResponseIntoIter::fast_forward(scroller, limit, offset)
        }
    };
    let mut rows = Vec::new();
    while let Some((_, ctid)) = walk.next() {
        rows.push(ctid);
    }
    assert_eq!(walk.next(), None);
    rows
}

/// The rows of a table of 10001, which comes in two pages.
fn test_limit(limit: Option<u64>) -> usize {
    let replies = vec![
        Ok(response(Some("b"), Some(page(10_001, 10_001)), None, None)),
        Ok(response(Some("c"), None, None, None)),
    ];
    walk(response(Some("a"), Some(page(1, 10_000)), limit, None), replies).len()
}

#[test]
fn test_limit_none() {
    assert_eq!(test_limit(None), 10_001);
}

#[test]
fn test_limit_exact() {
    assert_eq!(test_limit(Some(10_001)), 10_001);
}

#[test]
fn test_limit_10() {
    assert_eq!(test_limit(Some(10)), 10);
}

#[test]
fn test_limit_0() {
    let query = ZDBQuery {
        want_score: false,
        limit: Some(0),
        offset: None,
        min_score: None,
        sort_json: None,
        query_dsl: None,
    };
    match ElasticsearchSearchRequest::new(&index(), query).execute() {
        Execution::Respond(response) => assert_eq!(walk(response, vec![]).len(), 0),
        Execution::Post(_) => panic!("asked for no rows"),
    }
}

#[test]
fn test_offset_scan() {
    let rows = walk(response(None, Some(page(1, 100)), None, Some(10)), vec![]);
    assert_eq!(rows[0], 11);
    assert_eq!(rows.len(), 90);
}

#[test]
fn test_offset_overflow() {
    let rows = walk(response(None, Some(page(1, 100)), None, Some(1000)), vec![]);
    assert!(rows.is_empty());
}

#[test]
fn offset_and_limit_across_pages() {
    let replies = || {
        vec![
            Ok(response(Some("b"), Some(page(4, 6)), None, None)),
            Ok(response(Some("c"), Some(vec![]), None, None)),
            Ok(response(None, Some(page(7, 9)), None, None)),
            Ok(response(Some("d"), Some(page(10, 12)), None, None)),
        ]
    };
    let first = |limit, offset| response(Some("a"), Some(page(1, 3)), limit, offset);
    assert_eq!(walk(first(None, None), replies()), vec![1, 2, 3, 4, 5, 6, 7, 8, 9]);
    assert_eq!(walk(first(Some(4), Some(2)), replies()), vec![3, 4, 5, 6]);
    assert_eq!(walk(first(Some(4), Some(7)), replies()), vec![8, 9]);
    assert_eq!(walk(first(Some(4), Some(9)), replies()), Vec::<u64>::new());
    assert_eq!(walk(first(Some(0), Some(2)), replies()), Vec::<u64>::new());
}

#[test]
fn scrolling_ends_with_an_error() {
    let replies = vec![
        Ok(response(Some("b"), Some(page(4, 4)), None, None)),
        failure(),
        Ok(response(Some("c"), Some(page(5, 5)), None, None)),
    ];
    let rows = walk(response(Some("a"), Some(page(1, 3)), None, None), replies);
    assert_eq!(rows, vec![1, 2, 3, 4]);
}

#[test]
fn scrolling_ends_without_hits() {
    let mut bare = response(Some("b"), None, None, None);
    bare.hits = None;
    let replies = vec![Ok(bare), Ok(response(Some("c"), Some(page(5, 5)), None, None))];
    let rows = walk(response(Some("a"), Some(page(1, 3)), None, None), replies);
    assert_eq!(rows, vec![1, 2, 3]);
}

#[test]
fn response_without_a_page_is_walked() {
    let replies = vec![Ok(response(None, Some(page(4, 5)), None, None))];
    assert_eq!(walk(response(Some("a"), None, None, None), replies), vec![4, 5]);
}

#[test]
fn requests_follow_the_ids() {
    let (_scroller, mut feed, _pump) = Scroller::new(index(), Some(String::from("a")), vec![]);
    let post = feed.next_request().unwrap();
    assert_eq!(post.body, "{\"scroll\":\"10m\",\"scroll_id\":\"a\"}");
    assert!(post.url.starts_with("http://localhost:9200/_search/scroll?"));
    assert!(feed.accept(Ok(response(Some("b"), Some(vec![]), None, None))));
    assert_eq!(
        feed.next_request().unwrap().body,
        "{\"scroll\":\"10m\",\"scroll_id\":\"b\"}"
    );
    assert!(feed.accept(Ok(response(None, Some(vec![]), None, None))));
    assert!(feed.next_request().is_none());
}

#[test]
fn feed_ends_when_nobody_takes_pages() {
    let (_scroller, mut feed, pump) = Scroller::new(index(), Some(String::from("a")), vec![]);
    drop(pump);
    assert!(!feed.accept(Ok(response(Some("b"), Some(page(1, 2)), None, None))));
    assert!(feed.next_request().is_none());
}

#[test]
fn pump_ends_when_nobody_takes_rows() {
    let (scroller, _feed, mut pump) = Scroller::new(index(), None, page(1, 2));
    drop(scroller);
    assert!(!pump.pump());
}

#[test]
fn pump_takes_the_first_page_first() {
    let (mut scroller, mut feed, mut pump) =
        Scroller::new(index(), Some(String::from("a")), page(1, 2));
    assert!(feed.accept(Ok(response(None, Some(page(3, 3)), None, None))));
    drop(feed);
    assert!(pump.pump());
    assert!(pump.pump());
    assert!(!pump.pump());
    drop(pump);
    let bits = 1.5f64.to_bits();
    for ctid in 1..=3u64 {
        assert_eq!(scroller.next(), Some((Score { bits }, ctid)));
    }
    assert_eq!(scroller.next(), None);
    assert_eq!(scroller.next(), None);
}

#[test]
fn run_hands_on_all_rows_and_closes() {
    let opened = response(Some("a"), Some(page(1, 2)), None, None).into_iter();
    let Opened::Scrolling { mut scroller, mut feed, mut pump, .. } = opened else { panic!() };
    feed.accept(Ok(response(Some("b"), Some(page(3, 4)), None, None)));
    feed.accept(Ok(response(Some("c"), Some(page(5, 5)), None, None)));
    feed.accept(failure());
    pump.run();
    for ctid in 1..=5 {
        assert_eq!(scroller.next().map(|row| row.1), Some(ctid));
    }
    assert_eq!(scroller.next(), None);
    assert!(!pump.pump());
}

#[test]
fn run_ends_when_nobody_takes_rows() {
    let opened = response(Some("a"), Some(page(1, 2)), None, None).into_iter();
    let Opened::Scrolling { scroller, feed, mut pump, .. } = opened else { panic!() };
    drop(scroller);
    pump.run();
    assert!(!pump.pump());
    drop(feed);
}

#[test]
fn rows_come_while_the_search_goes_on() {
    let opened = response(Some("a"), Some(page(1, 3)), Some(4), Some(1)).into_iter();
    let Opened::Scrolling { scroller, mut feed, mut pump, limit, offset } = opened else {
        panic!()
    };
    assert!(pump.pump());
    let mut walk = SearchResponseIntoIter::fast_forward(scroller, limit, offset);
    assert_eq!(walk.next().map(|row| row.1), Some(2));
    assert_eq!(walk.next().map(|row| row.1), Some(3));
    feed.accept(Ok(response(Some("b"), Some(page(4, 6)), None, None)));
    assert!(pump.pump());
    assert_eq!(walk.next().map(|row| row.1), Some(4));
    assert_eq!(walk.next().map(|row| row.1), Some(5));
    assert_eq!(walk.next(), None);
    assert!(feed.next_request().is_some());
}

#[test]
fn limit_leaves_the_rest_unread() {
    let (scroller, feed, mut pump) = Scroller::new(index(), None, page(1, 3));
    assert!(pump.pump());
    let mut walk = SearchResponseIntoIter::fast_forward(scroller, Some(1), Some(1));
    assert_eq!(walk.next().map(|row: Row| row.1), Some(2));
    // the sending end is still there: a walk that asked it for a row would wait
    assert_eq!(walk.next(), None);
    assert_eq!(walk.next(), None);
    drop((feed, pump));
}

#[test]
fn missing_score_is_zero() {
    let mut bare = hit(7);
    bare.score = None;
    let (score, ctid) = bare.row();
    assert_eq!(f64::from_bits(score.bits), 0.0);
    assert_eq!(score, Score { bits: 0 });
    assert_eq!(ctid, 7);
    assert_eq!(f64::from_bits(hit(8).row().0.bits), 1.5);
}

#[test]
fn reading_replies() {
    let step = read_reply(Ok(response(Some("b"), Some(page(1, 2)), None, None)));
    assert_eq!(step.hits.unwrap().len(), 2);
    assert_eq!(step.scroll_id, Some(String::from("b")));

    let step = read_reply(Ok(response(Some("b"), None, None, None)));
    assert!(step.hits.is_none());
    assert!(step.scroll_id.is_none());

    let step = read_reply(failure());
    assert!(step.hits.is_none());
    assert!(step.scroll_id.is_none());
}

#[test]
fn messages_keep_their_order() {
    let (mut sender, mut receiver) = new_row_channel();
    let rows: Vec<Row> = vec![(Score { bits: 3 }, 4), (Score { bits: 0 }, 1), (Score { bits: 3 }, 4)];
    for row in &rows {
        assert!(sender.offer(*row));
    }
    assert!(sender.is_open());
    sender.close();
    assert!(!sender.is_open());
    for row in rows {
        assert_eq!(receiver.receive(), Some(row));
    }
    assert_eq!(receiver.receive(), None);
    assert_eq!(receiver.receive(), None);

    let (mut sender, mut receiver) = new_page_channel();
    assert!(sender.offer(page(1, 2)));
    assert!(sender.offer(vec![]));
    sender.close();
    assert_eq!(receiver.receive().unwrap()[1].row().1, 2);
    assert!(receiver.receive().unwrap().is_empty());
    assert!(receiver.receive().is_none());
}

#[test]
fn messages_are_refused_without_a_receiver() {
    let (mut sender, receiver) = new_row_channel();
    drop(receiver);
    assert!(!sender.offer((Score { bits: 0 }, 1)));

    let (mut sender, receiver) = new_page_channel();
    drop(receiver);
    assert!(!sender.offer(page(1, 2)));
}

#[test]
fn one_page_without_a_scroll_id() {
    let mut hits = vec![hit(3), hit(1), hit(2)];
    hits[1].score = None;
    let (mut scroller, feed, mut pump) = Scroller::new(index(), None, hits);
    assert!(feed.next_request().is_none());
    assert!(pump.pump());
    assert!(!pump.pump());
    let bits = 1.5f64.to_bits();
    assert_eq!(scroller.next(), Some((Score { bits }, 3)));
    assert_eq!(scroller.next(), Some((Score { bits: 0 }, 1)));
    assert_eq!(scroller.next(), Some((Score { bits }, 2)));
    assert_eq!(scroller.next(), None);
}

#[test]
fn ended_parties_close_their_channels() {
    let (mut scroller, mut feed, mut pump) =
        Scroller::new(index(), Some(String::from("a")), vec![]);
    assert!(feed.accept(Ok(response(Some("b"), Some(vec![]), None, None))));
    assert!(feed.accept(Ok(response(None, Some(page(7, 7)), None, None))));
    // the first page, the two that followed, and the answer that there are no more
    assert!(pump.pump());
    assert!(pump.pump());
    assert!(pump.pump());
    assert!(!pump.pump());
    assert!(!pump.pump());
    assert_eq!(scroller.next().map(|row: Row| row.1), Some(7));
    assert_eq!(scroller.next(), None);
}

#[test]
fn offsets_add_up_and_limits_nest() {
    let rows = |limit, offset| walk(response(None, Some(page(1, 9)), limit, offset), vec![]);
    let all = rows(None, Some(2));
    assert_eq!(rows(None, Some(5)), all[3..].to_vec());
    assert_eq!(rows(Some(2), Some(5)), rows(Some(5), Some(2))[3..].to_vec());
    assert_eq!(rows(Some(4), Some(2)), all[..4].to_vec());
    assert_eq!(rows(Some(7), Some(2)), all);
    assert_eq!(rows(Some(8), Some(2)), all);
}

#[test]
fn empty_walk() {
    assert_eq!(SearchResponseIntoIter::empty().next(), None);
}
