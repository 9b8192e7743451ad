//! What Elasticsearch replies to a search.

use std::collections::HashMap;

use vstd::prelude::*;

use crate::elasticsearch::Elasticsearch;

verus! {

/// How well a row matches, as the bits of an IEEE 754 double.
#[derive(Debug, Clone, Copy, PartialEq, Eq, Structural)]
pub struct Score {
    pub bits: u64,
}

/// A row that matches: its score and the place of the row in its table.
pub type Row = (Score, u64);

/// How many shards took part in the search, and how they fared.
#[derive(Debug)]
pub struct Shards {
    pub total: Option<u64>,
    pub successful: Option<u64>,
    pub skipped: Option<u64>,
    pub failed: Option<u64>,
}

/// How many documents match.
#[derive(Debug)]
pub struct HitsTotal {
    pub value: u64,
    pub relation: String,
}

/// The fields of a hit.
#[derive(Debug)]
pub struct Fields {
    pub zdb_ctid: [u64; 1],
    pub other: HashMap<String, serde_json::Value>,
}

/// A document that matches.
#[derive(Debug)]
pub struct InnerHit {
    pub index: Option<String>,
    pub type_: Option<String>,
    pub score: Option<Score>,
    pub id: Option<String>,
    pub fields: Fields,
}

/// The documents of one reply.
#[derive(Debug)]
pub struct Hits {
    pub total: HitsTotal,
    pub max_score: Option<Score>,
    pub hits: Option<Vec<InnerHit>>,
}

/// A reply to a search, with what is needed to go on from it.
#[derive(Debug)]
pub struct ElasticsearchSearchResponse {
    /// Where to ask for more. `None` where there is nothing to ask for.
    pub elasticsearch: Option<Elasticsearch>,
    pub limit: Option<u64>,
    pub offset: Option<u64>,
    /// By which Elasticsearch knows the search again.
    pub scroll_id: Option<String>,
    pub shards: Option<Shards>,
    pub hits: Option<Hits>,
}

/// The row of a hit. A hit without a score has the score zero.
pub open spec fn row_of(hit: InnerHit) -> Row {
    (
        match hit.score {
            Some(score) => score,
            None => Score { bits: 0 },
        },
        hit.fields.zdb_ctid@[0],
    )
}

/// The rows of hits, in their order.
pub open spec fn rows_of_page(hits: Seq<InnerHit>) -> Seq<Row> {
    Seq::new(hits.len(), |i: int| row_of(hits[i]))
}

/// The rows of the hits of several pages, in their order.
pub open spec fn rows_of_pages(pages: Seq<Seq<InnerHit>>) -> Seq<Row>
    decreases pages.len(),
{
    if pages.len() == 0 {
        Seq::empty()
    } else {
        rows_of_pages(pages.drop_last()) + rows_of_page(pages.last())
    }
}

impl InnerHit {
    /// The row of this hit. Where there is no score, it is zero.
    pub fn row(&self) -> (row: Row)
        ensures
            row == row_of(*self),
    {
        let score = match self.score {
            Some(score) => score,
            None => Score { bits: 0 },
        };
        (score, self.fields.zdb_ctid[0])
    }
}

} // verus!
