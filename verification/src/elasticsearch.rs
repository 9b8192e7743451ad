//! What a search needs to know of the cluster and of the query.

use vstd::prelude::*;

verus! {

/// How the cluster is reached.
#[derive(Debug)]
pub struct ElasticsearchOptions {
    /// The address of the cluster, with the slash at its end.
    pub url: String,
}

/// An index of a cluster.
#[derive(Debug)]
pub struct Elasticsearch {
    pub options: ElasticsearchOptions,
    /// The address of the index, without a slash at its end.
    pub base_url: String,
}

impl Clone for Elasticsearch {
    fn clone(&self) -> (copy: Self)
        ensures
            copy == *self,
    {
        Elasticsearch {
            options: ElasticsearchOptions { url: self.options.url.clone() },
            base_url: self.base_url.clone(),
        }
    }
}

/// Why a request failed: the status of the reply, if there was one, and what it said.
#[derive(Debug)]
pub struct ElasticsearchError(pub Option<u16>, pub String);

/// A query, with what shapes its answer.
#[derive(Debug)]
pub struct ZDBQuery {
    /// Whether the caller asks for scores.
    pub want_score: bool,
    /// How many rows to return at most.
    pub limit: Option<u64>,
    /// How many rows to pass over first.
    pub offset: Option<u64>,
    /// The least score a row may have: a JSON number.
    pub min_score: Option<serde_json::Value>,
    /// The order of the rows, in the form that Elasticsearch takes it.
    pub sort_json: Option<serde_json::Value>,
    /// What the rows must match.
    pub query_dsl: Option<serde_json::Value>,
}

} // verus!
