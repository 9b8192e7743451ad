//! Searching an Elasticsearch index and walking the rows that match.

pub mod calls;
pub mod channel;
pub mod decimal;
pub mod elasticsearch;
pub mod json;
pub mod laws;
pub mod request;
pub mod response;
pub mod rows;
pub mod scroll;
