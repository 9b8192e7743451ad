# zdb_search

Puts a query to an Elasticsearch index and walks the rows that match, page by page.

- `src/` decides what to send, what to make of a reply, and which rows to return. Its
  functions are proved against their contracts; `src/laws.rs` states what holds of searches
  as a whole.
- `src/json.rs` and `src/channel.rs` hold everything that is taken on trust from `serde_json`
  and `crossbeam`.
- `app/` makes the HTTP requests, reads JSON replies and runs the threads.
