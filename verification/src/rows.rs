//! Walking the rows of a response, within its offset and its limit.

use vstd::prelude::*;

use crate::channel::Inlet;
use crate::response::{ElasticsearchSearchResponse, InnerHit, Row};
use crate::scroll::{parties_to, HitPump, ScrollFeed, Scroller};

verus! {

/// Walks the rows of a response, up to its limit.
pub struct SearchResponseIntoIter {
    scroller: Option<Scroller>,
    limit: Option<u64>,
    cnt: u64,
}

/// Where a walk stands.
pub struct WalkState {
    /// Where the rows come from, if there are any.
    pub rows: Option<Inlet<Row>>,
    /// How many rows to return at most.
    pub limit: Option<u64>,
    /// How often a row was asked for and the limit was not reached.
    pub cnt: nat,
}

/// What it takes to walk the rows of a response.
pub enum Opened {
    /// There are no rows.
    Empty(SearchResponseIntoIter),
    /// The rows come from `scroller`, as long as somebody runs `feed` and `pump`.
    Scrolling {
        scroller: Scroller,
        feed: ScrollFeed,
        pump: HitPump,
        limit: Option<u64>,
        offset: Option<u64>,
    },
}

impl View for SearchResponseIntoIter {
    type V = WalkState;

    closed spec fn view(&self) -> WalkState {
        WalkState {
            rows: match self.scroller {
                Some(scroller) => Some(scroller@),
                None => None,
            },
            limit: self.limit,
            cnt: self.cnt as nat,
        }
    }
}

impl WalkState {
    /// Every walk is so.
    pub open spec fn wf(self) -> bool {
        &&& self.limit matches Some(limit) ==> self.cnt <= limit
        &&& self.rows is None ==> self.limit == Some(0u64)
    }

    /// Whether the limit has been reached.
    pub open spec fn at_limit(self) -> bool {
        self.limit matches Some(limit) && self.cnt >= limit
    }

    /// Whether the walk can still count a row. A walk with a limit always can.
    pub open spec fn can_count(self) -> bool {
        self.limit is None ==> self.cnt < u64::MAX
    }

    /// What the walk returns next: at the limit nothing; before it what comes next.
    pub open spec fn upcoming(self) -> Option<Row> {
        if self.at_limit() {
            None
        } else {
            self.rows->0.upcoming()
        }
    }

    /// The walk after that.
    pub open spec fn advance(self) -> WalkState {
        if self.at_limit() {
            self
        } else {
            WalkState {
                rows: Some(self.rows->0.advance()),
                limit: self.limit,
                cnt: self.cnt + 1,
            }
        }
    }
}

/// A walk over no rows.
pub open spec fn no_walk() -> WalkState {
    WalkState { rows: None, limit: Some(0), cnt: 0 }
}

/// How often to ask for a row in order to pass over `offset` of `len` rows: as often, or
/// until it is clear that there are fewer.
pub open spec fn asks_to_pass(len: nat, offset: nat) -> nat {
    if offset <= len {
        offset
    } else {
        len + 1
    }
}

/// The walk over the rows of `scroller` after the first `offset` of them, up to `limit`.
pub open spec fn walk_from(scroller: Inlet<Row>, limit: Option<u64>, offset: nat) -> WalkState {
    WalkState {
        rows: Some(Inlet { taken: asks_to_pass(scroller.stream.len(), offset), ..scroller }),
        limit,
        cnt: 0,
    }
}

/// How many rows an offset passes over.
pub open spec fn offset_or_zero(offset: Option<u64>) -> nat {
    match offset {
        Some(n) => n as nat,
        None => 0,
    }
}

/// The page of hits that a response holds, which may be empty.
pub open spec fn first_page(response: ElasticsearchSearchResponse) -> Seq<InnerHit> {
    match response.hits->0.hits {
        Some(hits) => hits@,
        None => Seq::empty(),
    }
}

/// `opened` is what it takes to walk the rows of `response`.
pub open spec fn opens(response: ElasticsearchSearchResponse, opened: Opened) -> bool {
    match response.elasticsearch {
        None => {
            &&& opened matches Opened::Empty(walk)
            &&& walk@ == no_walk()
        },
        Some(elasticsearch) => {
            &&& opened matches Opened::Scrolling { scroller, feed, pump, limit, offset }
            &&& parties_to(
                scroller@,
                feed@,
                pump@,
                elasticsearch,
                response.scroll_id,
                first_page(response),
            )
            &&& limit == response.limit
            &&& offset == response.offset
        },
    }
}

impl ElasticsearchSearchResponse {
    /// What it takes to walk the rows of this response. One that came from Elasticsearch has
    /// hits to begin with.
    pub fn into_iter(self) -> (opened: Opened)
        requires
            self.elasticsearch is Some ==> self.hits is Some,
        ensures
            opens(self, opened),
    {
        match self.elasticsearch {
            None => Opened::Empty(SearchResponseIntoIter::empty()),
            Some(elasticsearch) => {
                let hits = match self.hits.unwrap().hits {
                    Some(hits) => hits,
                    None => Vec::new(),
                };
                let (scroller, feed, pump) = Scroller::new(elasticsearch, self.scroll_id, hits);
                Opened::Scrolling {
                    scroller,
                    feed,
                    pump,
                    limit: self.limit,
                    offset: self.offset,
                }
            },
        }
    }
}

impl SearchResponseIntoIter {
    /// A walk over no rows.
    pub fn empty() -> (walk: Self)
        ensures
            walk@ == no_walk(),
    {
        SearchResponseIntoIter { scroller: None, limit: Some(0), cnt: 0 }
    }

    /// A walk over the rows of `scroller`, after the first `offset` of them. Waits until
    /// these have come, or until it is clear that there are fewer.
    pub fn fast_forward(scroller: Scroller, limit: Option<u64>, offset: Option<u64>) -> (walk: Self)
        requires
            scroller@.taken == 0,
        ensures
            walk@ == walk_from(scroller@, limit, offset_or_zero(offset)),
            walk@.rows->0.taken <= walk@.rows->0.asked,
            walk@.wf(),
    {
        let ghost rows = scroller@.stream;
        let mut scroller = scroller;
        let count: u64 = match offset {
            Some(count) => count,
            None => 0,
        };
        let mut passed: u64 = 0;
        let mut more: bool = true;
        let ghost start = scroller@;
        while more && passed < count
            invariant
                passed <= count,
                start.taken == 0,
                rows == start.stream,
                scroller@ == (Inlet { taken: passed as nat, ..start }),
                passed <= start.asked,
                more ==> passed <= rows.len(),
                !more ==> passed == rows.len() + 1,
            decreases count - passed,
        {
            more = scroller.next().is_some();
            passed += 1;
        }
        SearchResponseIntoIter { scroller: Some(scroller), limit, cnt: 0 }
    }

    /// The next row. Waits until there is one; `None` where none is left, or where the limit
    /// has been reached.
    pub fn next(&mut self) -> (row: Option<Row>)
        requires
            old(self)@.wf(),
            old(self)@.can_count(),
        ensures
            row == old(self)@.upcoming(),
            final(self)@ == old(self)@.advance(),
            !old(self)@.at_limit() ==> final(self)@.rows->0.taken <= final(self)@.rows->0.asked,
            final(self)@.wf(),
    {
        if let Some(limit) = self.limit {
            if self.cnt >= limit {
                return None;
            }
        }
        let row = match &mut self.scroller {
            Some(scroller) => scroller.next(),
            None => None,
        };
        self.cnt = self.cnt + 1;
        row
    }
}

} // verus!
