//! Fetching the pages of a search, and handing on their rows.
//!
//! The pages come from Elasticsearch one by one. A `ScrollFeed` asks for them and puts them
//! into a channel, a `HitPump` takes them out and puts their rows into a second channel, and
//! a `Scroller` takes out the rows. Each is meant for a thread of its own.

use vstd::prelude::*;

use crate::channel::{
    all_queued, joined, new_page_channel, new_row_channel, Inlet, Outlet, PageReceiver, PageSender,
    RowReceiver, RowSender,
};
use crate::elasticsearch::{Elasticsearch, ElasticsearchError};
use crate::laws::{law_pump_ends, pump_run};
use crate::request::{posts_scroll, ElasticsearchSearchRequest, SearchPost};
use crate::response::{rows_of_page, rows_of_pages, ElasticsearchSearchResponse, InnerHit, Row};

verus! {

/// What a request to continue a search comes to.
pub type Reply = Result<ElasticsearchSearchResponse, ElasticsearchError>;

/// What a reply says: the page it holds, and by which id the search goes on.
pub struct ScrollStep {
    /// The hits, unless the search is over.
    pub hits: Option<Vec<InnerHit>>,
    /// By which id to ask for the next page, if there is one to ask for.
    pub scroll_id: Option<String>,
}

/// Asks for the pages of a search, after the first, and sends them on.
pub struct ScrollFeed {
    elasticsearch: Elasticsearch,
    scroll_id: Option<String>,
    pages: PageSender,
}

/// Where a feed stands.
pub struct FeedState {
    /// The cluster that is asked.
    pub elasticsearch: Elasticsearch,
    /// By which id to ask for the next page. `None` where the feed has come to its end.
    pub scroll_id: Option<String>,
    /// Where the pages go.
    pub pages: Outlet<Seq<InnerHit>>,
}

/// Sends on the rows of pages, one by one.
pub struct HitPump {
    first: Option<Vec<InnerHit>>,
    pages: PageReceiver,
    rows: RowSender,
}

/// Where a pump stands.
pub struct PumpState {
    /// The first page, until it has been taken.
    pub first: Option<Seq<InnerHit>>,
    /// Where the other pages come from.
    pub pages: Inlet<Seq<InnerHit>>,
    /// Where the rows go.
    pub rows: Outlet<Row>,
}

/// Hands out the rows of a search. Its view is where they come from.
pub struct Scroller {
    receiver: RowReceiver,
}

impl View for ScrollFeed {
    type V = FeedState;

    closed spec fn view(&self) -> FeedState {
        FeedState {
            elasticsearch: self.elasticsearch,
            scroll_id: self.scroll_id,
            pages: self.pages@,
        }
    }
}

impl View for HitPump {
    type V = PumpState;

    closed spec fn view(&self) -> PumpState {
        PumpState {
            first: match self.first {
                Some(hits) => Some(hits@),
                None => None,
            },
            pages: self.pages@,
            rows: self.rows@,
        }
    }
}

impl View for Scroller {
    type V = Inlet<Row>;

    closed spec fn view(&self) -> Inlet<Row> {
        self.receiver@
    }
}

impl FeedState {
    /// Every feed is so: it has closed its channel exactly when it has come to its end.
    pub open spec fn wf(self) -> bool {
        &&& self.pages.wf()
        &&& self.pages.open <==> self.scroll_id is Some
    }
}

impl PumpState {
    /// Every pump is so: once it has closed its channel it has taken its first page.
    pub open spec fn wf(self) -> bool {
        &&& self.rows.wf()
        &&& !self.rows.open ==> self.first is None
    }
}

/// The page that a reply holds, if it holds one.
pub open spec fn page_of(reply: Reply) -> Option<Seq<InnerHit>> {
    match reply {
        Ok(response) => match response.hits {
            Some(hits) => match hits.hits {
                Some(page) => Some(page@),
                None => None,
            },
            None => None,
        },
        Err(_) => None,
    }
}

/// By which id a search goes on after a reply: an error, or a reply without a page, ends it.
pub open spec fn id_after(reply: Reply) -> Option<String> {
    if page_of(reply) is Some {
        reply->Ok_0.scroll_id
    } else {
        None
    }
}

/// Where a feed goes from `pre` by `reply`, where `queued` says whether the page went into
/// the channel. It offers the page once, and goes on by the id of the reply. It comes to its
/// end, and closes the channel, where the reply holds no page, where it holds no id, and where
/// nobody takes the page any more.
pub open spec fn fed(pre: FeedState, reply: Reply, queued: bool) -> FeedState {
    let scroll_id = if queued {
        id_after(reply)
    } else {
        None
    };
    let pages = match page_of(reply) {
        Some(page) => pre.pages.offer(page, queued),
        None => pre.pages,
    };
    FeedState {
        elasticsearch: pre.elasticsearch,
        scroll_id,
        pages: if scroll_id is Some {
            pages
        } else {
            pages.close()
        },
    }
}

/// `rows`, the first `n` of which went into the channel, and the next of which did not.
pub open spec fn offers_until(rows: Seq<Row>, n: int) -> Seq<(Row, bool)> {
    all_queued(rows.take(n)).push((rows[n], false))
}

/// `rows` are offered one by one at `before`, which is then `after`. All go into the channel,
/// where it is still `live`; else they are offered up to the one that does not, and the
/// channel is closed.
pub open spec fn forwards(
    before: Outlet<Row>,
    rows: Seq<Row>,
    after: Outlet<Row>,
    live: bool,
) -> bool {
    if live {
        after == Outlet { offered: before.offered + all_queued(rows), ..before }
    } else {
        exists|n: int|
            0 <= n < rows.len() && after == (Outlet {
                offered: before.offered + #[trigger] offers_until(rows, n),
                open: false,
                ..before
            })
    }
}

/// A pump goes from `pre` to `post`. It takes a page, the first page before any other, and
/// sends its rows. It is `live` as long as there was a page to take and all its rows were
/// sent; then it closes its channel, and does nothing any more.
pub open spec fn pumps(pre: PumpState, post: PumpState, live: bool) -> bool {
    if !pre.rows.open {
        post == pre && !live
    } else {
        &&& post.first is None
        &&& if pre.first is Some {
            post.pages == pre.pages
        } else {
            post.pages == pre.pages.advance() && post.pages.taken <= post.pages.asked
        }
        &&& match next_page(pre) {
            Some(page) => forwards(pre.rows, rows_of_page(page), post.rows, live),
            None => post.rows == pre.rows.close() && !live,
        }
    }
}

/// The page that a pump takes next, if there is one.
pub open spec fn next_page(pump: PumpState) -> Option<Seq<InnerHit>> {
    match pump.first {
        Some(page) => Some(page),
        None => pump.pages.upcoming(),
    }
}

/// A scroller, a feed and a pump that have done nothing yet, and that belong together: they
/// are for the search of `elasticsearch` that goes on by `scroll_id` after the page `first`.
pub open spec fn parties_to(
    scroller: Inlet<Row>,
    feed: FeedState,
    pump: PumpState,
    elasticsearch: Elasticsearch,
    scroll_id: Option<String>,
    first: Seq<InnerHit>,
) -> bool {
    &&& feed.wf()
    &&& feed.elasticsearch == elasticsearch
    &&& feed.scroll_id == scroll_id
    &&& feed.pages.offered == Seq::<(Seq<InnerHit>, bool)>::empty()
    &&& joined(feed.pages, pump.pages)
    &&& pump.wf()
    &&& pump.first == Some(first)
    &&& pump.pages.taken == 0
    &&& pump.rows.offered == Seq::<(Row, bool)>::empty()
    &&& pump.rows.open
    &&& joined(pump.rows, scroller)
    &&& scroller.taken == 0
}

/// What a reply says.
pub fn read_reply(reply: Reply) -> (step: ScrollStep)
    ensures
        step.hits is Some <==> page_of(reply) is Some,
        step.hits is Some ==> step.hits->0@ == page_of(reply)->0,
        step.scroll_id == id_after(reply),
{
    match reply {
        Ok(response) => match response.hits {
            Some(hits) => match hits.hits {
                Some(page) => ScrollStep { hits: Some(page), scroll_id: response.scroll_id },
                None => ScrollStep { hits: None, scroll_id: None },
            },
            None => ScrollStep { hits: None, scroll_id: None },
        },
        Err(_) => ScrollStep { hits: None, scroll_id: None },
    }
}

impl ScrollFeed {
    /// The request for the next page. `None` where the feed has come to its end.
    pub fn next_request(&self) -> (post: Option<SearchPost>)
        ensures
            post is Some <==> self@.scroll_id is Some,
            post is Some ==> posts_scroll(
                post->0,
                self@.elasticsearch,
                self@.scroll_id->0@,
            ),
    {
        match &self.scroll_id {
            Some(scroll_id) => Some(
                ElasticsearchSearchRequest::scroll(self.elasticsearch.clone(), scroll_id),
            ),
            None => None,
        }
    }

    /// Takes the reply to the request for the next page. Returns whether a page was sent on.
    pub fn accept(&mut self, reply: Reply) -> (queued: bool)
        requires
            old(self)@.wf(),
            old(self)@.scroll_id is Some,
        ensures
            queued ==> page_of(reply) is Some,
            final(self)@ == fed(old(self)@, reply, queued),
            final(self)@.wf(),
    {
        let step = read_reply(reply);
        self.scroll_id = None;
        let mut queued: bool = false;
        if let Some(hits) = step.hits {
            queued = self.pages.offer(hits);
            if queued {
                self.scroll_id = step.scroll_id;
            }
        }
        if self.scroll_id.is_none() {
            self.pages.close();
        }
        queued
    }
}

impl HitPump {
    /// Takes the next page and sends its rows. Returns whether there may be more to do:
    /// not once there is no page left, or nobody takes the rows any more.
    pub fn pump(&mut self) -> (live: bool)
        requires
            old(self)@.wf(),
        ensures
            pumps(old(self)@, final(self)@, live),
            final(self)@.wf(),
    {
        if !self.rows.is_open() {
            return false;
        }
        let next = match self.first.take() {
            Some(hits) => Some(hits),
            None => self.pages.receive(),
        };
        match next {
            Some(hits) => self.forward(&hits),
            None => {
                self.rows.close();
                false
            },
        }
    }

    /// Takes the pages, one by one, and sends their rows, until there is no page left or nobody
    /// takes the rows any more. Whoever asks at the other end of the channel gets the rows of
    /// the first page and of the others, in their order, each once, and then the answer that
    /// there are no more.
    pub fn run(&mut self)
        requires
            old(self)@.wf(),
            old(self)@.first is Some,
            old(self)@.pages.taken == 0,
            old(self)@.rows.offered.len() == 0,
            old(self)@.rows.open,
        ensures
            final(self)@.wf(),
            final(self)@.first is None,
            !final(self)@.rows.open,
            final(self)@.rows.stream == old(self)@.rows.stream,
            final(self)@.rows.wanted == old(self)@.rows.wanted,
            forall|pages: Seq<Seq<InnerHit>>| #[trigger]
                old(self)@.pages.supplies(pages) ==> final(self)@.rows.serves(
                    rows_of_page(old(self)@.first->0) + rows_of_pages(pages),
                ),
    {
        let ghost first = self@.first->0;
        let ghost mut states = seq![self@];
        let mut live: bool = true;
        while live
            invariant
                self@.wf(),
                states[0] == old(self)@,
                first == states[0].first->0,
                pump_run(states, first),
                self@.rows.stream == states[0].rows.stream,
                self@.rows.wanted == states[0].rows.wanted,
                self@.pages.asked == states[0].pages.asked,
                live ==> self@ == states.last() && self@.rows.open,
                !live ==> pumps(states.last(), self@, false) && self@.first is None
                    && !self@.rows.open,
                self@.pages.taken <= self@.pages.asked,
            decreases
                (if live {
                    1nat
                } else {
                    0
                }) + (if self@.first is Some {
                    1nat
                } else {
                    0
                }) + (self@.pages.asked - self@.pages.taken),
        {
            live = self.pump();
            proof {
                if live {
                    states = states.push(self@);
                }
            }
        }
        proof {
            assert forall|pages: Seq<Seq<InnerHit>>| #[trigger]
                old(self)@.pages.supplies(pages) implies self@.rows.serves(
                rows_of_page(first) + rows_of_pages(pages),
            ) by {
                law_pump_ends(states, first, pages, self@);
            }
        }
    }

    /// Sends the rows of a page that has been taken. Returns whether all were sent. Where not,
    /// the channel is closed.
    pub fn forward(&mut self, hits: &Vec<InnerHit>) -> (live: bool)
        requires
            old(self)@.wf(),
            old(self)@.first is None,
            old(self)@.rows.open,
        ensures
            final(self)@.first == old(self)@.first,
            final(self)@.pages == old(self)@.pages,
            forwards(old(self)@.rows, rows_of_page(hits@), final(self)@.rows, live),
            final(self)@.wf(),
    {
        let ghost rows = rows_of_page(hits@);
        let ghost before = old(self)@.rows;
        let mut i: usize = 0;
        assert(self@.rows.offered =~= before.offered + all_queued(rows.take(0)));
        while i < hits.len()
            invariant
                i <= hits.len(),
                rows == rows_of_page(hits@),
                before == old(self)@.rows,
                before.open,
                self@.wf(),
                old(self)@.first is None,
                self@.first == old(self)@.first,
                self@.pages == old(self)@.pages,
                self@.rows == (Outlet {
                    offered: before.offered + all_queued(rows.take(i as int)),
                    ..before
                }),
            decreases hits.len() - i,
        {
            let row = hits[i].row();
            assert(row == rows[i as int]);
            if !self.rows.offer(row) {
                assert(self@.rows.offered =~= before.offered + offers_until(rows, i as int));
                self.rows.close();
                return false;
            }
            assert(self@.rows.offered =~= before.offered + all_queued(rows.take(i + 1)));
            i += 1;
        }
        assert(rows.take(hits.len() as int) =~= rows);
        true
    }
}

impl Scroller {
    /// The three parties to a search of `elasticsearch` that goes on by `scroll_id` after
    /// the page `hits`.
    pub fn new(elasticsearch: Elasticsearch, scroll_id: Option<String>, hits: Vec<InnerHit>) -> (
        parties: (Scroller, ScrollFeed, HitPump))
        ensures
            parties_to(
                parties.0@,
                parties.1@,
                parties.2@,
                elasticsearch,
                scroll_id,
                hits@,
            ),
    {
        let (row_sender, row_receiver) = new_row_channel();
        let (mut page_sender, page_receiver) = new_page_channel();
        if scroll_id.is_none() {
            page_sender.close();
        }
        (
            Scroller { receiver: row_receiver },
            ScrollFeed { elasticsearch, scroll_id, pages: page_sender },
            HitPump { first: Some(hits), pages: page_receiver, rows: row_sender },
        )
    }

    /// The next row: the oldest that has not been handed out. Waits until there is one;
    /// `None` where all have been.
    pub fn next(&mut self) -> (row: Option<Row>)
        ensures
            row == old(self)@.upcoming(),
            final(self)@ == old(self)@.advance(),
            final(self)@.taken <= final(self)@.asked,
    {
        self.receiver.receive()
    }
}

} // verus!
