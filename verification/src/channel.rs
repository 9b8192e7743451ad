//! The channels of `crossbeam`, over which pages and rows travel between threads.
//!
//! Each channel here has one sending and one receiving end, and neither is shared. When a
//! message comes rests with the threads at the two ends; what comes after what does not. So
//! a channel is known by its stream, which is all that ever goes into it, in order, and by
//! how often its receiving end is ever asked for a message. An end is known by these two and
//! by the calls that were made on it so far.
//!
//! Both speak of what has gone in, and of how often the end has been asked, by the end of the
//! run of the program. So they are finite, and a loop whose measure is made of them is shown
//! to end only in a run that does.

use vstd::prelude::*;

use crate::response::{InnerHit, Row};

verus! {

/// The sending end of a `crossbeam` channel, opaque to the verifier.
#[verifier::external_type_specification]
#[verifier::external_body]
#[verifier::reject_recursive_types(T)]
pub struct ExSender<T>(crossbeam::channel::Sender<T>);

/// The receiving end of a `crossbeam` channel, opaque to the verifier.
#[verifier::external_type_specification]
#[verifier::external_body]
#[verifier::reject_recursive_types(T)]
pub struct ExReceiver<T>(crossbeam::channel::Receiver<T>);

/// What `recv` returns once the channel is empty and has no sending end left.
#[verifier::external_type_specification]
#[verifier::external_body]
pub struct ExRecvError(crossbeam::channel::RecvError);

/// The pages that ever go into the channel of a sending end, in order.
pub uninterp spec fn pages_into(sender: crossbeam::channel::Sender<Vec<InnerHit>>) -> Seq<
    Seq<InnerHit>,
>;

/// How often the other end of the channel of a sending end is ever asked for a page.
pub uninterp spec fn pages_wanted(sender: crossbeam::channel::Sender<Vec<InnerHit>>) -> nat;

/// The pages offered at a sending end so far, and whether each went into the channel.
pub uninterp spec fn pages_offered(sender: crossbeam::channel::Sender<Vec<InnerHit>>) -> Seq<
    (Seq<InnerHit>, bool),
>;

/// The pages that ever go into the channel of a receiving end, in order.
pub uninterp spec fn pages_from(receiver: crossbeam::channel::Receiver<Vec<InnerHit>>) -> Seq<
    Seq<InnerHit>,
>;

/// How often a receiving end is ever asked for a page.
pub uninterp spec fn pages_asked(receiver: crossbeam::channel::Receiver<Vec<InnerHit>>) -> nat;

/// What came of asking a receiving end for a page so far: a page, or `None` where the channel
/// was closed.
pub uninterp spec fn pages_received(receiver: crossbeam::channel::Receiver<Vec<InnerHit>>) -> Seq<
    Option<Seq<InnerHit>>,
>;

/// The rows that ever go into the channel of a sending end, in order.
pub uninterp spec fn rows_into(sender: crossbeam::channel::Sender<Row>) -> Seq<Row>;

/// How often the other end of the channel of a sending end is ever asked for a row.
pub uninterp spec fn rows_wanted(sender: crossbeam::channel::Sender<Row>) -> nat;

/// The rows offered at a sending end so far, and whether each went into the channel.
pub uninterp spec fn rows_offered(sender: crossbeam::channel::Sender<Row>) -> Seq<(Row, bool)>;

/// The rows that ever go into the channel of a receiving end, in order.
pub uninterp spec fn rows_from(receiver: crossbeam::channel::Receiver<Row>) -> Seq<Row>;

/// How often a receiving end is ever asked for a row.
pub uninterp spec fn rows_asked(receiver: crossbeam::channel::Receiver<Row>) -> nat;

/// What came of asking a receiving end for a row so far: a row, or `None` where the channel
/// was closed.
pub uninterp spec fn rows_received(receiver: crossbeam::channel::Receiver<Row>) -> Seq<Option<Row>>;

/// The item at `i`, if there is one.
pub open spec fn item_at<T>(items: Seq<T>, i: int) -> Option<T> {
    if 0 <= i < items.len() {
        Some(items[i])
    } else {
        None
    }
}

/// The offers of `items`, all of which went into the channel.
pub open spec fn all_queued<T>(items: Seq<T>) -> Seq<(T, bool)> {
    Seq::new(items.len(), |i: int| (items[i], true))
}

/// The items among `offers` that went into the channel.
pub open spec fn queued_items<T>(offers: Seq<(T, bool)>) -> Seq<T>
    decreases offers.len(),
{
    if offers.len() == 0 {
        Seq::empty()
    } else if offers.last().1 {
        queued_items(offers.drop_last()).push(offers.last().0)
    } else {
        queued_items(offers.drop_last())
    }
}

/// Where the sending end of a channel stands.
pub struct Outlet<T> {
    /// All that ever goes into the channel, in order.
    pub stream: Seq<T>,
    /// How often the other end is ever asked for an item.
    pub wanted: nat,
    /// What was offered so far, and whether it went into the channel.
    pub offered: Seq<(T, bool)>,
    /// Whether there may be more to offer.
    pub open: bool,
}

/// Where the receiving end of a channel stands.
pub struct Inlet<T> {
    /// All that ever goes into the channel, in order.
    pub stream: Seq<T>,
    /// How often this end is ever asked for an item.
    pub asked: nat,
    /// How often it has been asked so far.
    pub taken: nat,
}

impl<T> Outlet<T> {
    /// Every sending end is so. The stream begins with what went into the channel; once the
    /// end is closed it is no more than that. Something is refused only where the other end
    /// is asked for no more than what went in before.
    pub open spec fn wf(self) -> bool {
        &&& queued_items(self.offered).is_prefix_of(self.stream)
        &&& !self.open ==> self.stream == queued_items(self.offered)
        &&& self.offered.len() > 0 && !self.offered.last().1 ==> self.wanted <= queued_items(
            self.offered,
        ).len()
    }

    /// This end after the offer of `item`.
    pub open spec fn offer(self, item: T, queued: bool) -> Self {
        Outlet { offered: self.offered.push((item, queued)), ..self }
    }

    /// This end, closed.
    pub open spec fn close(self) -> Self {
        Outlet { open: false, ..self }
    }

    /// Whoever asks at the other end gets `items`, in order, and then the answer that there
    /// are no more.
    pub open spec fn serves(self, items: Seq<T>) -> bool {
        forall|k: int|
            0 <= k < self.wanted ==> #[trigger] item_at(self.stream, k) == item_at(items, k)
    }
}

impl<T> Inlet<T> {
    /// Asking at this end gives `items`, in order, and then the answer that there are no
    /// more.
    pub open spec fn supplies(self, items: Seq<T>) -> bool {
        forall|k: int|
            0 <= k < self.asked ==> #[trigger] item_at(self.stream, k) == item_at(items, k)
    }

    /// What asking this end comes to next.
    pub open spec fn upcoming(self) -> Option<T> {
        item_at(self.stream, self.taken as int)
    }

    /// This end, asked once more.
    pub open spec fn advance(self) -> Self {
        Inlet { taken: self.taken + 1, ..self }
    }
}

/// Two ends belong to the same channel.
pub open spec fn joined<T>(outlet: Outlet<T>, inlet: Inlet<T>) -> bool {
    &&& outlet.stream == inlet.stream
    &&& outlet.wanted == inlet.asked
}

/// `crossbeam::channel::unbounded` makes a channel that never refuses a page for want of
/// room, and hands out its two ends, on which no call was made yet.
#[verifier::external_body]
fn page_channel() -> (ends: (
    crossbeam::channel::Sender<Vec<InnerHit>>,
    crossbeam::channel::Receiver<Vec<InnerHit>>,
))
    ensures
        pages_into(ends.0) == pages_from(ends.1),
        pages_wanted(ends.0) == pages_asked(ends.1),
        pages_offered(ends.0).len() == 0,
        pages_received(ends.1).len() == 0,
{
    crossbeam::channel::unbounded()
}

/// `crossbeam::channel::unbounded` makes a channel that never refuses a row for want of
/// room, and hands out its two ends, on which no call was made yet.
#[verifier::external_body]
fn row_channel() -> (ends: (crossbeam::channel::Sender<Row>, crossbeam::channel::Receiver<Row>))
    ensures
        rows_into(ends.0) == rows_from(ends.1),
        rows_wanted(ends.0) == rows_asked(ends.1),
        rows_offered(ends.0).len() == 0,
        rows_received(ends.1).len() == 0,
{
    crossbeam::channel::unbounded()
}

/// `crossbeam::channel::Sender::send` puts a page into the channel, behind those that went in
/// before, or hands it back where the receiving end is gone. Then that end was asked for no
/// more than went in: it never found the channel closed, with this sending end still there.
/// Whether it is gone rests with the thread that holds it: this is not stated.
#[verifier::external_body]
fn offer_page(
    sender: &mut crossbeam::channel::Sender<Vec<InnerHit>>,
    page: Vec<InnerHit>,
) -> (queued: Result<(), Vec<InnerHit>>)
    ensures
        pages_into(*final(sender)) == pages_into(*old(sender)),
        pages_wanted(*final(sender)) == pages_wanted(*old(sender)),
        pages_offered(*final(sender)) == pages_offered(*old(sender)).push((page@, queued is Ok)),
        queued is Ok ==> item_at(
            pages_into(*old(sender)),
            queued_items(pages_offered(*old(sender))).len() as int,
        ) == Some(page@),
        queued is Err ==> pages_wanted(*old(sender)) <= queued_items(
            pages_offered(*old(sender)),
        ).len(),
        queued matches Err(returned) ==> returned == page,
{
    sender.send(page).map_err(|refused| refused.into_inner())
}

/// `crossbeam::channel::Sender::send` puts a row into the channel, behind those that went in
/// before, or hands it back where the receiving end is gone. Then that end was asked for no
/// more than went in: it never found the channel closed, with this sending end still there.
/// Whether it is gone rests with the thread that holds it: this is not stated.
#[verifier::external_body]
fn offer_row(sender: &mut crossbeam::channel::Sender<Row>, row: Row) -> (queued: Result<(), Row>)
    ensures
        rows_into(*final(sender)) == rows_into(*old(sender)),
        rows_wanted(*final(sender)) == rows_wanted(*old(sender)),
        rows_offered(*final(sender)) == rows_offered(*old(sender)).push((row, queued is Ok)),
        queued is Ok ==> item_at(
            rows_into(*old(sender)),
            queued_items(rows_offered(*old(sender))).len() as int,
        ) == Some(row),
        queued is Err ==> rows_wanted(*old(sender)) <= queued_items(
            rows_offered(*old(sender)),
        ).len(),
        queued matches Err(returned) ==> returned == row,
{
    sender.send(row).map_err(|refused| refused.into_inner())
}

/// Dropping a `crossbeam::channel::Sender`, the only one of its channel: nothing goes into
/// the channel after that.
#[verifier::external_body]
fn drop_page_sender(end: &mut Option<crossbeam::channel::Sender<Vec<InnerHit>>>)
    ensures
        *final(end) is None,
        *old(end) matches Some(sender) ==> pages_into(sender) == queued_items(
            pages_offered(sender),
        ),
{
    *end = None;
}

/// Dropping a `crossbeam::channel::Sender`, the only one of its channel: nothing goes into
/// the channel after that.
#[verifier::external_body]
fn drop_row_sender(end: &mut Option<crossbeam::channel::Sender<Row>>)
    ensures
        *final(end) is None,
        *old(end) matches Some(sender) ==> rows_into(sender) == queued_items(rows_offered(sender)),
{
    *end = None;
}

/// `crossbeam::channel::Receiver::recv` takes the oldest page out of the channel. It waits
/// for one, and gives up once the channel is empty and its sending end is gone: then nothing
/// more goes in.
#[verifier::external_body]
fn receive_page(receiver: &mut crossbeam::channel::Receiver<Vec<InnerHit>>) -> (message: Result<
    Vec<InnerHit>,
    crossbeam::channel::RecvError,
>)
    ensures
        pages_from(*final(receiver)) == pages_from(*old(receiver)),
        pages_asked(*final(receiver)) == pages_asked(*old(receiver)),
        pages_received(*final(receiver)) == pages_received(*old(receiver)).push(
            match message {
                Ok(page) => Some(page@),
                Err(_) => None,
            },
        ),
        pages_received(*final(receiver)).len() <= pages_asked(*old(receiver)),
        pages_received(*final(receiver)).last() == item_at(
            pages_from(*old(receiver)),
            pages_received(*old(receiver)).len() as int,
        ),
{
    receiver.recv()
}

/// `crossbeam::channel::Receiver::recv` takes the oldest row out of the channel. It waits
/// for one, and gives up once the channel is empty and its sending end is gone: then nothing
/// more goes in.
#[verifier::external_body]
fn receive_row(receiver: &mut crossbeam::channel::Receiver<Row>) -> (message: Result<
    Row,
    crossbeam::channel::RecvError,
>)
    ensures
        rows_from(*final(receiver)) == rows_from(*old(receiver)),
        rows_asked(*final(receiver)) == rows_asked(*old(receiver)),
        rows_received(*final(receiver)) == rows_received(*old(receiver)).push(
            match message {
                Ok(row) => Some(row),
                Err(_) => None,
            },
        ),
        rows_received(*final(receiver)).len() <= rows_asked(*old(receiver)),
        rows_received(*final(receiver)).last() == item_at(
            rows_from(*old(receiver)),
            rows_received(*old(receiver)).len() as int,
        ),
{
    receiver.recv()
}

/// The sending end of a channel of pages.
pub struct PageSender {
    end: Option<crossbeam::channel::Sender<Vec<InnerHit>>>,
    past: Ghost<Outlet<Seq<InnerHit>>>,
}

/// The receiving end of a channel of pages.
pub struct PageReceiver {
    end: crossbeam::channel::Receiver<Vec<InnerHit>>,
}

/// The sending end of a channel of rows.
pub struct RowSender {
    end: Option<crossbeam::channel::Sender<Row>>,
    past: Ghost<Outlet<Row>>,
}

/// The receiving end of a channel of rows.
pub struct RowReceiver {
    end: crossbeam::channel::Receiver<Row>,
}

impl View for PageSender {
    type V = Outlet<Seq<InnerHit>>;

    closed spec fn view(&self) -> Outlet<Seq<InnerHit>> {
        match self.end {
            Some(sender) => Outlet {
                stream: pages_into(sender),
                wanted: pages_wanted(sender),
                offered: pages_offered(sender),
                open: true,
            },
            None => self.past@.close(),
        }
    }
}

impl View for PageReceiver {
    type V = Inlet<Seq<InnerHit>>;

    closed spec fn view(&self) -> Inlet<Seq<InnerHit>> {
        Inlet {
            stream: pages_from(self.end),
            asked: pages_asked(self.end),
            taken: pages_received(self.end).len(),
        }
    }
}

impl View for RowSender {
    type V = Outlet<Row>;

    closed spec fn view(&self) -> Outlet<Row> {
        match self.end {
            Some(sender) => Outlet {
                stream: rows_into(sender),
                wanted: rows_wanted(sender),
                offered: rows_offered(sender),
                open: true,
            },
            None => self.past@.close(),
        }
    }
}

impl View for RowReceiver {
    type V = Inlet<Row>;

    closed spec fn view(&self) -> Inlet<Row> {
        Inlet {
            stream: rows_from(self.end),
            asked: rows_asked(self.end),
            taken: rows_received(self.end).len(),
        }
    }
}

/// Offering an item keeps a sending end as every one is.
proof fn lemma_offer<T>(outlet: Outlet<T>, item: T, queued: bool)
    requires
        outlet.wf(),
        outlet.open,
        queued ==> item_at(outlet.stream, queued_items(outlet.offered).len() as int) == Some(item),
        !queued ==> outlet.wanted <= queued_items(outlet.offered).len(),
    ensures
        outlet.offer(item, queued).wf(),
{
    assert(outlet.offered.push((item, queued)).drop_last() =~= outlet.offered);
}

impl PageSender {
    /// Offers a page to the other end. Returns whether it went into the channel: it does not
    /// where the other end is gone.
    pub fn offer(&mut self, page: Vec<InnerHit>) -> (queued: bool)
        requires
            old(self)@.wf(),
            old(self)@.open,
        ensures
            final(self)@ == old(self)@.offer(page@, queued),
            final(self)@.wf(),
    {
        let ghost item = page@;
        let queued = match &mut self.end {
            Some(sender) => offer_page(sender, page).is_ok(),
            None => false,
        };
        proof {
            lemma_offer(old(self)@, item, queued);
        }
        queued
    }

    /// Closes the channel: nothing more goes into it.
    pub fn close(&mut self)
        requires
            old(self)@.wf(),
        ensures
            final(self)@ == old(self)@.close(),
            final(self)@.wf(),
    {
        self.past = Ghost(self@);
        drop_page_sender(&mut self.end);
    }
}

impl PageReceiver {
    /// The next page. Waits until there is one; `None` where none is left.
    pub fn receive(&mut self) -> (page: Option<Vec<InnerHit>>)
        ensures
            final(self)@ == old(self)@.advance(),
            final(self)@.taken <= final(self)@.asked,
            match page {
                Some(hits) => old(self)@.upcoming() == Some(hits@),
                None => old(self)@.upcoming() is None,
            },
    {
        match receive_page(&mut self.end) {
            Ok(page) => Some(page),
            Err(_) => None,
        }
    }
}

impl RowSender {
    /// Whether the channel has not been closed.
    pub fn is_open(&self) -> (open: bool)
        ensures
            open == self@.open,
    {
        self.end.is_some()
    }

    /// Offers a row to the other end. Returns whether it went into the channel: it does not
    /// where the other end is gone.
    pub fn offer(&mut self, row: Row) -> (queued: bool)
        requires
            old(self)@.wf(),
            old(self)@.open,
        ensures
            final(self)@ == old(self)@.offer(row, queued),
            final(self)@.wf(),
    {
        let queued = match &mut self.end {
            Some(sender) => offer_row(sender, row).is_ok(),
            None => false,
        };
        proof {
            lemma_offer(old(self)@, row, queued);
        }
        queued
    }

    /// Closes the channel: nothing more goes into it.
    pub fn close(&mut self)
        requires
            old(self)@.wf(),
        ensures
            final(self)@ == old(self)@.close(),
            final(self)@.wf(),
    {
        self.past = Ghost(self@);
        drop_row_sender(&mut self.end);
    }
}

impl RowReceiver {
    /// The next row. Waits until there is one; `None` where none is left.
    pub fn receive(&mut self) -> (row: Option<Row>)
        ensures
            final(self)@ == old(self)@.advance(),
            final(self)@.taken <= final(self)@.asked,
            row == old(self)@.upcoming(),
    {
        match receive_row(&mut self.end) {
            Ok(row) => Some(row),
            Err(_) => None,
        }
    }
}

/// The two ends of a new channel of pages.
pub fn new_page_channel() -> (ends: (PageSender, PageReceiver))
    ensures
        joined(ends.0@, ends.1@),
        ends.0@.wf(),
        ends.0@.open,
        ends.0@.offered == Seq::<(Seq<InnerHit>, bool)>::empty(),
        ends.1@.taken == 0,
{
    let (sender, receiver) = page_channel();
    let ends = (
        PageSender {
            end: Some(sender),
            past: Ghost(
                Outlet { stream: Seq::empty(), wanted: 0, offered: Seq::empty(), open: false },
            ),
        },
        PageReceiver { end: receiver },
    );
    assert(ends.0@.offered =~= Seq::empty());
    ends
}

/// The two ends of a new channel of rows.
pub fn new_row_channel() -> (ends: (RowSender, RowReceiver))
    ensures
        joined(ends.0@, ends.1@),
        ends.0@.wf(),
        ends.0@.open,
        ends.0@.offered == Seq::<(Row, bool)>::empty(),
        ends.1@.taken == 0,
{
    let (sender, receiver) = row_channel();
    let ends = (
        RowSender {
            end: Some(sender),
            past: Ghost(
                Outlet { stream: Seq::empty(), wanted: 0, offered: Seq::empty(), open: false },
            ),
        },
        RowReceiver { end: receiver },
    );
    assert(ends.0@.offered =~= Seq::empty());
    ends
}

} // verus!
