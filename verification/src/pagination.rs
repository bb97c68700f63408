//! Lazy, page-by-page retrieval of a result set.
//!
//! A [`JobIterator`] decides; its caller does the fetching. On each demand
//! for an item, [`JobIterator::next`] hands out a buffered item, asks for the
//! next page, or reports the end. The caller answers a request for a page
//! with [`JobIterator::deliver`]. At no time is more than one page buffered.

use crate::builder::{capped, number_at, SearchOptions, MAX_PAGE_SIZE};
use crate::errors::{Error, ErrorView};
use crate::params::Param;
use crate::text::decimal;
use vstd::prelude::*;

verus! {

/// Page size that is requested where the criteria name none.
pub const DEFAULT_PAGE_SIZE: u64 = 50;

/// The most pages that one iteration requests, whatever the service answers.
pub const MAX_PAGES: u64 = 1000;

/// One page of results as the service sends it.
#[derive(Debug)]
pub struct JobSearchResponse<T> {
    /// The items of the page, in the order of the service.
    pub stellenangebote: Vec<T>,
    /// The size of the whole result set, where the service reports it.
    pub max_ergebnisse: Option<u64>,
    /// The page number that the service echoes.
    pub page: Option<u64>,
    /// The page size that the service echoes.
    pub size: Option<u64>,
    /// Filter metadata, as the text that was received.
    pub facetten: Option<String>,
}

/// Where an iteration stands.
#[derive(Debug, Clone, Copy, PartialEq, Eq, Structural)]
pub enum Phase {
    /// Nothing was requested yet.
    Idle,
    /// A page was requested and has not come in.
    FetchingPage,
    /// A page is buffered.
    Yielding,
    /// The iteration is over.
    Finished,
}

/// What a [`JobIterator`] holds.
pub struct Cursor<T> {
    /// The criteria of the search.
    pub options: Map<Param, Seq<char>>,
    /// The size of the pages that are requested.
    pub page_size: u64,
    /// The number of the page requested last; 0 before the first request.
    pub page: u64,
    /// How many items of the buffered page were handed out.
    pub index: u64,
    /// The items of the buffered page that were not handed out, in the order
    /// of the service.
    pub pending: Seq<T>,
    /// How many items were handed out in all.
    pub total_yielded: u64,
    /// The size of the result set that the first page reported.
    pub max_results: Option<u64>,
    /// Whether a page is requested and has not come in.
    pub awaiting: bool,
    /// Whether the page that came in last is the last one.
    pub last_page: bool,
    /// Whether the iteration is over.
    pub finished: bool,
}

/// What a demand for an item is answered with.
#[derive(Debug)]
pub enum Step<T> {
    /// The next item.
    Item(T),
    /// The next page is needed: fetch it with these criteria and deliver it.
    Fetch(SearchOptions),
    /// There are no more items.
    Done,
}

/// What a [`Step`] holds.
pub enum StepView<T> {
    Item(T),
    Fetch(Map<Param, Seq<char>>),
    Done,
}

impl<T> View for Step<T> {
    type V = StepView<T>;

    open spec fn view(&self) -> StepView<T> {
        match self {
            Step::Item(item) => StepView::Item(*item),
            Step::Fetch(options) => StepView::Fetch(options@),
            Step::Done => StepView::Done,
        }
    }
}

/// What is delivered in answer to a request for a page.
pub enum Delivery<T> {
    /// The page came in, holding these items and reporting this total.
    Page { items: Seq<T>, total: Option<u64> },
    /// The fetch failed.
    Failure(ErrorView),
}

/// `n + 1`, as far as 64 bits count.
pub open spec fn bumped(n: u64) -> u64 {
    if n < u64::MAX {
        (n + 1) as u64
    } else {
        n
    }
}

/// The phase of an iteration.
pub open spec fn phase_of<T>(c: Cursor<T>) -> Phase {
    if c.finished {
        Phase::Finished
    } else if c.awaiting {
        Phase::FetchingPage
    } else if c.page == 0 {
        Phase::Idle
    } else {
        Phase::Yielding
    }
}

/// Whether as many items were handed out as the service said there are.
pub open spec fn total_reached<T>(c: Cursor<T>) -> bool {
    c.max_results matches Some(total) && c.total_yielded >= total
}

/// The criteria with which page `page` is requested.
pub open spec fn page_request<T>(c: Cursor<T>, page: u64) -> Map<Param, Seq<char>> {
    c.options.insert(Param::Page, decimal(page as nat)).insert(
        Param::Size,
        decimal(capped(c.page_size, MAX_PAGE_SIZE) as nat),
    )
}

/// Whether a page of `count` items, requested with `page_size`, is the last one.
pub open spec fn is_last_page(count: nat, page_size: u64) -> bool {
    count < page_size || count == 0
}

/// The state after a demand for an item, and the answer to the demand.
pub open spec fn demand<T>(c: Cursor<T>) -> (Cursor<T>, StepView<T>) {
    if c.finished {
        (c, StepView::Done)
    } else if c.awaiting {
        (c, StepView::Fetch(page_request(c, c.page)))
    } else if total_reached(c) {
        (Cursor { finished: true, pending: Seq::empty(), ..c }, StepView::Done)
    } else if c.pending.len() > 0 {
        (
            Cursor {
                pending: c.pending.drop_first(),
                index: bumped(c.index),
                total_yielded: bumped(c.total_yielded),
                ..c
            },
            StepView::Item(c.pending[0]),
        )
    } else if c.last_page || c.page >= MAX_PAGES {
        (Cursor { finished: true, ..c }, StepView::Done)
    } else {
        (
            Cursor { page: (c.page + 1) as u64, awaiting: true, ..c },
            StepView::Fetch(page_request(c, (c.page + 1) as u64)),
        )
    }
}

/// The state after a delivery.
pub open spec fn delivered<T>(c: Cursor<T>, delivery: Delivery<T>) -> Cursor<T> {
    match delivery {
        Delivery::Failure(_) => Cursor {
            finished: true,
            awaiting: false,
            pending: Seq::empty(),
            ..c
        },
        Delivery::Page { items, total } => if c.finished || !c.awaiting {
            c
        } else {
            Cursor {
                awaiting: false,
                pending: items,
                index: 0,
                max_results: if c.page == 1 {
                    total
                } else {
                    c.max_results
                },
                last_page: is_last_page(items.len(), c.page_size),
                ..c
            }
        },
    }
}

/// What a fetch result delivers.
pub open spec fn delivery_of<T>(result: Result<JobSearchResponse<T>, Error>) -> Delivery<T> {
    match result {
        Ok(response) => Delivery::Page {
            items: response.stellenangebote@,
            total: response.max_ergebnisse,
        },
        Err(error) => Delivery::Failure(error@),
    }
}

/// A lazy sequence of the results of a search.
#[derive(Debug)]
pub struct JobIterator<T> {
    options: SearchOptions,
    page_size: u64,
    current_page: u64,
    current_index: u64,
    /// The buffered items that were not handed out, last one first.
    buffer: Vec<T>,
    total_yielded: u64,
    max_results: Option<u64>,
    awaiting: bool,
    last_page: bool,
    finished: bool,
}

impl<T> View for JobIterator<T> {
    type V = Cursor<T>;

    closed spec fn view(&self) -> Cursor<T> {
        Cursor {
            options: self.options@,
            page_size: self.page_size,
            page: self.current_page,
            index: self.current_index,
            pending: self.buffer@.reverse(),
            total_yielded: self.total_yielded,
            max_results: self.max_results,
            awaiting: self.awaiting,
            last_page: self.last_page,
            finished: self.finished,
        }
    }
}

/// The items of `items`, last one first.
fn reversed<T>(items: Vec<T>) -> (out: Vec<T>)
    ensures
        out@ == items@.reverse(),
{
    let mut items = items;
    let ghost all = items@;
    let mut out: Vec<T> = Vec::new();
    while items.len() > 0
        invariant
            items.len() <= all.len(),
            items@ == all.take(items.len() as int),
            out@ == all.skip(items.len() as int).reverse(),
        decreases items.len(),
    {
        let ghost before = out@;
        let ghost n = items.len() as int;
        let item = items.pop().unwrap();
        out.push(item);
        proof {
            assert(items@ =~= all.take(n - 1));
            assert(all.skip(n - 1).reverse() =~= all.skip(n).reverse().push(all[n - 1]));
        }
    }
    proof {
        assert(all.skip(0) =~= all);
    }
    out
}

impl<T> JobIterator<T> {
    /// An iteration over the results of `options` that has requested nothing
    /// yet. Pages are requested in the size that `options` names, at most the
    /// cap, or in the default size.
    pub fn new(options: SearchOptions) -> (out: JobIterator<T>)
        ensures
            out@ == (Cursor::<T> {
                options: options@,
                page_size: match number_at(options@, Param::Size) {
                    Some(size) => capped(size, MAX_PAGE_SIZE),
                    None => DEFAULT_PAGE_SIZE,
                },
                page: 0,
                index: 0,
                pending: Seq::empty(),
                total_yielded: 0,
                max_results: None,
                awaiting: false,
                last_page: false,
                finished: false,
            }),
            phase_of(out@) == Phase::Idle,
    {
        let page_size = match options.size() {
            Some(size) => if size > MAX_PAGE_SIZE {
                MAX_PAGE_SIZE
            } else {
                size
            },
            None => DEFAULT_PAGE_SIZE,
        };
        let out = JobIterator {
            options,
            page_size,
            current_page: 0,
            current_index: 0,
            buffer: Vec::new(),
            total_yielded: 0,
            max_results: None,
            awaiting: false,
            last_page: false,
            finished: false,
        };
        proof {
            assert(out.buffer@.reverse() =~= Seq::<T>::empty());
        }
        out
    }

    /// The criteria for the request of page `page`.
    fn request(&self, page: u64) -> (out: SearchOptions)
        ensures
            out@ == page_request(self@, page),
    {
        let mut builder = self.options.as_builder();
        builder.page(page);
        builder.size(self.page_size);
        builder.build()
    }

    /// Where the iteration stands.
    pub fn phase(&self) -> (out: Phase)
        ensures
            out == phase_of(self@),
    {
        if self.finished {
            Phase::Finished
        } else if self.awaiting {
            Phase::FetchingPage
        } else if self.current_page == 0 {
            Phase::Idle
        } else {
            Phase::Yielding
        }
    }

    /// How many items were handed out so far.
    pub fn total_yielded(&self) -> (out: u64)
        ensures
            out == self@.total_yielded,
    {
        self.total_yielded
    }

    /// The number of the page that was requested last; 0 before the first request.
    pub fn current_page(&self) -> (out: u64)
        ensures
            out == self@.page,
    {
        self.current_page
    }

    /// How many items of the buffered page were handed out.
    pub fn current_index(&self) -> (out: u64)
        ensures
            out == self@.index,
    {
        self.current_index
    }

    /// The size of the result set that the first page reported, if it did.
    pub fn max_results(&self) -> (out: Option<u64>)
        ensures
            out == self@.max_results,
    {
        self.max_results
    }

    /// Whether the iteration is over.
    pub fn is_finished(&self) -> (out: bool)
        ensures
            out == self@.finished,
    {
        self.finished
    }

    /// How many items are buffered.
    pub fn buffered(&self) -> (out: usize)
        ensures
            out == self@.pending.len(),
    {
        self.buffer.len()
    }

    /// Answers a demand for an item: with the next buffered item, with the
    /// request for the next page, or with the end of the sequence.
    pub fn next(&mut self) -> (out: Step<T>)
        ensures
            final(self)@ == demand(old(self)@).0,
            out@ == demand(old(self)@).1,
    {
        if self.finished {
            return Step::Done;
        }
        if self.awaiting {
            return Step::Fetch(self.request(self.current_page));
        }
        let reached = match self.max_results {
            Some(total) => self.total_yielded >= total,
            None => false,
        };
        if reached {
            self.finished = true;
            self.buffer = Vec::new();
            proof {
                assert(self.buffer@.reverse() =~= Seq::<T>::empty());
            }
            return Step::Done;
        }
        if self.buffer.len() > 0 {
            let ghost before = self.buffer@;
            let item = self.buffer.pop().unwrap();
            if self.current_index < u64::MAX {
                self.current_index = self.current_index + 1;
            }
            if self.total_yielded < u64::MAX {
                self.total_yielded = self.total_yielded + 1;
            }
            proof {
                assert(before.reverse()[0] == item);
                assert(self.buffer@.reverse() =~= before.reverse().drop_first());
            }
            return Step::Item(item);
        }
        if self.last_page || self.current_page >= MAX_PAGES {
            self.finished = true;
            return Step::Done;
        }
        let request = self.request(self.current_page + 1);
        self.current_page = self.current_page + 1;
        self.awaiting = true;
        Step::Fetch(request)
    }

    /// Takes in the answer to a request for a page. A failure ends the
    /// iteration and comes back as it is, to be handed on as the last element
    /// of the sequence. A page that no request is open for is dropped.
    pub fn deliver(&mut self, result: Result<JobSearchResponse<T>, Error>) -> (out: Result<
        (),
        Error,
    >)
        ensures
            final(self)@ == delivered(old(self)@, delivery_of(result)),
            match result {
                Ok(_) => out is Ok,
                Err(error) => out == Err::<(), Error>(error),
            },
    {
        match result {
            Err(error) => {
                self.finished = true;
                self.awaiting = false;
                self.buffer = Vec::new();
                proof {
                    assert(self.buffer@.reverse() =~= Seq::<T>::empty());
                }
                Err(error)
            },
            Ok(response) => {
                if self.finished || !self.awaiting {
                    return Ok(());
                }
                let count = response.stellenangebote.len();
                let ghost items = response.stellenangebote@;
                if self.current_page == 1 {
                    self.max_results = response.max_ergebnisse;
                }
                self.last_page = count == 0 || (count as u64) < self.page_size;
                self.buffer = reversed(response.stellenangebote);
                self.current_index = 0;
                self.awaiting = false;
                proof {
                    assert(self.buffer@.reverse() =~= items);
                }
                Ok(())
            },
        }
    }
}

/// Once an iteration is over it stays over: every demand is answered with
/// the end, and nothing that is delivered brings it back.
pub proof fn lemma_finished_is_final<T>(c: Cursor<T>, delivery: Delivery<T>)
    requires
        c.finished,
    ensures
        demand(c) == (c, StepView::<T>::Done),
        delivered(c, delivery).finished,
        delivery is Page ==> delivered(c, delivery) == c,
{
}

/// A failed fetch ends the iteration at once: the next demand is answered
/// with the end, and no page is requested again.
pub proof fn lemma_failure_ends<T>(c: Cursor<T>, error: ErrorView)
    ensures
        phase_of(delivered(c, Delivery::<T>::Failure(error))) == Phase::Finished,
        demand(delivered(c, Delivery::<T>::Failure(error))).1 == StepView::<T>::Done,
{
}

/// Whether no page will be requested from here on.
pub open spec fn fetching_is_over<T>(c: Cursor<T>) -> bool {
    c.finished || (c.last_page && !c.awaiting)
}

/// A page with fewer items than were asked for, or with none, is the last
/// one that is requested.
pub proof fn lemma_short_page_is_last<T>(c: Cursor<T>, items: Seq<T>, total: Option<u64>)
    requires
        c.awaiting,
        !c.finished,
        is_last_page(items.len(), c.page_size),
    ensures
        fetching_is_over(delivered(c, Delivery::Page { items, total })),
{
}

/// Where fetching is over, no demand is answered with a request, and
/// fetching stays over.
pub proof fn lemma_no_fetch_after_last<T>(c: Cursor<T>)
    requires
        fetching_is_over(c),
    ensures
        !(demand(c).1 is Fetch),
        fetching_is_over(demand(c).0),
{
}

/// Pages are requested by strictly increasing number, one at a time, and
/// never beyond the ceiling.
pub proof fn lemma_pages_increase<T>(c: Cursor<T>)
    requires
        c.page <= MAX_PAGES,
    ensures
        demand(c).0.page <= MAX_PAGES,
        demand(c).0.page == c.page || (demand(c).0.page == c.page + 1 && !c.awaiting && demand(
            c,
        ).0.awaiting),
        demand(c).1 is Fetch ==> demand(c).1 == StepView::<T>::Fetch(
            page_request(c, demand(c).0.page),
        ),
{
}

/// Items are handed out in the order in which the service sent them, each
/// once, and none once the reported total is reached.
pub proof fn lemma_items_in_order<T>(c: Cursor<T>)
    requires
        demand(c).1 is Item,
    ensures
        c.pending.len() > 0,
        demand(c).1 == StepView::Item(c.pending[0]),
        demand(c).0.pending == c.pending.drop_first(),
        demand(c).0.total_yielded == bumped(c.total_yielded),
        !total_reached(c),
        !c.finished,
        !c.awaiting,
{
}

/// What is buffered is what is left of one page: a delivery replaces the
/// buffer, and a demand never makes it longer.
pub proof fn lemma_one_page_buffered<T>(c: Cursor<T>, items: Seq<T>, total: Option<u64>)
    ensures
        demand(c).0.pending.len() <= c.pending.len(),
        delivered(c, Delivery::Page { items, total }).pending == items || delivered(
            c,
            Delivery::Page { items, total },
        ).pending == c.pending,
{
}

} // verus!
