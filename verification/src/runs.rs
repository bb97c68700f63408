//! Whole iterations: what a [`JobIterator`](crate::pagination::JobIterator)
//! hands out, and how often it asks for a page, when every request is
//! answered from a given script.

use crate::errors::ErrorView;
use crate::pagination::{
    delivered, demand, fetching_is_over, is_last_page, Cursor, Delivery, StepView, MAX_PAGES,
};
use vstd::prelude::*;

verus! {

/// What an iteration showed to its consumer and to the backend.
pub struct Run<T> {
    /// The elements of the sequence, in order: items, and the error of a
    /// failed fetch.
    pub yielded: Seq<Result<T, ErrorView>>,
    /// How many requests were answered.
    pub fetches: nat,
    /// Whether the sequence came to its end. It does not where the script
    /// has no answer left for a request.
    pub finished: bool,
}

/// `items`, each as an element of a sequence of results.
pub open spec fn oks<T>(items: Seq<T>) -> Seq<Result<T, ErrorView>> {
    Seq::new(items.len(), |i: int| Ok(items[i]))
}

/// The element that a delivery adds to the sequence by itself: the error of
/// a failed fetch.
pub open spec fn surfaced<T>(delivery: Delivery<T>) -> Seq<Result<T, ErrorView>> {
    match delivery {
        Delivery::Failure(error) => seq![Err(error)],
        Delivery::Page { .. } => Seq::empty(),
    }
}

/// The iteration from state `c` on, demanded until it ends, where the n-th
/// request is answered with the n-th entry of `script`.
pub open spec fn run<T>(c: Cursor<T>, script: Seq<Delivery<T>>) -> Run<T>
    decreases script.len(), c.pending.len(),
{
    let next = demand(c).0;
    match demand(c).1 {
        StepView::Done => Run { yielded: Seq::empty(), fetches: 0, finished: true },
        StepView::Item(item) => if next.pending.len() < c.pending.len() {
            let rest = run(next, script);
            Run { yielded: seq![Ok(item)] + rest.yielded, ..rest }
        } else {
            Run { yielded: Seq::empty(), fetches: 0, finished: false }
        },
        StepView::Fetch(_) => if script.len() == 0 {
            Run { yielded: Seq::empty(), fetches: 0, finished: false }
        } else {
            let rest = run(delivered(next, script[0]), script.drop_first());
            Run {
                yielded: surfaced(script[0]) + rest.yielded,
                fetches: rest.fetches + 1,
                finished: rest.finished,
            }
        },
    }
}

/// The state once everything that is buffered was handed out.
pub open spec fn drained<T>(c: Cursor<T>) -> Cursor<T>
    decreases c.pending.len(),
{
    if c.pending.len() > 0 && demand(c).0.pending.len() < c.pending.len() {
        drained(demand(c).0)
    } else {
        c
    }
}

/// Whether `c` is between two demands with no limit on the number of items:
/// nothing requested is open, the end is not reached, and no total is known.
pub open spec fn flowing<T>(c: Cursor<T>) -> bool {
    !c.finished && !c.awaiting && c.max_results is None
}

/// Where no total is known, everything that is buffered is handed out, in
/// order, before anything else happens.
pub proof fn lemma_buffer_is_handed_out<T>(c: Cursor<T>, script: Seq<Delivery<T>>)
    requires
        flowing(c),
    ensures
        run(c, script).yielded == oks(c.pending) + run(drained(c), script).yielded,
        run(c, script).fetches == run(drained(c), script).fetches,
        run(c, script).finished == run(drained(c), script).finished,
        flowing(drained(c)),
        drained(c).pending.len() == 0,
        drained(c).page == c.page,
        drained(c).page_size == c.page_size,
        drained(c).last_page == c.last_page,
    decreases c.pending.len(),
{
    if c.pending.len() > 0 {
        let next = demand(c).0;
        lemma_buffer_is_handed_out(next, script);
        assert(oks(c.pending) =~= seq![Ok::<T, ErrorView>(c.pending[0])] + oks(next.pending));
        assert(run(c, script).yielded =~= oks(c.pending) + run(drained(c), script).yielded);
    } else {
        assert(oks(c.pending) =~= Seq::<Result<T, ErrorView>>::empty());
        assert(run(c, script).yielded =~= oks(c.pending) + run(c, script).yielded);
    }
}

/// Once fetching is over, the iteration comes to its end without another
/// request, whatever the script holds.
pub proof fn lemma_ends_without_fetch<T>(c: Cursor<T>, script: Seq<Delivery<T>>)
    requires
        fetching_is_over(c),
    ensures
        run(c, script).fetches == 0,
        run(c, script).finished,
    decreases c.pending.len(),
{
    if demand(c).1 is Item {
        lemma_ends_without_fetch(demand(c).0, script);
    }
}

/// Whether `c` has requested nothing yet.
pub open spec fn is_fresh<T>(c: Cursor<T>) -> bool {
    &&& c.page == 0
    &&& c.pending.len() == 0
    &&& c.max_results is None
    &&& !c.awaiting
    &&& !c.last_page
    &&& !c.finished
}

/// A first page that is shorter than was asked for ends the iteration after
/// one fetch; where it reports no total, its items are what the sequence
/// holds.
pub proof fn lemma_short_first_page<T>(c: Cursor<T>, script: Seq<Delivery<T>>)
    requires
        is_fresh(c),
        script.len() > 0,
        script[0] matches Delivery::Page { items, .. } && is_last_page(items.len(), c.page_size),
    ensures
        run(c, script).fetches == 1,
        run(c, script).finished,
        script[0] matches Delivery::Page { items, total } && (total is None ==> run(
            c,
            script,
        ).yielded == oks(items)),
{
    let first = delivered(demand(c).0, script[0]);
    let rest = script.drop_first();
    lemma_ends_without_fetch(first, rest);
    if first.max_results is None {
        lemma_buffer_is_handed_out(first, rest);
        lemma_ends_without_fetch(drained(first), rest);
        assert(run(c, script).yielded =~= oks(first.pending));
    }
}

/// The items of the pages of a script, in order.
pub open spec fn all_items<T>(script: Seq<Delivery<T>>) -> Seq<T>
    decreases script.len(),
{
    if script.len() == 0 {
        Seq::empty()
    } else {
        match script[0] {
            Delivery::Page { items, .. } => items + all_items(script.drop_first()),
            Delivery::Failure(_) => all_items(script.drop_first()),
        }
    }
}

/// Whether `script` holds pages only, the last one short and the others not.
pub open spec fn ends_with_short_page<T>(script: Seq<Delivery<T>>, page_size: u64) -> bool {
    &&& script.len() > 0
    &&& forall|i: int|
        0 <= i < script.len() ==> (#[trigger] script[i] matches Delivery::Page { items, .. }
            && (is_last_page(items.len(), page_size) <==> i == script.len() - 1))
}

/// Against a backend that sends pages until a short one, and reports no
/// total, the sequence holds the items of all pages in the order of the
/// service and then ends, and every page was fetched once.
pub proof fn lemma_pages_until_short<T>(c: Cursor<T>, script: Seq<Delivery<T>>)
    requires
        flowing(c),
        c.pending.len() == 0,
        !c.last_page,
        c.page + script.len() <= MAX_PAGES,
        ends_with_short_page(script, c.page_size),
        c.page == 0 ==> (script[0] matches Delivery::Page { total, .. } && total is None),
    ensures
        run(c, script).yielded == oks(all_items(script)),
        run(c, script).fetches == script.len(),
        run(c, script).finished,
    decreases script.len(),
{
    let rest = script.drop_first();
    let first = delivered(demand(c).0, script[0]);
    assert(script[0] is Page);
    let items = script[0]->items;
    lemma_buffer_is_handed_out(first, rest);
    let after = drained(first);
    if script.len() == 1 {
        lemma_ends_without_fetch(after, rest);
        assert(demand(after).1 is Done);
        assert(all_items(rest) =~= Seq::<T>::empty());
        assert(run(c, script).yielded =~= oks(all_items(script)));
    } else {
        assert forall|i: int| 0 <= i < rest.len() implies (#[trigger] rest[i] matches Delivery::Page {
            items,
            ..
        } && (is_last_page(items.len(), c.page_size) <==> i == rest.len() - 1)) by {
            assert(rest[i] == script[i + 1]);
        }
        lemma_pages_until_short(after, rest);
        assert(oks(items + all_items(rest)) =~= oks(items) + oks(all_items(rest)));
        assert(run(c, script).yielded =~= oks(all_items(script)));
    }
}

/// The error of a failed fetch is the last element of the sequence.
pub proof fn lemma_error_is_last<T>(c: Cursor<T>, script: Seq<Delivery<T>>, i: int)
    requires
        0 <= i < run(c, script).yielded.len(),
        run(c, script).yielded[i] is Err,
    ensures
        i == run(c, script).yielded.len() - 1,
    decreases script.len(), c.pending.len(),
{
    let next = demand(c).0;
    match demand(c).1 {
        StepView::Done => {},
        StepView::Item(_) => {
            if next.pending.len() < c.pending.len() {
                lemma_error_is_last(next, script, i - 1);
            }
        },
        StepView::Fetch(_) => {
            if script.len() > 0 {
                let after = delivered(next, script[0]);
                match script[0] {
                    Delivery::Failure(_) => {
                        assert(after.finished);
                        assert(run(after, script.drop_first()).yielded.len() == 0);
                    },
                    Delivery::Page { .. } => {
                        lemma_error_is_last(after, script.drop_first(), i);
                    },
                }
            }
        },
    }
}

} // verus!
