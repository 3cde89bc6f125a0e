//! Reading a list page by page.
use crate::event_ops::reads::{entries_between, page, page_end};
use crate::event_ops::VIEW_PAGE_LIMIT;
use vstd::prelude::*;

verus! {

/// What stands before a place and what stands after it make the whole.
pub proof fn law_pages_join<T>(at: spec_fn(u32) -> Option<T>, from: int, middle: int, to: int)
    requires
        from <= middle <= to,
    ensures
        entries_between(at, from, to) == entries_between(at, from, middle) + entries_between(
            at,
            middle,
            to,
        ),
    decreases to - middle,
{
    if middle < to {
        law_pages_join(at, from, middle, to - 1);
    }
    assert(entries_between(at, from, to) =~= entries_between(at, from, middle) + entries_between(
        at,
        middle,
        to,
    ));
}

/// A page and what comes after it make the rest of the list, and a page of at least one
/// place gets on.
pub proof fn law_pages_cover_list<T>(
    at: spec_fn(u32) -> Option<T>,
    start: u32,
    limit: u32,
    count: u32,
)
    requires
        start <= count,
    ensures
        entries_between(at, start as int, count as int) == page(at, start, limit, count)
            + entries_between(at, page_end(start, limit, count), count as int),
        start < count && limit > 0 ==> start < page_end(start, limit, count) <= count,
{
    law_pages_join(at, start as int, page_end(start, limit, count), count as int);
}

/// A page holds at most as many entries as were asked for, and at most
/// [`VIEW_PAGE_LIMIT`].
pub proof fn law_page_is_bounded<T>(
    at: spec_fn(u32) -> Option<T>,
    start: u32,
    limit: u32,
    count: u32,
)
    ensures
        page(at, start, limit, count).len() <= limit,
        page(at, start, limit, count).len() <= VIEW_PAGE_LIMIT,
{
    lemma_no_more_entries_than_places(at, start as int, page_end(start, limit, count));
}

proof fn lemma_no_more_entries_than_places<T>(at: spec_fn(u32) -> Option<T>, from: int, to: int)
    requires
        from <= to,
    ensures
        entries_between(at, from, to).len() <= to - from,
    decreases to - from,
{
    if from < to {
        lemma_no_more_entries_than_places(at, from, to - 1);
    }
}

/// In a list without empty places a page holds the entry of each of its places.
pub proof fn law_page_of_full_list<T>(
    at: spec_fn(u32) -> Option<T>,
    start: u32,
    limit: u32,
    count: u32,
    k: int,
)
    requires
        forall|i: u32| i < count ==> #[trigger] at(i) is Some,
        start <= k < page_end(start, limit, count),
    ensures
        page(at, start, limit, count).len() == page_end(start, limit, count) - start,
        page(at, start, limit, count)[k - start] == at(k as u32).unwrap(),
{
    lemma_entry_for_each_place(at, start as int, page_end(start, limit, count), count, k);
}

proof fn lemma_entry_for_each_place<T>(
    at: spec_fn(u32) -> Option<T>,
    from: int,
    to: int,
    count: u32,
    k: int,
)
    requires
        forall|i: u32| i < count ==> #[trigger] at(i) is Some,
        0 <= from <= to <= count,
    ensures
        entries_between(at, from, to).len() == to - from,
        from <= k < to ==> entries_between(at, from, to)[k - from] == at(k as u32).unwrap(),
    decreases to - from,
{
    if from < to {
        lemma_entry_for_each_place(at, from, to - 1, count, k);
        assert(at((to - 1) as u32) is Some);
    }
}

} // verus!
