//! What holds of a listing that is walked page by page.

use crate::cursor::{AnchorModel, MAX_PACKED_TEXT};
use crate::db::distinct_ids;
use crate::listing::{
    anchor_at, is_page_of, lemma_listable_among_bounds, lemma_listable_none, listable,
    listable_count, listing_answer, next_page_number, on_page, start_of,
};
use crate::order::{
    key_before, lemma_follows_is_after, lemma_key_irreflexive, lemma_key_transitive,
};
use crate::record::{MovieModel, PageModel};
use crate::text::text_before;
use vstd::prelude::*;
use vstd::utf8::encode_utf8;

verus! {

/// The items of the first `k` pages, one page after the other.
pub open spec fn items_through(pages: Seq<PageModel<MovieModel>>, k: int) -> Seq<MovieModel>
    decreases k,
{
    if k <= 0 {
        Seq::empty()
    } else {
        items_through(pages, k - 1) + pages[k - 1].items
    }
}

/// The items of all the pages, one page after the other.
pub open spec fn all_items(pages: Seq<PageModel<MovieModel>>) -> Seq<MovieModel> {
    items_through(pages, pages.len() as int)
}

/// Where the listing for page `k` starts, and the number the page gets: for
/// the first page what `first` says, and for every other page what the
/// cursor of the page before it says.
pub open spec fn asked(
    first: (Option<AnchorModel>, i64),
    pages: Seq<PageModel<MovieModel>>,
    k: int,
) -> (Option<AnchorModel>, i64) {
    if k <= 0 {
        first
    } else {
        start_of(pages[k - 1].next_anchor)->0
    }
}

/// Whether page `k` is what the listing answers when asked as `asked` says.
pub open spec fn answered(
    rows: Seq<MovieModel>,
    page_size: int,
    first: (Option<AnchorModel>, i64),
    pages: Seq<PageModel<MovieModel>>,
    k: int,
) -> bool {
    &&& k > 0 ==> pages[k - 1].next_anchor is Some
    &&& listing_answer(
        rows,
        asked(first, pages, k).0,
        asked(first, pages, k).1,
        page_size,
        pages[k],
    )
}

/// Whether `pages` is what a caller gets who asks for the listing of `rows`
/// as `first` says, and asks again with each cursor handed back, until none
/// is handed back.
pub open spec fn walked_to_the_end(
    rows: Seq<MovieModel>,
    page_size: int,
    first: (Option<AnchorModel>, i64),
    pages: Seq<PageModel<MovieModel>>,
) -> bool {
    &&& pages.len() >= 1
    &&& forall|k: int|
        0 <= k < pages.len() ==> #[trigger] answered(rows, page_size, first, pages, k)
    &&& pages.last().next_anchor is None
}

/// Every title is short enough for a cursor to hold it in full.
pub open spec fn titles_fit(rows: Seq<MovieModel>) -> bool {
    forall|j: int|
        0 <= j < rows.len() ==> encode_utf8(#[trigger] rows[j].title).len() <= MAX_PACKED_TEXT
}

/// The items stand in the fixed order, none of them twice.
pub open spec fn ascending(items: Seq<MovieModel>) -> bool {
    forall|a: int, b: int|
        0 <= a < b < items.len() ==> key_before(#[trigger] items[a].key(), #[trigger] items[b].key())
}

/// Every item is a row that a listing from `start` holds.
pub open spec fn drawn_from(
    rows: Seq<MovieModel>,
    start: Option<AnchorModel>,
    items: Seq<MovieModel>,
) -> bool {
    forall|a: int|
        0 <= a < items.len() ==> listable(start, #[trigger] items[a]) && exists|j: int|
            0 <= j < rows.len() && #[trigger] rows[j] == items[a]
}

/// The cursor that a page names is one that the listing accepts: it stands
/// for the place of the last row of the page, and the number of the next
/// page.
pub proof fn lemma_cursor_goes_on(
    rows: Seq<MovieModel>,
    start: Option<AnchorModel>,
    number: i64,
    page_size: int,
    page: PageModel<MovieModel>,
)
    requires
        titles_fit(rows),
        listing_answer(rows, start, number, page_size, page),
        page.next_anchor is Some,
    ensures
        page.items.len() > 0,
        start_of(page.next_anchor) == Some(
            (
                Some(anchor_at(page.items.last(), next_page_number(number))),
                next_page_number(number),
            ),
        ),
{
    let last = page.items.last();
    assert(page.items[page.items.len() - 1] == last);
    let at = choose|j: int| 0 <= j < rows.len() && #[trigger] rows[j] == last;
    assert(encode_utf8(rows[at].title).len() <= MAX_PACKED_TEXT);
}

/// How many rows the listing holds after the page.
spec fn rest_after(
    rows: Seq<MovieModel>,
    start: Option<AnchorModel>,
    page: PageModel<MovieModel>,
) -> int {
    if page.items.len() > 0 {
        listable_count(
            rows,
            Some(anchor_at(page.items.last(), next_page_number(page.page_number as i64))),
        )
    } else {
        listable_count(rows, start)
    }
}

/// What holds once the pages up to page `k` were walked.
spec fn walked(
    rows: Seq<MovieModel>,
    start: Option<AnchorModel>,
    pages: Seq<PageModel<MovieModel>>,
    k: int,
) -> bool {
    let all = items_through(pages, k + 1);
    let page = pages[k];
    &&& ascending(all)
    &&& drawn_from(rows, start, all)
    &&& page.items.len() > 0 ==> all.len() > 0 && all.last() == page.items.last()
    &&& page.items.len() == 0 ==> all.len() == 0
    &&& forall|j: int|
        0 <= j < rows.len() && listable(start, #[trigger] rows[j]) ==> on_page(all, rows[j]) || (
        page.items.len() > 0 && key_before(page.items.last().key(), rows[j].key()))
    &&& all.len() + rest_after(rows, start, page) == listable_count(rows, start)
}

proof fn lemma_first_page(
    rows: Seq<MovieModel>,
    page_size: int,
    first: (Option<AnchorModel>, i64),
    pages: Seq<PageModel<MovieModel>>,
)
    requires
        page_size >= 1,
        pages.len() >= 1,
        answered(rows, page_size, first, pages, 0),
    ensures
        walked(rows, first.0, pages, 0),
{
    let page = pages[0];
    let all = items_through(pages, 1);
    assert(items_through(pages, 0) =~= Seq::<MovieModel>::empty());
    assert(all =~= page.items);
    assert(page.page_number as i64 == first.1);
    assert(is_page_of(rows, first.0, page_size, page.items));
}

proof fn lemma_next_page(
    rows: Seq<MovieModel>,
    page_size: int,
    first: (Option<AnchorModel>, i64),
    pages: Seq<PageModel<MovieModel>>,
    k: int,
)
    requires
        page_size >= 1,
        titles_fit(rows),
        1 <= k < pages.len(),
        walked(rows, first.0, pages, k - 1),
        answered(rows, page_size, first, pages, k - 1),
        answered(rows, page_size, first, pages, k),
    ensures
        walked(rows, first.0, pages, k),
{
    let start = first.0;
    let prev = pages[k - 1];
    let page = pages[k];
    let seen = items_through(pages, k);
    let all = items_through(pages, k + 1);
    assert(all == seen + page.items);
    let (prev_start, prev_number) = asked(first, pages, k - 1);
    assert(listing_answer(rows, prev_start, prev_number, page_size, prev));
    assert(is_page_of(rows, prev_start, page_size, prev.items));
    assert(prev.items.len() > 0);
    let last = prev.items.last();
    let next = anchor_at(last, next_page_number(prev_number));
    // the cursor stands for the place of the last row
    lemma_cursor_goes_on(rows, prev_start, prev_number, page_size, prev);
    assert(asked(first, pages, k) == (Some(next), next.page_number));
    assert(is_page_of(rows, Some(next), page_size, page.items));
    assert(prev.page_number as i64 == prev_number);
    assert(rest_after(rows, start, prev) == listable_count(rows, Some(next)));
    // the page holds a row
    assert(listable_count(rows, Some(next)) > 0);
    lemma_listable_none(rows, Some(next), rows.len() as int);
    assert(page.items.len() > 0);
    assert(all.last() == page.items.last());
    // the rows of the page come after all rows seen before
    assert(seen.last() == last);
    assert(listable(start, seen[seen.len() - 1]));
    assert forall|b: int| 0 <= b < page.items.len() implies key_before(
        last.key(),
        #[trigger] page.items[b].key(),
    ) && listable(start, page.items[b]) by {
        let item = page.items[b];
        lemma_follows_is_after(next, item);
        if let Some(anchor) = start {
            lemma_follows_is_after(anchor, last);
            lemma_follows_is_after(anchor, item);
            lemma_key_transitive(anchor.key(), last.key(), item.key());
        }
    }
    assert forall|a: int, b: int| 0 <= a < b < all.len() implies key_before(
        #[trigger] all[a].key(),
        #[trigger] all[b].key(),
    ) by {
        if b < seen.len() {
            assert(all[a] == seen[a] && all[b] == seen[b]);
        } else if a >= seen.len() {
            assert(all[a] == page.items[a - seen.len()] && all[b] == page.items[b - seen.len()]);
        } else {
            assert(all[a] == seen[a] && all[b] == page.items[b - seen.len()]);
            if a < seen.len() - 1 {
                assert(key_before(seen[a].key(), seen[seen.len() - 1].key()));
                lemma_key_transitive(all[a].key(), last.key(), all[b].key());
            }
        }
    }
    assert forall|a: int| 0 <= a < all.len() implies listable(start, #[trigger] all[a])
        && exists|j: int| 0 <= j < rows.len() && #[trigger] rows[j] == all[a] by {
        if a < seen.len() {
            assert(all[a] == seen[a]);
        } else {
            assert(all[a] == page.items[a - seen.len()]);
        }
    }
    assert forall|j: int| 0 <= j < rows.len() && listable(start, #[trigger] rows[j]) implies on_page(
        all,
        rows[j],
    ) || (page.items.len() > 0 && key_before(page.items.last().key(), rows[j].key())) by {
        if on_page(seen, rows[j]) {
            let a = choose|a: int| 0 <= a < seen.len() && #[trigger] seen[a] == rows[j];
            assert(all[a] == rows[j]);
        } else {
            lemma_follows_is_after(next, rows[j]);
            assert(listable(Some(next), rows[j]));
            if on_page(page.items, rows[j]) {
                let b = choose|b: int|
                    0 <= b < page.items.len() && #[trigger] page.items[b] == rows[j];
                assert(all[seen.len() + b] == rows[j]);
            }
        }
    }
    assert(page.page_number as i64 == next.page_number);
}

proof fn lemma_walk(
    rows: Seq<MovieModel>,
    page_size: int,
    first: (Option<AnchorModel>, i64),
    pages: Seq<PageModel<MovieModel>>,
    k: int,
)
    requires
        page_size >= 1,
        titles_fit(rows),
        0 <= k < pages.len(),
        forall|i: int|
            0 <= i < pages.len() ==> #[trigger] answered(rows, page_size, first, pages, i),
    ensures
        walked(rows, first.0, pages, k),
    decreases k,
{
    if k == 0 {
        assert(answered(rows, page_size, first, pages, 0));
        lemma_first_page(rows, page_size, first, pages);
    } else {
        lemma_walk(rows, page_size, first, pages, k - 1);
        assert(answered(rows, page_size, first, pages, k - 1));
        assert(answered(rows, page_size, first, pages, k));
        lemma_next_page(rows, page_size, first, pages, k);
    }
}

/// A caller who asks for a listing, with a page size of at least one, and
/// asks again with each cursor handed back until none is handed back, gets
/// every row that the listing holds, each of them once, in the fixed order;
/// the catalog staying as it is meanwhile.
pub proof fn lemma_walk_complete(
    rows: Seq<MovieModel>,
    page_size: int,
    first: (Option<AnchorModel>, i64),
    pages: Seq<PageModel<MovieModel>>,
)
    requires
        distinct_ids(rows),
        titles_fit(rows),
        page_size >= 1,
        walked_to_the_end(rows, page_size, first, pages),
    ensures
        ascending(all_items(pages)),
        drawn_from(rows, first.0, all_items(pages)),
        forall|j: int|
            0 <= j < rows.len() && listable(first.0, #[trigger] rows[j]) ==> on_page(
                all_items(pages),
                rows[j],
            ),
        all_items(pages).len() == listable_count(rows, first.0),
{
    let k = pages.len() - 1;
    lemma_walk(rows, page_size, first, pages, k);
    let all = all_items(pages);
    let page = pages[k];
    assert(answered(rows, page_size, first, pages, k));
    let (start, number) = asked(first, pages, k);
    assert(listing_answer(rows, start, number, page_size, page));
    lemma_listable_among_bounds(rows, first.0, rows.len() as int);
    if page.items.len() > 0 {
        let next = anchor_at(page.items.last(), next_page_number(number));
        lemma_listable_among_bounds(rows, Some(next), rows.len() as int);
        lemma_listable_among_bounds(rows, start, rows.len() as int);
        lemma_listable_none(rows, Some(next), rows.len() as int);
        assert forall|j: int| 0 <= j < rows.len() && listable(first.0, #[trigger] rows[j]) implies on_page(
            all,
            rows[j],
        ) by {
            lemma_follows_is_after(next, rows[j]);
        }
    } else {
        lemma_listable_none(rows, first.0, rows.len() as int);
        assert(is_page_of(rows, start, page_size, page.items));
    }
}

/// A page that names a cursor is full: it holds as many rows as the page size
/// says.
pub proof fn lemma_page_with_cursor_is_full(
    rows: Seq<MovieModel>,
    start: Option<AnchorModel>,
    number: i64,
    page_size: int,
    page: PageModel<MovieModel>,
)
    requires
        page_size >= 1,
        listing_answer(rows, start, number, page_size, page),
        page.next_anchor is Some,
    ensures
        page.items.len() == page_size,
{
    let items = page.items;
    let last = items.last();
    let next = anchor_at(last, next_page_number(number));
    assert(is_page_of(rows, start, page_size, items));
    assert(items[items.len() - 1] == last);
    assert(listable(start, items[items.len() - 1]));
    if items.len() != page_size {
        assert forall|j: int| 0 <= j < rows.len() implies !listable(Some(next), #[trigger] rows[j]) by {
            if listable(Some(next), rows[j]) {
                lemma_follows_is_after(next, rows[j]);
                if let Some(anchor) = start {
                    lemma_follows_is_after(anchor, last);
                    lemma_follows_is_after(anchor, rows[j]);
                    lemma_key_transitive(anchor.key(), last.key(), rows[j].key());
                }
                assert(listable(start, rows[j]));
                assert(on_page(items, rows[j]));
                let a = choose|a: int| 0 <= a < items.len() && #[trigger] items[a] == rows[j];
                if a < items.len() - 1 {
                    assert(key_before(items[a].key(), items[items.len() - 1].key()));
                    lemma_key_transitive(last.key(), rows[j].key(), last.key());
                }
                lemma_key_irreflexive(last.key());
            }
        }
        lemma_listable_none(rows, Some(next), rows.len() as int);
    }
}

proof fn lemma_full_pages(
    rows: Seq<MovieModel>,
    page_size: int,
    first: (Option<AnchorModel>, i64),
    pages: Seq<PageModel<MovieModel>>,
    k: int,
)
    requires
        page_size >= 1,
        0 <= k < pages.len(),
        forall|i: int|
            0 <= i < pages.len() ==> #[trigger] answered(rows, page_size, first, pages, i),
    ensures
        items_through(pages, k).len() == page_size * k,
    decreases k,
{
    if k > 0 {
        lemma_full_pages(rows, page_size, first, pages, k - 1);
        assert(answered(rows, page_size, first, pages, k - 1));
        assert(answered(rows, page_size, first, pages, k));
        lemma_page_with_cursor_is_full(
            rows,
            asked(first, pages, k - 1).0,
            asked(first, pages, k - 1).1,
            page_size,
            pages[k - 1],
        );
        assert(items_through(pages, k) == items_through(pages, k - 1) + pages[k - 1].items);
        assert(page_size * k == page_size * (k - 1) + page_size) by (nonlinear_arith);
    } else {
        assert(items_through(pages, 0).len() == 0);
        assert(page_size * 0 == 0);
    }
}

/// How long the walk is. Every page but the last holds as many rows as the
/// page size says; the last holds what is left, at least one row unless the
/// listing holds none at all. So a listing of `n` rows, walked in pages of
/// `p`, takes as many calls as `n` holds `p`, rounded up, and one call where
/// it holds no row.
pub proof fn lemma_walk_lengths(
    rows: Seq<MovieModel>,
    page_size: int,
    first: (Option<AnchorModel>, i64),
    pages: Seq<PageModel<MovieModel>>,
)
    requires
        distinct_ids(rows),
        titles_fit(rows),
        page_size >= 1,
        walked_to_the_end(rows, page_size, first, pages),
    ensures
        forall|k: int| 0 <= k < pages.len() - 1 ==> (#[trigger] pages[k]).items.len() == page_size,
        pages.last().items.len() <= page_size,
        pages.len() > 1 ==> pages.last().items.len() >= 1,
        listable_count(rows, first.0) == page_size * (pages.len() - 1) + pages.last().items.len(),
{
    let n = pages.len() - 1;
    lemma_walk_complete(rows, page_size, first, pages);
    lemma_full_pages(rows, page_size, first, pages, n);
    assert(all_items(pages) == items_through(pages, n) + pages[n].items);
    assert(answered(rows, page_size, first, pages, n));
    assert(is_page_of(rows, asked(first, pages, n).0, page_size, pages[n].items));
    assert forall|k: int| 0 <= k < pages.len() - 1 implies (#[trigger] pages[k]).items.len()
        == page_size by {
        assert(answered(rows, page_size, first, pages, k));
        assert(answered(rows, page_size, first, pages, k + 1));
        lemma_page_with_cursor_is_full(
            rows,
            asked(first, pages, k).0,
            asked(first, pages, k).1,
            page_size,
            pages[k],
        );
    }
    if pages.len() > 1 {
        lemma_walk(rows, page_size, first, pages, n);
        assert(page_size * n >= page_size) by (nonlinear_arith)
            requires
                n >= 1,
                page_size >= 1,
        ;
    }
}

/// A caller who lists the catalog from the head, with a page size of at least
/// one, and asks again with each cursor handed back until none is handed
/// back, gets every record that was not struck out, each of them once, in the
/// fixed order; the catalog staying as it is meanwhile.
pub proof fn lemma_pagination_complete(
    rows: Seq<MovieModel>,
    page_size: int,
    pages: Seq<PageModel<MovieModel>>,
)
    requires
        distinct_ids(rows),
        titles_fit(rows),
        page_size >= 1,
        walked_to_the_end(rows, page_size, (None, 1i64), pages),
    ensures
        ascending(all_items(pages)),
        forall|a: int|
            0 <= a < all_items(pages).len() ==> (#[trigger] all_items(pages)[a]).live() && exists|
                j: int,
            | 0 <= j < rows.len() && #[trigger] rows[j] == all_items(pages)[a],
        forall|j: int|
            0 <= j < rows.len() && (#[trigger] rows[j]).live() ==> on_page(all_items(pages), rows[j]),
        all_items(pages).len() == listable_count(rows, None),
{
    lemma_walk_complete(rows, page_size, (None, 1i64), pages);
}

/// A record that enters the catalog while a listing is under way, with a
/// title greater than that of the cursor's anchor, disturbs nothing. The
/// caller who goes on from the cursor to the end gets, in the fixed order and
/// each once, the new record if it was not struck out and every record that
/// the listing was still to hold; and gets no record at or before the
/// anchor, so none of those seen before.
pub proof fn lemma_insert_keeps_listing(
    rows: Seq<MovieModel>,
    added: MovieModel,
    anchor: AnchorModel,
    number: i64,
    page_size: int,
    pages: Seq<PageModel<MovieModel>>,
)
    requires
        distinct_ids(rows.push(added)),
        titles_fit(rows.push(added)),
        page_size >= 1,
        text_before(anchor.title, added.title),
        walked_to_the_end(rows.push(added), page_size, (Some(anchor), number), pages),
    ensures
        ascending(all_items(pages)),
        forall|a: int|
            0 <= a < all_items(pages).len() ==> key_before(
                anchor.key(),
                (#[trigger] all_items(pages)[a]).key(),
            ),
        forall|a: int|
            0 <= a < all_items(pages).len() ==> (#[trigger] all_items(pages)[a]) == added
                || exists|j: int| 0 <= j < rows.len() && #[trigger] rows[j] == all_items(pages)[a],
        forall|j: int|
            0 <= j < rows.len() && listable(Some(anchor), #[trigger] rows[j]) ==> on_page(
                all_items(pages),
                rows[j],
            ),
        added.live() ==> on_page(all_items(pages), added),
{
    let grown = rows.push(added);
    let all = all_items(pages);
    lemma_walk_complete(grown, page_size, (Some(anchor), number), pages);
    assert forall|a: int| 0 <= a < all.len() implies key_before(
        anchor.key(),
        (#[trigger] all[a]).key(),
    ) by {
        lemma_follows_is_after(anchor, all[a]);
    }
    assert forall|a: int| 0 <= a < all.len() implies (#[trigger] all[a]) == added || exists|j: int|
        0 <= j < rows.len() && #[trigger] rows[j] == all[a] by {
        let j = choose|j: int| 0 <= j < grown.len() && #[trigger] grown[j] == all[a];
        if j < rows.len() {
            assert(rows[j] == all[a]);
        }
    }
    assert forall|j: int| 0 <= j < rows.len() && listable(Some(anchor), #[trigger] rows[j]) implies on_page(
        all,
        rows[j],
    ) by {
        assert(grown[j] == rows[j]);
    }
    assert(grown[rows.len() as int] == added);
}

} // verus!
