//! The listing of the catalog, page by page: what a page holds, and how the
//! primary store finds it.

use crate::cursor::{
    cursor_anchor, cursor_text, deserialize_anchor, serialize_anchor, url_safe_bytes, AnchorModel,
    MovieAnchor, MAX_PACKED_TEXT,
};
use crate::db::{distinct_ids, MovieTable};
use crate::error::Error;
use crate::order::{
    follows, is_after, key_before, lemma_follows_is_after, lemma_key_irreflexive,
    lemma_key_total, lemma_key_transitive, listed_before,
};
use crate::record::{reversed, text_of, views, Movie, MovieModel, Page, PageModel};
use vstd::prelude::*;
use vstd::utf8::encode_utf8;

verus! {

/// Whether a listing that starts at `start` (at the head of the order, if
/// there is none) holds `row`: records that were struck out are never listed.
pub open spec fn listable(start: Option<AnchorModel>, row: MovieModel) -> bool {
    row.live() && (start matches Some(anchor) ==> follows(anchor, row))
}

/// How many of the first `n` rows a listing from `start` holds.
pub open spec fn listable_among(rows: Seq<MovieModel>, start: Option<AnchorModel>, n: int) -> int
    decreases n,
{
    if n <= 0 {
        0
    } else {
        listable_among(rows, start, n - 1) + if listable(start, rows[n - 1]) {
            1int
        } else {
            0int
        }
    }
}

/// How many rows a listing from `start` holds.
pub open spec fn listable_count(rows: Seq<MovieModel>, start: Option<AnchorModel>) -> int {
    listable_among(rows, start, rows.len() as int)
}

/// The most rows that a page of the size asked for holds: none where the
/// size is not positive.
pub open spec fn page_limit(page_size: int) -> int {
    if page_size > 0 {
        page_size
    } else {
        0
    }
}

/// The anchor at a row: the place of the row, and a page number.
pub open spec fn anchor_at(row: MovieModel, page_number: i64) -> AnchorModel {
    AnchorModel {
        title: row.title,
        release_date: row.release_date,
        id: row.id,
        page_number,
    }
}

/// Whether `row` stands on the page.
pub open spec fn on_page(items: Seq<MovieModel>, row: MovieModel) -> bool {
    exists|a: int| 0 <= a < items.len() && #[trigger] items[a] == row
}

/// Whether `items` is the page of at most `page_size` rows with which a
/// listing of `rows` from `start` begins: the first rows of the listing in
/// the fixed order, each of them once.
pub open spec fn is_page_of(
    rows: Seq<MovieModel>,
    start: Option<AnchorModel>,
    page_size: int,
    items: Seq<MovieModel>,
) -> bool {
    &&& items.len() <= page_limit(page_size)
    &&& forall|a: int, b: int|
        0 <= a < b < items.len() ==> key_before(#[trigger] items[a].key(), #[trigger] items[b].key())
    &&& forall|a: int|
        0 <= a < items.len() ==> listable(start, #[trigger] items[a]) && exists|j: int|
            0 <= j < rows.len() && #[trigger] rows[j] == items[a]
    &&& forall|j: int|
        0 <= j < rows.len() && listable(start, #[trigger] rows[j]) ==> on_page(items, rows[j]) || (
        items.len() == page_limit(page_size) && (items.len() > 0 ==> key_before(
            items.last().key(),
            rows[j].key(),
        )))
}

/// The number of the page after page `number`. The number is a label; at
/// the end of the integers it stays.
pub open spec fn next_page_number(number: i64) -> i64 {
    if number < i64::MAX {
        (number + 1) as i64
    } else {
        number
    }
}

/// Where a listing starts and what the number of its first page is: at the
/// head of the order with page 1 where no cursor is given, else where the
/// cursor says. `None` where the cursor stands for no anchor.
pub open spec fn start_of(cursor: Option<Seq<char>>) -> Option<(Option<AnchorModel>, i64)> {
    match cursor {
        None => Some((None, 1i64)),
        Some(text) => match cursor_anchor(text) {
            Some(anchor) => Some((Some(anchor), anchor.page_number)),
            None => None,
        },
    }
}

/// Whether `page` is the page numbered `number` that a listing of `rows`
/// from `start` begins with.
///
/// Its items are the first rows of the listing, at most `page_size` of them.
/// It names a cursor if and only if it holds a row and the listing holds more
/// rows than the page does; what the page leaves out is what a listing from
/// its last row holds. The cursor is that of the last row's place with the
/// next page number, and stands for that anchor when read back.
pub open spec fn listing_answer(
    rows: Seq<MovieModel>,
    start: Option<AnchorModel>,
    number: i64,
    page_size: int,
    page: PageModel<MovieModel>,
) -> bool {
    &&& page.page_number == number
    &&& is_page_of(rows, start, page_size, page.items)
    &&& page.next_anchor is Some <==> page.items.len() > 0 && listable_count(rows, start)
        > page.items.len()
    &&& page.items.len() > 0 ==> {
        let next = anchor_at(page.items.last(), next_page_number(number));
        &&& listable_count(rows, start) - page.items.len() == listable_count(rows, Some(next))
        &&& page.next_anchor matches Some(text) ==> {
            &&& text == cursor_text(next)
            &&& encode_utf8(next.title).len() <= MAX_PACKED_TEXT ==> cursor_anchor(text) == Some(
                next,
            )
        }
    }
}

/// The anchor that an optional anchor holds, as a mathematical value.
pub open spec fn anchor_view(anchor: Option<MovieAnchor>) -> Option<AnchorModel> {
    match anchor {
        Some(a) => Some(a@),
        None => None,
    }
}

/// The number nearest to `n` that an `i64` holds.
pub open spec fn nearest_i64(n: int) -> i64 {
    if n < i64::MIN {
        i64::MIN
    } else if n > i64::MAX {
        i64::MAX
    } else {
        n as i64
    }
}

/// The total that the rows of a counted query carry: each row carries the
/// same total, and no row means that nothing was counted.
pub open spec fn counted_total<U>(results: Seq<(U, i64)>) -> int {
    if results.len() > 0 {
        results[0].1 as int
    } else {
        0
    }
}

/// A listing holds none of no rows, and of `n` rows at most `n`.
pub proof fn lemma_listable_among_bounds(rows: Seq<MovieModel>, start: Option<AnchorModel>, n: int)
    requires
        0 <= n,
    ensures
        0 <= listable_among(rows, start, n) <= n,
    decreases n,
{
    if n > 0 {
        lemma_listable_among_bounds(rows, start, n - 1);
    }
}

/// Where a listing holds no row, it counts none, and the other way round.
pub proof fn lemma_listable_none(rows: Seq<MovieModel>, start: Option<AnchorModel>, n: int)
    requires
        0 <= n <= rows.len(),
    ensures
        listable_among(rows, start, n) == 0 <==> forall|j: int|
            0 <= j < n ==> !listable(start, #[trigger] rows[j]),
    decreases n,
{
    if n > 0 {
        lemma_listable_none(rows, start, n - 1);
        lemma_listable_among_bounds(rows, start, n - 1);
    }
}

/// Once the least row of a listing is taken, the listing that goes on from
/// that row holds one row less.
proof fn lemma_listable_step(
    rows: Seq<MovieModel>,
    start: Option<AnchorModel>,
    least: int,
    next: AnchorModel,
    n: int,
)
    requires
        distinct_ids(rows),
        0 <= least < rows.len(),
        0 <= n <= rows.len(),
        listable(start, rows[least]),
        next.key() == rows[least].key(),
        forall|j: int|
            0 <= j < rows.len() && listable(start, #[trigger] rows[j]) ==> j == least || key_before(
                rows[least].key(),
                rows[j].key(),
            ),
    ensures
        listable_among(rows, start, n) == listable_among(rows, Some(next), n) + if least < n {
            1int
        } else {
            0int
        },
    decreases n,
{
    if n > 0 {
        lemma_listable_step(rows, start, least, next, n - 1);
        let row = rows[n - 1];
        lemma_follows_is_after(next, row);
        if n - 1 == least {
            lemma_key_irreflexive(row.key());
        } else {
            if follows(next, row) {
                if let Some(anchor) = start {
                    lemma_follows_is_after(anchor, row);
                    lemma_follows_is_after(anchor, rows[least]);
                    lemma_key_transitive(anchor.key(), rows[least].key(), row.key());
                }
            }
        }
    }
}

/// A listing depends on the place of its anchor only, not on the page
/// number that the anchor carries.
pub proof fn lemma_listing_by_place(
    rows: Seq<MovieModel>,
    a: AnchorModel,
    b: AnchorModel,
    n: int,
)
    requires
        a.key() == b.key(),
    ensures
        listable_among(rows, Some(a), n) == listable_among(rows, Some(b), n),
    decreases n,
{
    if n > 0 {
        lemma_listing_by_place(rows, a, b, n - 1);
    }
}

/// Where the scan for a page stands: `items` were taken, in order, and
/// `bound` is the anchor from which the scan goes on.
spec fn scan_state(
    rows: Seq<MovieModel>,
    first: Option<AnchorModel>,
    bound: Option<AnchorModel>,
    items: Seq<MovieModel>,
) -> bool {
    &&& forall|a: int, b: int|
        0 <= a < b < items.len() ==> key_before(#[trigger] items[a].key(), #[trigger] items[b].key())
    &&& forall|a: int|
        0 <= a < items.len() ==> listable(first, #[trigger] items[a]) && exists|j: int|
            0 <= j < rows.len() && #[trigger] rows[j] == items[a]
    &&& forall|j: int|
        0 <= j < rows.len() && listable(first, #[trigger] rows[j]) ==> on_page(items, rows[j])
            || listable(bound, rows[j])
    &&& items.len() == 0 ==> bound == first
    &&& items.len() > 0 ==> bound == Some(anchor_at(items.last(), 0))
}

proof fn lemma_scan_step(
    rows: Seq<MovieModel>,
    first: Option<AnchorModel>,
    bound: Option<AnchorModel>,
    items: Seq<MovieModel>,
    i: int,
)
    requires
        scan_state(rows, first, bound, items),
        0 <= i < rows.len(),
        listable(bound, rows[i]),
        forall|j: int|
            0 <= j < rows.len() && listable(bound, #[trigger] rows[j]) ==> j == i || key_before(
                rows[i].key(),
                rows[j].key(),
            ),
    ensures
        scan_state(rows, first, Some(anchor_at(rows[i], 0)), items.push(rows[i])),
{
    let picked = rows[i];
    let next = anchor_at(picked, 0);
    let more = items.push(picked);
    if items.len() > 0 {
        let last = items.last();
        lemma_follows_is_after(anchor_at(last, 0), picked);
        if let Some(anchor) = first {
            lemma_follows_is_after(anchor, last);
            lemma_follows_is_after(anchor, picked);
            lemma_key_transitive(anchor.key(), last.key(), picked.key());
        }
        assert forall|a: int| 0 <= a < items.len() implies key_before(
            #[trigger] items[a].key(),
            picked.key(),
        ) by {
            if a < items.len() - 1 {
                lemma_key_transitive(items[a].key(), last.key(), picked.key());
            }
        }
    }
    assert(listable(first, picked));
    assert forall|a: int, b: int| 0 <= a < b < more.len() implies key_before(
        #[trigger] more[a].key(),
        #[trigger] more[b].key(),
    ) by {
        assert(more[a] == items[a]);
        if b < items.len() {
            assert(more[b] == items[b]);
        }
    }
    assert forall|a: int| 0 <= a < more.len() implies listable(first, #[trigger] more[a])
        && exists|j: int| 0 <= j < rows.len() && #[trigger] rows[j] == more[a] by {
        if a < items.len() {
            assert(more[a] == items[a]);
        } else {
            assert(rows[i] == more[a]);
        }
    }
    assert forall|j: int| 0 <= j < rows.len() && listable(first, #[trigger] rows[j]) implies on_page(
        more,
        rows[j],
    ) || listable(Some(next), rows[j]) by {
        lemma_follows_is_after(next, rows[j]);
        if j == i {
            assert(more[more.len() - 1] == rows[j]);
        } else if on_page(items, rows[j]) {
            let a = choose|a: int| 0 <= a < items.len() && #[trigger] items[a] == rows[j];
            assert(more[a] == rows[j]);
        }
    }
    assert(more.last() == picked);
}

proof fn lemma_scan_full(
    rows: Seq<MovieModel>,
    first: Option<AnchorModel>,
    bound: Option<AnchorModel>,
    items: Seq<MovieModel>,
    page_size: int,
)
    requires
        scan_state(rows, first, bound, items),
        items.len() == page_limit(page_size),
    ensures
        is_page_of(rows, first, page_size, items),
{
    assert forall|j: int| 0 <= j < rows.len() && listable(first, #[trigger] rows[j]) implies on_page(
        items,
        rows[j],
    ) || (items.len() == page_limit(page_size) && (items.len() > 0 ==> key_before(
        items.last().key(),
        rows[j].key(),
    ))) by {
        if items.len() > 0 {
            lemma_follows_is_after(anchor_at(items.last(), 0), rows[j]);
        }
    }
}

proof fn lemma_scan_exhausted(
    rows: Seq<MovieModel>,
    first: Option<AnchorModel>,
    bound: Option<AnchorModel>,
    items: Seq<MovieModel>,
    page_size: int,
)
    requires
        scan_state(rows, first, bound, items),
        items.len() <= page_limit(page_size),
        forall|j: int| 0 <= j < rows.len() ==> !listable(bound, #[trigger] rows[j]),
    ensures
        is_page_of(rows, first, page_size, items),
{
}

/// Whether a page of the size asked for can hold a row at all. Where it
/// cannot, the page is empty whatever the store holds, and the store is not
/// asked.
pub fn holds_rows(page_size: i64) -> (r: bool)
    ensures
        r == (page_limit(page_size as int) > 0),
{
    page_size > 0
}

/// Whether a listing from `start` holds `row`.
pub fn is_listable(start: &Option<MovieAnchor>, row: &Movie) -> (r: bool)
    ensures
        r == listable(anchor_view(*start), row@),
{
    row.is_live() && match start {
        Some(anchor) => is_after(anchor, row),
        None => true,
    }
}

/// How many rows a listing from `start` holds.
fn count_listable(table: &MovieTable, start: &Option<MovieAnchor>) -> (n: usize)
    ensures
        n == listable_count(table@, anchor_view(*start)),
{
    let mut n: usize = 0;
    let mut k: usize = 0;
    while k < table.len()
        invariant
            k <= table@.len(),
            n == listable_among(table@, anchor_view(*start), k as int),
            n <= k,
        decreases table@.len() - k,
    {
        if is_listable(start, table.row(k)) {
            n += 1;
        }
        k += 1;
    }
    n
}

/// The place of the first row, in the fixed order, of a listing from
/// `start`.
fn first_listable(table: &MovieTable, start: &Option<MovieAnchor>) -> (first: Option<usize>)
    requires
        table.wf(),
    ensures
        match first {
            Some(i) => {
                &&& i < table@.len()
                &&& listable(anchor_view(*start), table@[i as int])
                &&& forall|j: int|
                    0 <= j < table@.len() && listable(anchor_view(*start), #[trigger] table@[j])
                        ==> j == i || key_before(table@[i as int].key(), table@[j].key())
            },
            None => forall|j: int|
                0 <= j < table@.len() ==> !listable(anchor_view(*start), #[trigger] table@[j]),
        },
{
    let mut best: Option<usize> = None;
    let mut k: usize = 0;
    while k < table.len()
        invariant
            table.wf(),
            k <= table@.len(),
            match best {
                Some(i) => {
                    &&& i < k
                    &&& listable(anchor_view(*start), table@[i as int])
                    &&& forall|j: int|
                        0 <= j < k && listable(anchor_view(*start), #[trigger] table@[j]) ==> j
                            == i || key_before(table@[i as int].key(), table@[j].key())
                },
                None => forall|j: int|
                    0 <= j < k ==> !listable(anchor_view(*start), #[trigger] table@[j]),
            },
        decreases table@.len() - k,
    {
        if is_listable(start, table.row(k)) {
            match best {
                None => {
                    best = Some(k);
                },
                Some(i) => {
                    if listed_before(table.row(k), table.row(i)) {
                        proof {
                            assert forall|j: int|
                                0 <= j < k + 1 && listable(
                                    anchor_view(*start),
                                    #[trigger] table@[j],
                                ) implies j == k || key_before(
                                table@[k as int].key(),
                                table@[j].key(),
                            ) by {
                                if j != k && j != i {
                                    lemma_key_transitive(
                                        table@[k as int].key(),
                                        table@[i as int].key(),
                                        table@[j].key(),
                                    );
                                }
                            }
                        }
                        best = Some(k);
                    } else {
                        proof {
                            lemma_key_total(table@[i as int].key(), table@[k as int].key());
                        }
                    }
                },
            }
        }
        k += 1;
    }
    best
}

/// Runs the listing query: the rows of the page that a listing from
/// `start` begins with, and how many rows of the listing that page leaves
/// out.
pub fn load_and_count_remaining(table: &MovieTable, start: Option<MovieAnchor>, page_size: i64) -> (answer: (
    Vec<Movie>,
    usize,
))
    requires
        table.wf(),
    ensures
        is_page_of(table@, anchor_view(start), page_size as int, views(answer.0@)),
        answer.1 == listable_count(table@, anchor_view(start)) - answer.0@.len(),
        answer.0@.len() > 0 ==> answer.1 == listable_count(
            table@,
            Some(anchor_at(answer.0@.last()@, 0)),
        ),
{
    let total = count_listable(table, &start);
    let ghost first = anchor_view(start);
    let mut bound = start;
    let mut items: Vec<Movie> = Vec::new();
    proof {
        lemma_listable_among_bounds(table@, first, table@.len() as int);
    }
    loop
        invariant
            table.wf(),
            items@.len() <= page_limit(page_size as int),
            scan_state(table@, first, anchor_view(bound), views(items@)),
            total == items@.len() + listable_count(table@, anchor_view(bound)),
            0 <= listable_count(table@, anchor_view(bound)),
        ensures
            is_page_of(table@, first, page_size as int, views(items@)),
            total == items@.len() + listable_count(table@, anchor_view(bound)),
            items@.len() > 0 ==> anchor_view(bound) == Some(anchor_at(items@.last()@, 0)),
        decreases page_limit(page_size as int) - items@.len(),
    {
        if page_size <= 0 || items.len() as u64 >= page_size as u64 {
            proof {
                lemma_scan_full(table@, first, anchor_view(bound), views(items@), page_size as int);
            }
            break ;
        }
        match first_listable(table, &bound) {
            None => {
                proof {
                    lemma_scan_exhausted(
                        table@,
                        first,
                        anchor_view(bound),
                        views(items@),
                        page_size as int,
                    );
                }
                break ;
            },
            Some(i) => {
                let row = table.row(i);
                let next = MovieAnchor {
                    title: row.title.clone(),
                    release_date: row.release_date,
                    id: row.id,
                    page_number: 0,
                };
                proof {
                    assert(next@ == anchor_at(table@[i as int], 0));
                    lemma_listable_step(
                        table@,
                        anchor_view(bound),
                        i as int,
                        next@,
                        table@.len() as int,
                    );
                    lemma_listable_among_bounds(table@, Some(next@), table@.len() as int);
                    lemma_scan_step(table@, first, anchor_view(bound), views(items@), i as int);
                }
                let ghost old_items = views(items@);
                items.push(row.clone());
                bound = Some(next);
                proof {
                    assert(views(items@) =~= old_items.push(table@[i as int]));
                }
            },
        }
    }
    let remaining = total - items.len();
    (items, remaining)
}

/// Where the listing named by a cursor starts, and the number of its first
/// page.
pub fn listing_start(anchor: &Option<String>) -> (start: Result<(Option<MovieAnchor>, i64), Error>)
    ensures
        start is Ok <==> start_of(text_of(*anchor)) is Some,
        start matches Ok(s) ==> start_of(text_of(*anchor)) == Some((anchor_view(s.0), s.1)),
        start matches Err(e) ==> e.client_input() && (e is AnchorDecodeError <==> url_safe_bytes(
            anchor->0@,
        ) is None),
{
    match anchor {
        None => Ok((None, 1)),
        Some(text) => {
            let anch = deserialize_anchor(text.clone())?;
            let number = anch.page_number;
            Ok((Some(anch), number))
        },
    }
}

/// The page numbered `page_number` that holds `items`, where the listing
/// holds `remaining` rows more: with the cursor to go on from the last item,
/// if there is an item and more remain.
pub fn page_after(items: Vec<Movie>, remaining: i64, page_number: i64) -> (page: Page<Movie>)
    ensures
        page@.items == views(items@),
        page@.page_number == page_number,
        page@.next_anchor is Some <==> items@.len() > 0 && remaining > 0,
        page@.next_anchor matches Some(text) ==> {
            let next = anchor_at(items@.last()@, next_page_number(page_number));
            &&& text == cursor_text(next)
            &&& encode_utf8(next.title).len() <= MAX_PACKED_TEXT ==> cursor_anchor(text) == Some(
                next,
            )
        },
{
    let next_anchor = if items.len() > 0 && remaining > 0 {
        let last = &items[items.len() - 1];
        let next = MovieAnchor {
            title: last.title.clone(),
            release_date: last.release_date,
            id: last.id,
            page_number: if page_number < i64::MAX {
                page_number + 1
            } else {
                page_number
            },
        };
        Some(serialize_anchor(next))
    } else {
        None
    };
    Page { page_number, next_anchor, items }
}

/// One page of the listing of the records that were not struck out, in the
/// fixed order: the first page where no cursor is given, else the page that
/// the cursor names.
///
/// Fails, without looking at the table, on a cursor that stands for no
/// anchor.
pub fn find_movies(table: &MovieTable, page_size: i64, anchor: &Option<String>) -> (result: Result<
    Page<Movie>,
    Error,
>)
    requires
        table.wf(),
    ensures
        result is Ok <==> start_of(text_of(*anchor)) is Some,
        result matches Ok(page) ==> {
            let (start, number) = start_of(text_of(*anchor))->0;
            listing_answer(table@, start, number, page_size as int, page@)
        },
        result matches Err(e) ==> e.client_input() && (e is AnchorDecodeError <==> url_safe_bytes(
            anchor->0@,
        ) is None),
{
    let (start, number) = listing_start(anchor)?;
    let ghost first = anchor_view(start);
    let (items, remaining) = load_and_count_remaining(table, start, page_size);
    let more: i64 = if remaining > 0 {
        1
    } else {
        0
    };
    proof {
        if items@.len() > 0 {
            lemma_listing_by_place(
                table@,
                anchor_at(items@.last()@, 0),
                anchor_at(items@.last()@, next_page_number(number)),
                table@.len() as int,
            );
        }
    }
    Ok(page_after(items, more, number))
}

/// The number nearest to `n` that an `i64` holds.
pub fn nearest(n: i128) -> (r: i64)
    ensures
        r == nearest_i64(n as int),
{
    if n < i64::MIN as i128 {
        i64::MIN
    } else if n > i64::MAX as i128 {
        i64::MAX
    } else {
        n as i64
    }
}

/// What the rows of a counted query come down to: the records, in the order
/// of the rows, and how many records the query counted beyond these.
pub fn records_and_remaining<U>(results: Vec<(U, i64)>) -> (answer: (Vec<U>, i64))
    ensures
        answer.0@.len() == results@.len(),
        forall|i: int| 0 <= i < results@.len() ==> answer.0@[i] == (#[trigger] results@[i]).0,
        answer.1 == nearest_i64(counted_total(results@) - results@.len()),
{
    let total: i64 = if results.len() > 0 {
        results[0].1
    } else {
        0
    };
    let length = results.len() as u64;
    let remaining = nearest(total as i128 - length as i128);
    let mut rest = reversed(results);
    let mut records: Vec<U> = Vec::new();
    while rest.len() > 0
        invariant
            rest@.len() + records@.len() == results@.len(),
            forall|i: int|
                0 <= i < rest@.len() ==> #[trigger] rest@[i] == results@[results@.len() - 1 - i],
            forall|i: int| 0 <= i < records@.len() ==> records@[i] == (#[trigger] results@[i]).0,
        decreases rest@.len(),
    {
        let row = rest.pop().unwrap();
        records.push(row.0);
    }
    (records, remaining)
}

} // verus!
