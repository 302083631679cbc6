//! The records that wait to be brought to the search index, oldest first.

use crate::db::MovieTable;
use crate::listing::{on_page, page_limit};
use crate::record::{views, Movie, MovieModel};
use crate::time::Timestamp;
use vstd::prelude::*;

verus! {

/// Whether a record last indexed at `a` is fetched before one last indexed
/// at `b`: the earlier instant first, and a record never indexed before all
/// that were.
pub open spec fn indexed_first(a: Option<Timestamp>, b: Option<Timestamp>) -> bool {
    match (a, b) {
        (None, Some(_)) => true,
        (Some(x), Some(y)) => x.before(y),
        _ => false,
    }
}

/// Whether `batch` is what a fetch of at most `page_size` stale rows gives:
/// stale rows only, none of them twice, oldest first; and every stale row,
/// unless the batch is full, in which case no stale row left out is older
/// than a row of the batch.
pub open spec fn is_stale_batch(rows: Seq<MovieModel>, page_size: int, batch: Seq<MovieModel>) -> bool {
    &&& batch.len() <= page_limit(page_size)
    &&& forall|a: int|
        0 <= a < batch.len() ==> (#[trigger] batch[a]).stale() && exists|j: int|
            0 <= j < rows.len() && #[trigger] rows[j] == batch[a]
    &&& forall|a: int, b: int|
        0 <= a < b < batch.len() ==> (#[trigger] batch[a]).id != (#[trigger] batch[b]).id
            && !indexed_first(batch[b].indexed, batch[a].indexed)
    &&& forall|j: int|
        0 <= j < rows.len() && (#[trigger] rows[j]).stale() ==> on_page(batch, rows[j]) || (
        batch.len() == page_limit(page_size) && (batch.len() > 0 ==> !indexed_first(
            rows[j].indexed,
            batch.last().indexed,
        )))
}

/// The instant of the last indexing as a number, with a number below all
/// instants for a record never indexed.
spec fn age(indexed: Option<Timestamp>) -> int {
    match indexed {
        Some(at) => at.micros as int,
        None => i64::MIN - 1,
    }
}

/// Whether the row at `p` is fetched before the row at `q`: the older one
/// first, and of two of the same age the one that stands first in the table.
spec fn earlier(rows: Seq<MovieModel>, p: int, q: int) -> bool {
    age(rows[p].indexed) < age(rows[q].indexed) || (age(rows[p].indexed) == age(rows[q].indexed)
        && p < q)
}

/// Whether the fetch, having taken the row at `last` (or none yet), may take
/// the row at `j` next.
spec fn waiting(rows: Seq<MovieModel>, last: Option<usize>, j: int) -> bool {
    rows[j].stale() && (last matches Some(p) ==> earlier(rows, p as int, j))
}

fn age_of(indexed: &Option<Timestamp>) -> (n: i128)
    ensures
        n == age(*indexed),
{
    match indexed {
        Some(at) => at.micros as i128,
        None => i64::MIN as i128 - 1,
    }
}

/// The place of the row to take next: the first, in the order of the fetch,
/// of those that wait.
fn next_waiting(table: &MovieTable, last: Option<usize>) -> (next: Option<usize>)
    requires
        last matches Some(p) ==> p < table@.len(),
    ensures
        match next {
            Some(i) => {
                &&& i < table@.len()
                &&& waiting(table@, last, i as int)
                &&& forall|j: int|
                    0 <= j < table@.len() && waiting(table@, last, j) ==> j == i || earlier(
                        table@,
                        i as int,
                        j,
                    )
            },
            None => forall|j: int| 0 <= j < table@.len() ==> !waiting(table@, last, j),
        },
{
    let mut best: Option<usize> = None;
    let mut k: usize = 0;
    while k < table.len()
        invariant
            k <= table@.len(),
            last matches Some(p) ==> p < table@.len(),
            match best {
                Some(i) => {
                    &&& i < k
                    &&& waiting(table@, last, i as int)
                    &&& forall|j: int|
                        0 <= j < k && waiting(table@, last, j) ==> j == i || earlier(
                            table@,
                            i as int,
                            j,
                        )
                },
                None => forall|j: int| 0 <= j < k ==> !waiting(table@, last, j),
            },
        decreases table@.len() - k,
    {
        let row = table.row(k);
        let row_age = age_of(&row.indexed);
        let waits = row.is_stale() && match last {
            None => true,
            Some(p) => {
                let last_age = age_of(&table.row(p).indexed);
                last_age < row_age || (last_age == row_age && p < k)
            },
        };
        if waits {
            match best {
                None => {
                    best = Some(k);
                },
                Some(i) => {
                    // a row found later is taken only if it is older
                    if row_age < age_of(&table.row(i).indexed) {
                        best = Some(k);
                    }
                },
            }
        }
        k += 1;
    }
    best
}

/// The place of the row taken last.
spec fn last_of(picks: Seq<usize>) -> Option<usize> {
    if picks.len() > 0 {
        Some(picks.last())
    } else {
        None
    }
}

/// Where the fetch stands: the rows at `picks` were taken, in this order.
spec fn fetched(rows: Seq<MovieModel>, picks: Seq<usize>, batch: Seq<MovieModel>) -> bool {
    &&& batch.len() == picks.len()
    &&& forall|a: int|
        0 <= a < picks.len() ==> (#[trigger] picks[a]) < rows.len() && rows[picks[a] as int].stale()
            && batch[a] == rows[picks[a] as int]
    &&& forall|a: int, b: int|
        0 <= a < b < picks.len() ==> earlier(rows, #[trigger] picks[a] as int, #[trigger] picks[b] as int)
    &&& forall|j: int|
        0 <= j < rows.len() && (#[trigger] rows[j]).stale() ==> (exists|a: int|
            0 <= a < picks.len() && #[trigger] picks[a] == j) || (picks.len() > 0 && earlier(
            rows,
            picks.last() as int,
            j,
        )) || picks.len() == 0
}

proof fn lemma_fetch_step(rows: Seq<MovieModel>, picks: Seq<usize>, batch: Seq<MovieModel>, i: usize)
    requires
        fetched(rows, picks, batch),
        i < rows.len(),
        waiting(
            rows,
            last_of(picks),
            i as int,
        ),
        forall|j: int|
            0 <= j < rows.len() && #[trigger] waiting(rows, last_of(picks), j) ==> j == i || earlier(
                rows,
                i as int,
                j,
            ),
    ensures
        fetched(rows, picks.push(i), batch.push(rows[i as int])),
{
    let more = picks.push(i);
    let grown = batch.push(rows[i as int]);
    assert forall|a: int| 0 <= a < more.len() implies (#[trigger] more[a]) < rows.len()
        && rows[more[a] as int].stale() && grown[a] == rows[more[a] as int] by {
        if a < picks.len() {
            assert(more[a] == picks[a]);
        }
    }
    assert forall|a: int, b: int| 0 <= a < b < more.len() implies earlier(
        rows,
        #[trigger] more[a] as int,
        #[trigger] more[b] as int,
    ) by {
        assert(more[a] == picks[a]);
        if b < picks.len() {
            assert(more[b] == picks[b]);
        } else if a < picks.len() - 1 {
            assert(earlier(rows, picks[a] as int, picks[picks.len() - 1] as int));
        }
    }
    assert forall|j: int| 0 <= j < rows.len() && (#[trigger] rows[j]).stale() implies (exists|a: int|
        0 <= a < more.len() && #[trigger] more[a] == j) || earlier(rows, more.last() as int, j) by {
        if j == i {
            assert(more[more.len() - 1] == j);
        } else if exists|a: int| 0 <= a < picks.len() && #[trigger] picks[a] == j {
            let a = choose|a: int| 0 <= a < picks.len() && #[trigger] picks[a] == j;
            assert(more[a] == j);
        } else {
            assert(waiting(rows, last_of(picks), j));
        }
    }
}

proof fn lemma_fetch_done(
    rows: Seq<MovieModel>,
    picks: Seq<usize>,
    batch: Seq<MovieModel>,
    page_size: int,
    exhausted: bool,
)
    requires
        fetched(rows, picks, batch),
        batch.len() <= page_limit(page_size),
        forall|i: int, j: int| 0 <= i < j < rows.len() ==> rows[i].id != rows[j].id,
        if exhausted {
            forall|j: int|
                0 <= j < rows.len() ==> !#[trigger] waiting(rows, last_of(picks), j)
        } else {
            batch.len() == page_limit(page_size)
        },
    ensures
        is_stale_batch(rows, page_size, batch),
{
    assert forall|a: int| 0 <= a < batch.len() implies (#[trigger] batch[a]).stale() && exists|j: int|
        0 <= j < rows.len() && #[trigger] rows[j] == batch[a] by {
        assert(picks[a] < rows.len());
        assert(rows[picks[a] as int] == batch[a]);
    }
    assert forall|a: int, b: int| 0 <= a < b < batch.len() implies (#[trigger] batch[a]).id != (
    #[trigger] batch[b]).id && !indexed_first(batch[b].indexed, batch[a].indexed) by {
        assert(earlier(rows, picks[a] as int, picks[b] as int));
        let p = picks[a] as int;
        let q = picks[b] as int;
        if p < q {
            assert(rows[p].id != rows[q].id);
        } else if q < p {
            assert(rows[q].id != rows[p].id);
        }
    }
    assert forall|j: int| 0 <= j < rows.len() && (#[trigger] rows[j]).stale() implies on_page(
        batch,
        rows[j],
    ) || (batch.len() == page_limit(page_size) && (batch.len() > 0 ==> !indexed_first(
        rows[j].indexed,
        batch.last().indexed,
    ))) by {
        if exists|a: int| 0 <= a < picks.len() && #[trigger] picks[a] == j {
            let a = choose|a: int| 0 <= a < picks.len() && #[trigger] picks[a] == j;
            assert(batch[a] == rows[j]);
        } else {
            if picks.len() > 0 {
                assert(picks[picks.len() - 1] == picks.last());
                assert(batch[batch.len() - 1] == rows[picks.last() as int]);
            }
            assert(waiting(rows, last_of(picks), j));
        }
    }
}

/// The stale records, struck out or not, at most `page_size` of them, those
/// that were never indexed first and then the longest not indexed.
pub fn find_stale_indexed(table: &MovieTable, page_size: i64) -> (stale: Vec<Movie>)
    requires
        table.wf(),
    ensures
        is_stale_batch(table@, page_size as int, views(stale@)),
{
    let mut stale: Vec<Movie> = Vec::new();
    let mut last: Option<usize> = None;
    let ghost mut picks: Seq<usize> = Seq::empty();
    loop
        invariant
            table.wf(),
            stale@.len() <= page_limit(page_size as int),
            fetched(table@, picks, views(stale@)),
            last == last_of(picks),
        ensures
            is_stale_batch(table@, page_size as int, views(stale@)),
        decreases page_limit(page_size as int) - stale@.len(),
    {
        if page_size <= 0 || stale.len() as u64 >= page_size as u64 {
            proof {
                lemma_fetch_done(table@, picks, views(stale@), page_size as int, false);
            }
            break ;
        }
        proof {
            if picks.len() > 0 {
                assert(picks[picks.len() - 1] < table@.len());
            }
        }
        match next_waiting(table, last) {
            None => {
                proof {
                    lemma_fetch_done(table@, picks, views(stale@), page_size as int, true);
                }
                break ;
            },
            Some(i) => {
                proof {
                    lemma_fetch_step(table@, picks, views(stale@), i);
                }
                let ghost before = views(stale@);
                stale.push(table.row(i).clone());
                last = Some(i);
                proof {
                    picks = picks.push(i);
                    assert(views(stale@) =~= before.push(table@[i as int]));
                }
            },
        }
    }
    stale
}

} // verus!
