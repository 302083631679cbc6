//! The primary store, held in memory: the rows of the catalog, and what the
//! catalog asks of them by identifier.
//!
//! The table is the store against which the catalog's rules are stated. A
//! store of another make takes its place where it answers the same queries
//! with the same rows.

use crate::change::{applied, ChangesetModel, MovieChangeset};
use crate::ident::Uuid;
use crate::record::{views, Movie, MovieModel, Page};
use vstd::prelude::*;

verus! {

/// No two rows share an identifier.
pub open spec fn distinct_ids(rows: Seq<MovieModel>) -> bool {
    forall|i: int, j: int| 0 <= i < j < rows.len() ==> rows[i].id != rows[j].id
}

/// The rows of the catalog. No two rows share an identifier.
pub struct MovieTable {
    rows: Vec<Movie>,
}

impl View for MovieTable {
    type V = Seq<MovieModel>;

    closed spec fn view(&self) -> Seq<MovieModel> {
        views(self.rows@)
    }
}

impl MovieTable {
    /// The table keeps to its rule.
    pub open spec fn wf(&self) -> bool {
        distinct_ids(self@)
    }

    /// A table without rows.
    pub fn new() -> (table: Self)
        ensures
            table.wf(),
            table@.len() == 0,
    {
        MovieTable { rows: Vec::new() }
    }

    /// The number of rows, struck out or not.
    pub fn len(&self) -> (n: usize)
        ensures
            n == self@.len(),
    {
        self.rows.len()
    }

    /// The row at a place of the table.
    pub fn row(&self, at: usize) -> (row: &Movie)
        requires
            at < self@.len(),
        ensures
            row@ == self@[at as int],
    {
        &self.rows[at]
    }
}

/// Whether a row of the identifier stands in the table.
pub open spec fn holds_id(rows: Seq<MovieModel>, id: Uuid) -> bool {
    exists|j: int| 0 <= j < rows.len() && (#[trigger] rows[j]).id == id
}

/// Whether `found` is what a lookup of `id` gives: the row of that
/// identifier if it stands in the table and was not struck out.
pub open spec fn is_lookup(rows: Seq<MovieModel>, id: Uuid, found: Option<MovieModel>) -> bool {
    match found {
        Some(row) => row.id == id && row.live() && rows.contains(row),
        None => forall|j: int| 0 <= j < rows.len() ==> !((#[trigger] rows[j]).id == id && rows[j].live()),
    }
}

/// The rows whose identifier is among `ids` and which were not struck out, in
/// the order of the table.
pub open spec fn live_with_ids(rows: Seq<MovieModel>, ids: Seq<Uuid>) -> Seq<MovieModel>
    decreases rows.len(),
{
    if rows.len() == 0 {
        Seq::empty()
    } else {
        let rest = live_with_ids(rows.drop_last(), ids);
        if rows.last().live() && ids.contains(rows.last().id) {
            rest.push(rows.last())
        } else {
            rest
        }
    }
}

/// The rows with the changes applied to those whose identifier is among
/// `ids`.
pub open spec fn rows_changed(rows: Seq<MovieModel>, ids: Seq<Uuid>, change: ChangesetModel) -> Seq<
    MovieModel,
> {
    Seq::new(
        rows.len(),
        |j: int|
            if ids.contains(rows[j].id) {
                applied(change, rows[j])
            } else {
                rows[j]
            },
    )
}

/// The rows whose identifier is among `ids`, in the order of the table, with
/// the changes applied.
pub open spec fn changed_among(rows: Seq<MovieModel>, ids: Seq<Uuid>, change: ChangesetModel) -> Seq<
    MovieModel,
>
    decreases rows.len(),
{
    if rows.len() == 0 {
        Seq::empty()
    } else {
        let rest = changed_among(rows.drop_last(), ids, change);
        if ids.contains(rows.last().id) {
            rest.push(applied(change, rows.last()))
        } else {
            rest
        }
    }
}

/// The rows that may not be purged, in the order of the table.
pub open spec fn unpurged(rows: Seq<MovieModel>) -> Seq<MovieModel>
    decreases rows.len(),
{
    if rows.len() == 0 {
        Seq::empty()
    } else {
        let rest = unpurged(rows.drop_last());
        if rows.last().purgeable() {
            rest
        } else {
            rest.push(rows.last())
        }
    }
}

proof fn lemma_remove_keeps_distinct(rows: Seq<MovieModel>, at: int)
    requires
        distinct_ids(rows),
        0 <= at < rows.len(),
    ensures
        distinct_ids(rows.remove(at)),
{
    let less = rows.remove(at);
    assert forall|i: int, j: int| 0 <= i < j < less.len() implies less[i].id != less[j].id by {
        let a = if i < at {
            i
        } else {
            i + 1
        };
        let b = if j < at {
            j
        } else {
            j + 1
        };
        assert(less[i] == rows[a] && less[j] == rows[b]);
    }
}

/// Whether `id` is among `ids`.
pub fn contains_id(ids: &Vec<Uuid>, id: Uuid) -> (r: bool)
    ensures
        r == ids@.contains(id),
{
    let mut i: usize = 0;
    while i < ids.len()
        invariant
            i <= ids@.len(),
            forall|j: int| 0 <= j < i ==> ids@[j] != id,
        decreases ids@.len() - i,
    {
        if ids[i] == id {
            return true;
        }
        i += 1;
    }
    false
}

impl MovieTable {
    /// The place of the row of the identifier.
    fn position(&self, id: Uuid) -> (at: Option<usize>)
        ensures
            match at {
                Some(i) => i < self@.len() && self@[i as int].id == id,
                None => !holds_id(self@, id),
            },
    {
        let mut i: usize = 0;
        while i < self.rows.len()
            invariant
                i <= self.rows@.len(),
                forall|j: int| 0 <= j < i ==> (#[trigger] self@[j]).id != id,
            decreases self.rows@.len() - i,
        {
            if self.rows[i].id == id {
                return Some(i);
            }
            i += 1;
        }
        None
    }
}

/// The record of the identifier, unless it was struck out.
pub fn find_one_movie(table: &MovieTable, movie_id: Uuid) -> (found: Option<Movie>)
    requires
        table.wf(),
    ensures
        is_lookup(
            table@,
            movie_id,
            match found {
                Some(m) => Some(m@),
                None => None,
            },
        ),
{
    match table.position(movie_id) {
        Some(i) => {
            let row = &table.rows[i];
            if row.is_live() {
                Some(row.clone())
            } else {
                assert forall|j: int| 0 <= j < table@.len() implies !((#[trigger] table@[j]).id
                    == movie_id && table@[j].live()) by {
                    if j != i {
                        assert(table@[j].id != table@[i as int].id);
                    }
                }
                None
            }
        },
        None => None,
    }
}

/// The records of the identifiers given that were not struck out, as one page:
/// in the order of the table, whatever the order of the identifiers.
pub fn find_movies_with_ids(table: &MovieTable, ids: &Vec<Uuid>) -> (page: Page<Movie>)
    ensures
        page@.page_number == 1,
        page@.next_anchor is None,
        page@.items == live_with_ids(table@, ids@),
{
    let mut items: Vec<Movie> = Vec::new();
    let mut k: usize = 0;
    while k < table.rows.len()
        invariant
            k <= table.rows@.len(),
            views(items@) == live_with_ids(table@.take(k as int), ids@),
        decreases table.rows@.len() - k,
    {
        let row = &table.rows[k];
        proof {
            assert(table@.take(k + 1).drop_last() =~= table@.take(k as int));
        }
        let ghost before = views(items@);
        if row.is_live() && contains_id(ids, row.id) {
            items.push(row.clone());
            assert(views(items@) =~= before.push(table@[k as int]));
        }
        k += 1;
    }
    assert(table@.take(table@.len() as int) =~= table@);
    Page { page_number: 1, next_anchor: None, items }
}

/// Puts a record into the table, unless a row of its identifier stands
/// there, struck out or not: then the table stays as it is and nothing comes
/// back.
pub fn create_movie(table: &mut MovieTable, movie: Movie) -> (created: Option<Movie>)
    requires
        old(table).wf(),
    ensures
        final(table).wf(),
        holds_id(old(table)@, movie.id) ==> created is None && final(table)@ == old(table)@,
        !holds_id(old(table)@, movie.id) ==> final(table)@ == old(table)@.push(movie@) && (
        created matches Some(m) && m@ == movie@),
{
    match table.position(movie.id) {
        Some(_) => None,
        None => {
            let copy = movie.clone();
            let ghost before = table@;
            table.rows.push(movie);
            proof {
                assert(table@ =~= before.push(movie@));
                assert forall|i: int, j: int| 0 <= i < j < table@.len() implies table@[i].id
                    != table@[j].id by {
                    if j == before.len() {
                        assert(before[i].id != movie.id);
                    }
                }
            }
            Some(copy)
        },
    }
}

/// Applies the changes to the rows whose identifier is among those given,
/// struck out or not, and hands back those rows as they are afterwards, in
/// the order of the table.
pub fn update_movies(table: &mut MovieTable, movie_ids: &Vec<Uuid>, movie: &MovieChangeset) -> (updated:
    Vec<Movie>)
    requires
        old(table).wf(),
    ensures
        final(table).wf(),
        final(table)@ == rows_changed(old(table)@, movie_ids@, movie@),
        views(updated@) == changed_among(old(table)@, movie_ids@, movie@),
{
    let mut updated: Vec<Movie> = Vec::new();
    if movie_ids.len() == 0 {
        proof {
            lemma_nothing_changes(table@, movie_ids@, movie@, table@.len() as int);
            assert(table@.take(table@.len() as int) =~= table@);
            assert(table@ =~= rows_changed(table@, movie_ids@, movie@));
        }
        return updated;
    }
    let ghost before = table@;
    let mut k: usize = 0;
    while k < table.rows.len()
        invariant
            k <= table.rows@.len(),
            table@.len() == before.len(),
            forall|j: int| 0 <= j < k ==> table@[j] == rows_changed(before, movie_ids@, movie@)[j],
            forall|j: int| k <= j < before.len() ==> table@[j] == before[j],
            views(updated@) == changed_among(before.take(k as int), movie_ids@, movie@),
        decreases table.rows@.len() - k,
    {
        proof {
            assert(before.take(k + 1).drop_last() =~= before.take(k as int));
        }
        if contains_id(movie_ids, table.rows[k].id) {
            let after = movie.apply(&table.rows[k]);
            let ghost seen = views(updated@);
            let ghost rows_before = table@;
            updated.push(after.clone());
            table.rows.set(k, after);
            proof {
                assert(views(updated@) =~= seen.push(applied(movie@, before[k as int])));
                assert forall|j: int| 0 <= j < table@.len() implies table@[j] == if j == k {
                    applied(movie@, before[k as int])
                } else {
                    rows_before[j]
                } by {}
            }
        }
        k += 1;
    }
    proof {
        assert(before.take(before.len() as int) =~= before);
        assert(table@ =~= rows_changed(before, movie_ids@, movie@));
        assert forall|i: int, j: int| 0 <= i < j < table@.len() implies table@[i].id != table@[j].id by {
            assert(table@[i].id == before[i].id && table@[j].id == before[j].id);
        }
    }
    updated
}

/// Changes to the rows of no identifier change no row.
pub proof fn lemma_none_named(rows: Seq<MovieModel>, ids: Seq<Uuid>, change: ChangesetModel)
    requires
        ids.len() == 0,
    ensures
        rows_changed(rows, ids, change) == rows,
{
    assert(rows_changed(rows, ids, change) =~= rows);
}

proof fn lemma_nothing_changes(rows: Seq<MovieModel>, ids: Seq<Uuid>, change: ChangesetModel, n: int)
    requires
        ids.len() == 0,
        0 <= n <= rows.len(),
    ensures
        changed_among(rows.take(n), ids, change) == Seq::<MovieModel>::empty(),
    decreases n,
{
    if n > 0 {
        lemma_nothing_changes(rows, ids, change, n - 1);
        assert(rows.take(n).drop_last() =~= rows.take(n - 1));
    }
}

/// Applies the changes to the row of the identifier, struck out or not, and
/// hands back the row as it is afterwards; nothing where no row has the
/// identifier.
pub fn update_movie(table: &mut MovieTable, movie_id: Uuid, movie: &MovieChangeset) -> (updated: Option<
    Movie,
>)
    requires
        old(table).wf(),
    ensures
        final(table).wf(),
        final(table)@ == rows_changed(old(table)@, seq![movie_id], movie@),
        updated is Some <==> holds_id(old(table)@, movie_id),
        updated matches Some(m) ==> exists|j: int|
            0 <= j < old(table)@.len() && (#[trigger] old(table)@[j]).id == movie_id && m@ == applied(
                movie@,
                old(table)@[j],
            ),
{
    let ghost before = table@;
    match table.position(movie_id) {
        None => {
            proof {
                assert forall|j: int| 0 <= j < before.len() implies !seq![movie_id].contains(
                    (#[trigger] before[j]).id,
                ) by {
                    if seq![movie_id].contains(before[j].id) {
                        assert(before[j].id == movie_id);
                    }
                }
                assert(before =~= rows_changed(before, seq![movie_id], movie@));
            }
            None
        },
        Some(i) => {
            let after = movie.apply(&table.rows[i]);
            let copy = after.clone();
            table.rows.set(i, after);
            proof {
                assert(seq![movie_id][0] == movie_id);
                assert forall|j: int| 0 <= j < before.len() implies table@[j] == rows_changed(
                    before,
                    seq![movie_id],
                    movie@,
                )[j] by {
                    if j != i {
                        assert(before[j].id != before[i as int].id);
                        if seq![movie_id].contains(before[j].id) {
                            assert(before[j].id == movie_id);
                        }
                    }
                }
                assert(table@ =~= rows_changed(before, seq![movie_id], movie@));
                assert forall|a: int, b: int| 0 <= a < b < table@.len() implies table@[a].id
                    != table@[b].id by {
                    assert(table@[a].id == before[a].id && table@[b].id == before[b].id);
                }
            }
            Some(copy)
        },
    }
}

/// Takes the row of the identifier out of the table for good, struck out or
/// not, and says whether there was one.
pub fn delete_movie(table: &mut MovieTable, movie_id: Uuid) -> (was_present: bool)
    requires
        old(table).wf(),
    ensures
        final(table).wf(),
        was_present == holds_id(old(table)@, movie_id),
        !holds_id(final(table)@, movie_id),
        was_present ==> exists|j: int|
            0 <= j < old(table)@.len() && (#[trigger] old(table)@[j]).id == movie_id && final(table)@
                == old(table)@.remove(j),
        !was_present ==> final(table)@ == old(table)@,
{
    let ghost before = table@;
    match table.position(movie_id) {
        None => false,
        Some(i) => {
            table.rows.remove(i);
            proof {
                assert(table@ =~= before.remove(i as int));
                lemma_remove_keeps_distinct(before, i as int);
                assert forall|j: int| 0 <= j < table@.len() implies (#[trigger] table@[j]).id
                    != movie_id by {
                    let a = if j < i {
                        j
                    } else {
                        j + 1
                    };
                    assert(table@[j] == before[a]);
                    assert(before[a].id != before[i as int].id);
                }
            }
            true
        },
    }
}

/// Takes out of the table, for good, every row that may be purged: that was
/// struck out and was brought to the search index after that. Hands back how
/// many rows went.
pub fn delete_soft_deleted(table: &mut MovieTable) -> (purged: usize)
    requires
        old(table).wf(),
    ensures
        final(table).wf(),
        final(table)@ == unpurged(old(table)@),
        purged == old(table)@.len() - final(table)@.len(),
{
    let ghost before = table@;
    let mut purged: usize = 0;
    let mut i: usize = 0;
    let total = table.rows.len();
    proof {
        assert(before.len() == total);
        assert(before.take(0) =~= Seq::<MovieModel>::empty());
        assert(before.skip(0) =~= before);
        assert(table@ =~= unpurged(before.take(0)) + before.skip(0));
    }
    while i < table.rows.len()
        invariant
            table.wf(),
            before.len() == total,
            i + purged <= before.len(),
            i == unpurged(before.take(i + purged)).len(),
            table@ == unpurged(before.take(i + purged)) + before.skip(i + purged),
        decreases table.rows@.len() - i,
    {
        let ghost k = i + purged;
        let ghost rows_now = table@;
        proof {
            assert(before.take(k + 1).drop_last() =~= before.take(k));
            assert(table@[i as int] == before[k]);
            assert(before.skip(k).len() > 0);
        }
        if table.rows[i].is_purgeable() {
            table.rows.remove(i);
            purged += 1;
            proof {
                assert(table@ =~= rows_now.remove(i as int));
                lemma_remove_keeps_distinct(rows_now, i as int);
                assert(table@ =~= unpurged(before.take(k + 1)) + before.skip(k + 1));
            }
        } else {
            i += 1;
            proof {
                assert(table@ =~= unpurged(before.take(k + 1)) + before.skip(k + 1));
            }
        }
    }
    proof {
        assert(before.skip(i + purged).len() == 0);
        assert(before.take(before.len() as int) =~= before);
        assert(table@ =~= unpurged(before));
    }
    purged
}

/// A row stays in the table if and only if it may not be purged.
pub proof fn lemma_unpurged_rows(rows: Seq<MovieModel>, row: MovieModel)
    ensures
        unpurged(rows).contains(row) <==> rows.contains(row) && !row.purgeable(),
    decreases rows.len(),
{
    if rows.len() > 0 {
        let rest = rows.drop_last();
        lemma_unpurged_rows(rest, row);
        let kept = unpurged(rows);
        if unpurged(rest).contains(row) {
            let at = choose|at: int| 0 <= at < unpurged(rest).len() && unpurged(rest)[at] == row;
            assert(kept[at] == row);
            let j = choose|j: int| 0 <= j < rest.len() && rest[j] == row;
            assert(rows[j] == row);
        }
        if rows.contains(row) && !row.purgeable() {
            let j = choose|j: int| 0 <= j < rows.len() && rows[j] == row;
            if j == rows.len() - 1 {
                assert(kept[kept.len() - 1] == row);
            } else {
                assert(rest[j] == row);
            }
        }
        if kept.contains(row) {
            let at = choose|at: int| 0 <= at < kept.len() && kept[at] == row;
            if !rows.last().purgeable() && at == kept.len() - 1 {
                assert(rows[rows.len() - 1] == row);
            } else {
                assert(unpurged(rest)[at] == row);
            }
        }
    }
}

/// Once the purge has run, no row is left of the identifier of a row that
/// might be purged: a lookup of the identifier finds nothing.
pub proof fn lemma_purged_is_gone(rows: Seq<MovieModel>, row: MovieModel)
    requires
        distinct_ids(rows),
        rows.contains(row),
        row.purgeable(),
    ensures
        !holds_id(unpurged(rows), row.id),
        is_lookup(unpurged(rows), row.id, None),
{
    let kept = unpurged(rows);
    assert forall|k: int| 0 <= k < kept.len() implies (#[trigger] kept[k]).id != row.id by {
        let other = kept[k];
        if other.id == row.id {
            assert(kept.contains(other));
            lemma_unpurged_rows(rows, other);
            let a = choose|a: int| 0 <= a < rows.len() && rows[a] == other;
            let b = choose|b: int| 0 <= b < rows.len() && rows[b] == row;
            if a < b {
                assert(rows[a].id != rows[b].id);
            } else if b < a {
                assert(rows[b].id != rows[a].id);
            }
        }
    }
}

} // verus!
