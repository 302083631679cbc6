//! What the catalog does for its callers, on the primary store.

use crate::change::{
    applied, ChangesetModel, CreateMovieParams, DeleteMovie, IndexMovie, UpdateMovieParams,
};
use crate::db;
use crate::db::{
    changed_among, holds_id, is_lookup, live_with_ids, rows_changed, unpurged, MovieTable,
};
use crate::listing;
use crate::listing::{listing_answer, start_of};
use crate::error::Error;
use crate::ident::{derived_id, HasId, Uuid};
use crate::record::{text_of, views, Movie, MovieModel, Page};
use crate::stale::{find_stale_indexed, is_stale_batch};
use crate::time::{current_time, Timestamp};
use vstd::prelude::*;

verus! {

/// Makes a record of the parameters at the instant `now` and puts it into
/// the table. Where a row of its identifier stands there already, the table
/// stays as it is and that identifier comes back: two records of one title
/// and release date are one record.
pub fn create_movie_at(table: &mut MovieTable, movie: &CreateMovieParams, now: Timestamp) -> (created:
    Result<Movie, HasId>)
    requires
        old(table).wf(),
    ensures
        final(table).wf(),
        match created {
            Ok(m) => {
                &&& m@ == movie.created_at(now)
                &&& !holds_id(old(table)@, m@.id)
                &&& final(table)@ == old(table)@.push(m@)
            },
            Err(taken) => {
                &&& taken.id == movie.created_at(now).id
                &&& holds_id(old(table)@, taken.id)
                &&& final(table)@ == old(table)@
            },
        },
{
    let made = movie.create_at(now);
    let id = made.id;
    match db::create_movie(table, made) {
        Some(m) => Ok(m),
        None => Err(HasId { id }),
    }
}

/// Makes a record of the parameters now, by the system clock, and puts it
/// into the table. Where a row of the identifier that the title and the
/// release date give stands there already, the table stays as it is and that
/// identifier comes back.
pub fn create_movie(table: &mut MovieTable, movie: &CreateMovieParams) -> (created: Result<
    Movie,
    HasId,
>)
    requires
        old(table).wf(),
    ensures
        final(table).wf(),
        created is Err <==> holds_id(old(table)@, derived_id(movie.title@, movie.release_date)),
        match created {
            Ok(m) => {
                &&& m@ == movie.created_at(m@.created)
                &&& !holds_id(old(table)@, m@.id)
                &&& final(table)@ == old(table)@.push(m@)
            },
            Err(taken) => {
                &&& taken.id == derived_id(movie.title@, movie.release_date)
                &&& holds_id(old(table)@, taken.id)
                &&& final(table)@ == old(table)@
            },
        },
{
    create_movie_at(table, movie, current_time())
}

/// Changes the record of the identifier as the parameters ask, at the
/// instant `now`, and hands back the record as it is afterwards; nothing
/// where no row has the identifier.
pub fn update_movie_at(
    table: &mut MovieTable,
    id: Uuid,
    movie: &UpdateMovieParams,
    now: Timestamp,
) -> (updated: Option<Movie>)
    requires
        old(table).wf(),
    ensures
        final(table).wf(),
        final(table)@ == rows_changed(old(table)@, seq![id], movie.changes_at(now)),
        updated is Some <==> holds_id(old(table)@, id),
        updated matches Some(m) ==> exists|j: int|
            0 <= j < old(table)@.len() && (#[trigger] old(table)@[j]).id == id && m@ == applied(
                movie.changes_at(now),
                old(table)@[j],
            ),
{
    let changes = movie.update_at(now);
    db::update_movie(table, id, &changes)
}

/// The record that an optional record holds, as a mathematical value.
pub open spec fn model_of(movie: Option<Movie>) -> Option<MovieModel> {
    match movie {
        Some(m) => Some(m@),
        None => None,
    }
}

/// Whether `after` and `updated` are what applying `changes` to the row of
/// the identifier makes of the rows `before`: the rows with the changes in
/// the row of that identifier and in no other, and that row as it is
/// afterwards, where there is one.
pub open spec fn changed_by(
    before: Seq<MovieModel>,
    id: Uuid,
    changes: ChangesetModel,
    after: Seq<MovieModel>,
    updated: Option<MovieModel>,
) -> bool {
    &&& after == rows_changed(before, seq![id], changes)
    &&& updated is Some <==> holds_id(before, id)
    &&& updated matches Some(m) ==> exists|j: int|
        0 <= j < before.len() && (#[trigger] before[j]).id == id && m == applied(changes, before[j])
}

/// Where no row has the identifier, changes to the row of the identifier
/// change nothing.
pub proof fn lemma_absent_stays(rows: Seq<MovieModel>, id: Uuid, changes: ChangesetModel)
    requires
        !holds_id(rows, id),
    ensures
        rows_changed(rows, seq![id], changes) == rows,
{
    assert forall|j: int| 0 <= j < rows.len() implies !seq![id].contains((#[trigger] rows[j]).id) by {
        if seq![id].contains(rows[j].id) {
            assert(rows[j].id == id);
        }
    }
    assert(rows_changed(rows, seq![id], changes) =~= rows);
}

/// Changes the record of the identifier as the parameters ask, now: at one
/// instant, which the system clock gives, the fields named change and
/// `updated` becomes that instant. The record comes back as it is
/// afterwards; where no row has the identifier, nothing comes back and the
/// table stays as it is.
pub fn update_movie(table: &mut MovieTable, id: Uuid, movie: &UpdateMovieParams) -> (updated: Option<
    Movie,
>)
    requires
        old(table).wf(),
    ensures
        final(table).wf(),
        updated is Some <==> holds_id(old(table)@, id),
        !holds_id(old(table)@, id) ==> final(table)@ == old(table)@,
        exists|now: Timestamp| #[trigger]
            changed_by(old(table)@, id, movie.changes_at(now), final(table)@, model_of(updated)),
{
    let ghost before = table@;
    let now = current_time();
    let updated = update_movie_at(table, id, movie, now);
    proof {
        if !holds_id(before, id) {
            lemma_absent_stays(before, id, movie.changes_at(now));
        }
        assert(changed_by(before, id, movie.changes_at(now), table@, model_of(updated)));
    }
    updated
}

/// Strikes the record of the identifier out at the instant `now`: the row
/// stays, marked as deleted and as changed, until it is purged. Says whether
/// a row had the identifier.
pub fn delete_movie_at(table: &mut MovieTable, id: Uuid, now: Timestamp) -> (soft_deleted: bool)
    requires
        old(table).wf(),
    ensures
        final(table).wf(),
        final(table)@ == rows_changed(old(table)@, seq![id], DeleteMovie::changes_at(now)),
        soft_deleted == holds_id(old(table)@, id),
{
    let changes = DeleteMovie.update_at(now);
    db::update_movie(table, id, &changes).is_some()
}

/// Whether `after` is what striking the row of the identifier out at the
/// instant `now` makes of the rows `before`: the rows with `deleted` and
/// `updated` set to `now` in the row of that identifier, and nothing else
/// changed.
pub open spec fn struck_out_at(
    before: Seq<MovieModel>,
    id: Uuid,
    now: Timestamp,
    after: Seq<MovieModel>,
) -> bool {
    after == rows_changed(before, seq![id], DeleteMovie::changes_at(now))
}

/// Strikes the record of the identifier out, now: at one instant, which the
/// system clock gives, the row is marked as deleted and as changed, and
/// stays in the table until it is purged. Says whether a row had the
/// identifier; where none had, the table stays as it is.
pub fn delete_movie(table: &mut MovieTable, id: Uuid) -> (soft_deleted: bool)
    requires
        old(table).wf(),
    ensures
        final(table).wf(),
        final(table)@.len() == old(table)@.len(),
        soft_deleted == holds_id(old(table)@, id),
        !holds_id(old(table)@, id) ==> final(table)@ == old(table)@,
        exists|now: Timestamp| #[trigger] struck_out_at(old(table)@, id, now, final(table)@),
{
    let ghost before = table@;
    let now = current_time();
    let soft_deleted = delete_movie_at(table, id, now);
    proof {
        if !holds_id(before, id) {
            lemma_absent_stays(before, id, DeleteMovie::changes_at(now));
        }
        assert(struck_out_at(before, id, now, table@));
    }
    soft_deleted
}

/// Purges the records that were struck out and have left the search index,
/// and hands back how many went.
pub fn delete_soft_deleted(table: &mut MovieTable) -> (deleted: usize)
    requires
        old(table).wf(),
    ensures
        final(table).wf(),
        final(table)@ == unpurged(old(table)@),
        deleted == old(table)@.len() - final(table)@.len(),
{
    db::delete_soft_deleted(table)
}

/// The record of the identifier, unless it was struck out.
pub fn find_one_movie(table: &MovieTable, id: Uuid) -> (found: Option<Movie>)
    requires
        table.wf(),
    ensures
        is_lookup(
            table@,
            id,
            match found {
                Some(m) => Some(m@),
                None => None,
            },
        ),
{
    db::find_one_movie(table, id)
}

/// One page of the listing of the catalog.
pub fn find_movies(table: &MovieTable, count: i64, anchor: &Option<String>) -> (result: Result<
    Page<Movie>,
    Error,
>)
    requires
        table.wf(),
    ensures
        result is Ok <==> start_of(text_of(*anchor)) is Some,
        result matches Ok(page) ==> {
            let (start, number) = start_of(text_of(*anchor))->0;
            listing_answer(table@, start, number, count as int, page@)
        },
        result matches Err(e) ==> e.client_input(),
{
    listing::find_movies(table, count, anchor)
}

proof fn lemma_none_asked_for(rows: Seq<MovieModel>, ids: Seq<Uuid>)
    requires
        ids.len() == 0,
    ensures
        live_with_ids(rows, ids) == Seq::<MovieModel>::empty(),
    decreases rows.len(),
{
    if rows.len() > 0 {
        lemma_none_asked_for(rows.drop_last(), ids);
    }
}

/// The records of the identifiers given that were not struck out, as one
/// page. Where no identifier is given, the table is not looked at.
pub fn find_movies_with_ids(table: &MovieTable, ids: &Vec<Uuid>) -> (page: Page<Movie>)
    ensures
        page@.page_number == 1,
        page@.next_anchor is None,
        page@.items == live_with_ids(table@, ids@),
{
    if ids.len() == 0 {
        proof {
            lemma_none_asked_for(table@, ids@);
        }
        let none: Vec<Movie> = Vec::new();
        assert(views(none@) =~= Seq::<MovieModel>::empty());
        return Page { page_number: 1, next_anchor: None, items: none };
    }
    db::find_movies_with_ids(table, ids)
}

/// The records to bring to the search index next, at most `count` of them.
pub fn find_movies_to_index(table: &MovieTable, count: i64) -> (stale: Vec<Movie>)
    requires
        table.wf(),
    ensures
        is_stale_batch(table@, count as int, views(stale@)),
{
    find_stale_indexed(table, count)
}

/// The identifiers of the records, in their order.
pub open spec fn ids_of(movies: Seq<MovieModel>) -> Seq<Uuid> {
    Seq::new(movies.len(), |i: int| movies[i].id)
}

/// Marks the rows of the records given as brought to the search index at
/// the instant `now`, and hands back those rows as they are afterwards.
/// Nothing else of any row changes.
pub fn mark_movies_indexed_at(table: &mut MovieTable, movies: &Vec<Movie>, now: Timestamp) -> (marked:
    Vec<Movie>)
    requires
        old(table).wf(),
    ensures
        final(table).wf(),
        final(table)@ == rows_changed(
            old(table)@,
            ids_of(views(movies@)),
            IndexMovie::changes_at(now),
        ),
        views(marked@) == changed_among(
            old(table)@,
            ids_of(views(movies@)),
            IndexMovie::changes_at(now),
        ),
{
    let mut ids: Vec<Uuid> = Vec::new();
    let mut i: usize = 0;
    while i < movies.len()
        invariant
            i <= movies@.len(),
            ids@.len() == i,
            forall|j: int| 0 <= j < i ==> ids@[j] == (#[trigger] movies@[j]).id,
        decreases movies@.len() - i,
    {
        ids.push(movies[i].id);
        i += 1;
    }
    assert(ids@ =~= ids_of(views(movies@)));
    let changes = IndexMovie.update_at(now);
    db::update_movies(table, &ids, &changes)
}

/// Whether `after` and `marked` are what marking the rows of `movies` as
/// indexed at the instant `now` makes of the rows `before`: the rows with
/// `indexed` set to `now` in those whose identifier is among the records',
/// and those rows as they are afterwards, in the order of the table.
pub open spec fn marked_indexed_at(
    before: Seq<MovieModel>,
    movies: Seq<MovieModel>,
    now: Timestamp,
    after: Seq<MovieModel>,
    marked: Seq<MovieModel>,
) -> bool {
    &&& after == rows_changed(before, ids_of(movies), IndexMovie::changes_at(now))
    &&& marked == changed_among(before, ids_of(movies), IndexMovie::changes_at(now))
}

/// Marks the rows of the records given as brought to the search index now:
/// at one instant, which the system clock gives, for all of them. Nothing
/// else of any row changes, and the rows marked come back as they are
/// afterwards.
pub fn mark_movies_indexed(table: &mut MovieTable, movies: &Vec<Movie>) -> (marked: Vec<Movie>)
    requires
        old(table).wf(),
    ensures
        final(table).wf(),
        final(table)@.len() == old(table)@.len(),
        exists|now: Timestamp| #[trigger]
            marked_indexed_at(old(table)@, views(movies@), now, final(table)@, views(marked@)),
{
    let now = current_time();
    let ghost before = table@;
    let marked = mark_movies_indexed_at(table, movies, now);
    assert(marked_indexed_at(before, views(movies@), now, table@, views(marked@)));
    marked
}

} // verus!
