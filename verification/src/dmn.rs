//! The two background synchronisers: each a cycle that a timer starts, and
//! that runs to its end before the next one may start.

use crate::action::{
    delete_soft_deleted, find_movies_to_index, ids_of, mark_movies_indexed_at,
};
use crate::change::IndexMovie;
use crate::db::{
    changed_among, distinct_ids, holds_id, is_lookup, lemma_none_named, lemma_purged_is_gone,
    rows_changed, unpurged, MovieTable,
};
use crate::ident::Uuid;
use crate::error::Error;
use crate::idx::{
    brought, bulk_op, bulk_operations, bulk_request, index_movies, unreadable_answer, BulkOp,
};
use crate::record::{views, Movie, MovieModel};
use crate::stale::is_stale_batch;
use crate::time::Timestamp;
use vstd::prelude::*;

verus! {

/// The most records that one cycle of the index synchroniser takes.
pub const INDEX_BATCH_SIZE: i64 = 10;

/// What one cycle of the index synchroniser sets out to do.
#[derive(Debug, PartialEq, Eq)]
pub struct IndexBatch {
    /// The stale records of the cycle, oldest first.
    pub movies: Vec<Movie>,
    /// What to ask of the search index, one operation for each record.
    pub operations: Vec<BulkOp>,
}

impl IndexBatch {
    /// Whether the cycle has nothing to do: no record is stale, and the
    /// search index is not called.
    pub fn is_empty(&self) -> (r: bool)
        ensures
            r == (self.movies@.len() == 0),
    {
        self.movies.len() == 0
    }
}

/// Where a cycle of the index synchroniser stands.
#[derive(Clone, Copy, Debug, PartialEq, Eq, Structural)]
pub enum Phase {
    /// No cycle is under way.
    Idle,
    /// The cycle waits for the stale records of the primary store.
    Fetching,
    /// The cycle waits for the search index's answer to its batch.
    Submitting,
    /// The cycle waits for the primary store to mark the batch as indexed.
    Marking,
}

/// Brings stale records to the search index, one batch per cycle.
///
/// A cycle goes from `begin` over `fetched` and `answered` to `finish`: the
/// synchroniser says what is to be done next, and whoever runs it does that
/// on the primary store and the search index and hands back what came of it.
/// `plan` and `settle` are the same two decisions taken on a table at hand.
#[derive(Debug)]
pub struct IndexDaemon {
    phase: Phase,
    batch: Vec<Movie>,
}

impl IndexDaemon {
    /// Where the cycle stands.
    pub closed spec fn phase(&self) -> Phase {
        self.phase
    }

    /// The records of the batch that was sent and is not yet answered.
    pub closed spec fn batch(&self) -> Seq<MovieModel> {
        views(self.batch@)
    }

    /// Whether a cycle is under way.
    pub open spec fn running(&self) -> bool {
        self.phase() != Phase::Idle
    }

    /// A synchroniser at rest.
    pub fn new() -> (daemon: Self)
        ensures
            daemon.phase() == Phase::Idle,
            daemon.batch().len() == 0,
    {
        IndexDaemon { phase: Phase::Idle, batch: Vec::new() }
    }

    /// Whether a cycle is under way.
    pub fn is_running(&self) -> (r: bool)
        ensures
            r == self.running(),
    {
        match self.phase {
            Phase::Idle => false,
            _ => true,
        }
    }

    /// A tick of the timer. Starts a cycle, and says so, unless one is under
    /// way: then the tick passes and nothing changes. A cycle that starts
    /// has the primary store asked for its stale records, at most
    /// `INDEX_BATCH_SIZE` of them, oldest first.
    pub fn begin(&mut self) -> (started: bool)
        ensures
            started == !old(self).running(),
            started ==> final(self).phase() == Phase::Fetching,
            !started ==> final(self).phase() == old(self).phase(),
            final(self).batch() == old(self).batch(),
    {
        match self.phase {
            Phase::Idle => {
                self.phase = Phase::Fetching;
                true
            },
            _ => false,
        }
    }

    /// The stale records that the primary store gave to a cycle that waits
    /// for them. With no stale record the cycle is over and nothing is to be
    /// sent. Else the batch is to be sent to the search index: for each
    /// record, in their order, the operation that removes its document where
    /// the record was struck out, and that puts it else. Off a cycle that
    /// does not wait for records, nothing is to be sent and nothing changes.
    pub fn fetched(&mut self, stale: Vec<Movie>) -> (batch: Option<IndexBatch>)
        ensures
            batch is Some <==> old(self).phase() == Phase::Fetching && stale@.len() > 0,
            batch matches Some(b) ==> {
                &&& views(b.movies@) == views(stale@)
                &&& b.operations@.len() == stale@.len()
                &&& forall|i: int|
                    0 <= i < b.operations@.len() ==> b.operations@[i] == bulk_op(
                        #[trigger] stale@[i]@,
                    )
                &&& final(self).phase() == Phase::Submitting
                &&& final(self).batch() == views(stale@)
            },
            old(self).phase() == Phase::Fetching && stale@.len() == 0 ==> final(self).phase()
                == Phase::Idle && final(self).batch().len() == 0,
            old(self).phase() != Phase::Fetching ==> final(self).phase() == old(self).phase()
                && final(self).batch() == old(self).batch(),
    {
        match self.phase {
            Phase::Fetching => {},
            _ => {
                return None;
            },
        }
        match bulk_request(&stale) {
            None => {
                self.phase = Phase::Idle;
                self.batch = Vec::new();
                None
            },
            Some(operations) => {
                let movies = stale.clone();
                assert(views(movies@) =~= views(stale@));
                self.phase = Phase::Submitting;
                self.batch = stale;
                Some(IndexBatch { movies, operations })
            },
        }
    }

    /// The search index's answer to the batch of a cycle that waits for it:
    /// `errors` is what the answer says of errors among its operations, or
    /// the failure of the call. Only where the answer says that there was
    /// none are the records of the batch handed back, to be marked as
    /// indexed in the primary store. In every other case the cycle is over,
    /// nothing is to be marked, and the records stay stale for the next
    /// cycle. Off a cycle that does not wait for an answer, nothing is to be
    /// marked and nothing changes.
    pub fn answered(&mut self, errors: Result<Option<bool>, Error>) -> (indexed: Result<
        Vec<Movie>,
        Error,
    >)
        ensures
            old(self).phase() != Phase::Submitting ==> {
                &&& indexed matches Ok(none) && none@.len() == 0
                &&& final(self).phase() == old(self).phase()
                &&& final(self).batch() == old(self).batch()
            },
            old(self).phase() == Phase::Submitting ==> {
                &&& final(self).batch().len() == 0
                &&& indexed is Ok <==> errors == Ok::<Option<bool>, Error>(Some(false))
                &&& indexed matches Ok(movies) ==> views(movies@) == old(self).batch()
                    && final(self).phase() == Phase::Marking
                &&& indexed matches Err(e) ==> {
                    &&& final(self).phase() == Phase::Idle
                    &&& errors matches Err(failure) ==> e == failure
                    &&& errors == Ok::<Option<bool>, Error>(Some(true)) ==> e is IndexQueryPartialError
                    &&& errors == Ok::<Option<bool>, Error>(None) ==> e is IndexQueryError
                }
            },
    {
        match self.phase {
            Phase::Submitting => {},
            _ => {
                return Ok(Vec::new());
            },
        }
        let mut batch: Vec<Movie> = Vec::new();
        std::mem::swap(&mut self.batch, &mut batch);
        assert(views(self.batch@) =~= Seq::<MovieModel>::empty());
        let answer = match errors {
            Ok(answer) => answer,
            Err(failure) => {
                self.phase = Phase::Idle;
                return Err(failure);
            },
        };
        match answer {
            Some(false) => {
                self.phase = Phase::Marking;
                Ok(batch)
            },
            Some(true) => {
                self.phase = Phase::Idle;
                Err(Error::IndexQueryPartialError)
            },
            None => {
                self.phase = Phase::Idle;
                Err(unreadable_answer())
            },
        }
    }

    /// The end of a cycle, however it went.
    pub fn finish(&mut self)
        ensures
            final(self).phase() == Phase::Idle,
            final(self).batch().len() == 0,
    {
        self.phase = Phase::Idle;
        self.batch = Vec::new();
    }

    /// What the cycle sets out to do: the stale records, at most ten, oldest
    /// first, and for each of them the operation to ask of the search index:
    /// to remove the document of a record that was struck out, to put the
    /// document of any other. With no stale record there is nothing to do.
    pub fn plan(&self, table: &MovieTable) -> (batch: IndexBatch)
        requires
            table.wf(),
        ensures
            is_stale_batch(table@, INDEX_BATCH_SIZE as int, views(batch.movies@)),
            batch.operations@.len() == batch.movies@.len(),
            forall|i: int|
                0 <= i < batch.operations@.len() ==> batch.operations@[i] == bulk_op(
                    #[trigger] batch.movies@[i]@,
                ),
    {
        let movies = find_movies_to_index(table, INDEX_BATCH_SIZE);
        let operations = bulk_operations(&movies);
        IndexBatch { movies, operations }
    }

    /// Takes the search index's answer to the batch: `errors` is what the
    /// answer says of errors among its operations, or the failure of the
    /// call. Only where the answer says that there was none are the rows of
    /// the batch marked as indexed at `now`, and handed back as they are
    /// afterwards; in every other case no row changes, and the records stay
    /// stale for the next cycle. A batch without records needs no answer and
    /// marks nothing.
    pub fn settle(
        &self,
        table: &mut MovieTable,
        movies: Vec<Movie>,
        errors: Result<Option<bool>, Error>,
        now: Timestamp,
    ) -> (indexed: Result<Vec<Movie>, Error>)
        requires
            old(table).wf(),
        ensures
            final(table).wf(),
            errors != Ok::<Option<bool>, Error>(Some(false)) ==> final(table)@ == old(table)@,
            indexed is Ok <==> (errors matches Ok(answer) && brought(movies@.len(), answer)),
            indexed matches Ok(marked) ==> {
                &&& final(table)@ == rows_changed(
                    old(table)@,
                    ids_of(views(movies@)),
                    IndexMovie::changes_at(now),
                )
                &&& views(marked@) == changed_among(
                    old(table)@,
                    ids_of(views(movies@)),
                    IndexMovie::changes_at(now),
                )
            },
            indexed matches Err(e) ==> {
                &&& errors matches Err(failure) ==> e == failure
                &&& errors == Ok::<Option<bool>, Error>(Some(true)) ==> e is IndexQueryPartialError
                &&& errors == Ok::<Option<bool>, Error>(None) ==> e is IndexQueryError
            },
    {
        let answer = match errors {
            Ok(answer) => answer,
            Err(failure) => {
                return Err(failure);
            },
        };
        let ghost before = table@;
        let indexed = index_movies(movies, answer)?;
        proof {
            if indexed@.len() == 0 {
                assert(ids_of(views(indexed@)).len() == 0);
                lemma_none_named(before, ids_of(views(indexed@)), IndexMovie::changes_at(now));
            }
        }
        Ok(mark_movies_indexed_at(table, &indexed, now))
    }
}

/// Purges the records that were struck out and have left the search index.
#[derive(Debug)]
pub struct DeleteDaemon {
    running: bool,
}

impl DeleteDaemon {
    /// Whether a cycle is under way.
    pub closed spec fn running(&self) -> bool {
        self.running
    }

    /// A synchroniser at rest.
    pub fn new() -> (daemon: Self)
        ensures
            !daemon.running(),
    {
        DeleteDaemon { running: false }
    }

    pub fn is_running(&self) -> (r: bool)
        ensures
            r == self.running(),
    {
        self.running
    }

    /// A tick of the timer. Starts a cycle, and says so, unless one is under
    /// way: then the tick passes and nothing changes.
    pub fn begin(&mut self) -> (started: bool)
        ensures
            started == !old(self).running(),
            final(self).running(),
    {
        let started = !self.running;
        self.running = true;
        started
    }

    /// The end of a cycle, however it went.
    pub fn finish(&mut self)
        ensures
            !final(self).running(),
    {
        self.running = false;
    }

    /// One cycle: every row that may be purged leaves the table, and no
    /// other; the number of rows that went comes back.
    pub fn delete(&self, table: &mut MovieTable) -> (deleted: usize)
        requires
            old(table).wf(),
        ensures
            final(table).wf(),
            final(table)@ == unpurged(old(table)@),
            deleted == old(table)@.len() - final(table)@.len(),
    {
        delete_soft_deleted(table)
    }
}

/// The way of a record that was struck out. The cycle that takes it asks
/// the search index to remove its document. Once that cycle has marked it as
/// indexed, at an instant after it was struck out, the row still stands in
/// the store, struck out as before; and the purge that runs next takes it
/// out for good, so that a lookup of its identifier finds nothing.
pub proof fn lemma_tombstone_leaves(rows: Seq<MovieModel>, j: int, ids: Seq<Uuid>, now: Timestamp)
    requires
        distinct_ids(rows),
        0 <= j < rows.len(),
        rows[j].deleted matches Some(at) && at.before(now),
        ids.contains(rows[j].id),
    ensures
        bulk_op(rows[j]) == (BulkOp::Delete { id: rows[j].id }),
        ({
            let marked = rows_changed(rows, ids, IndexMovie::changes_at(now));
            &&& marked.len() == rows.len()
            &&& marked[j].id == rows[j].id
            &&& marked[j].deleted == rows[j].deleted
            &&& marked[j].indexed == Some(now)
            &&& marked[j].purgeable()
            &&& !holds_id(unpurged(marked), rows[j].id)
            &&& is_lookup(unpurged(marked), rows[j].id, None)
        }),
{
    let marked = rows_changed(rows, ids, IndexMovie::changes_at(now));
    assert forall|a: int, b: int| 0 <= a < b < marked.len() implies marked[a].id != marked[b].id by {
        assert(marked[a].id == rows[a].id && marked[b].id == rows[b].id);
    }
    assert(marked[j] == marked[j]);
    assert(marked.contains(marked[j]));
    lemma_purged_is_gone(marked, marked[j]);
}

} // verus!
