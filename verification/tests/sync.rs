use catalog::action;
use catalog::change::CreateMovieParams;
use catalog::db::{create_movie, MovieTable};
use catalog::listing::find_movies;
use catalog::dmn::{DeleteDaemon, IndexDaemon, INDEX_BATCH_SIZE};
use catalog::error::Error;
use catalog::ident::Uuid;
use catalog::idx::{bulk_operations, index_movies, BulkOp};
use catalog::record::Movie;
use catalog::stale::find_stale_indexed;
use catalog::time::{ReleaseDate, Timestamp};

fn at(micros: i64) -> Timestamp {
    Timestamp { micros }
}

fn movie(id: u128, updated: i64, indexed: Option<i64>, deleted: Option<i64>) -> Movie {
    Movie {
        id: Uuid::from_u128(id),
        title: format!("movie {}", id),
        tagline: None,
        overview: None,
        spoken_languages: Vec::new(),
        production_countries: Vec::new(),
        genres: Vec::new(),
        release_date: None,
        created: at(0),
        updated: at(updated),
        indexed: indexed.map(at),
        foreign_url: None,
        deleted: deleted.map(at),
    }
}

fn table_of(movies: Vec<Movie>) -> MovieTable {
    let mut table = MovieTable::new();
    for m in movies {
        assert!(create_movie(&mut table, m).is_some());
    }
    table
}

fn ids(movies: &[Movie]) -> Vec<u128> {
    movies.iter().map(|m| m.id.as_u128()).collect()
}

#[test]
fn staleness_is_never_indexed_or_indexed_before_the_last_change() {
    assert!(movie(1, 10, None, None).is_stale());
    assert!(movie(1, 10, Some(9), None).is_stale());
    assert!(!movie(1, 10, Some(10), None).is_stale());
    assert!(!movie(1, 10, Some(11), None).is_stale());
    assert!(movie(1, i64::MIN, None, None).is_stale());
    assert!(movie(1, i64::MAX, Some(i64::MIN), Some(3)).is_stale());
}

#[test]
fn fetch_takes_stale_records_only() {
    let table = table_of(vec![
        movie(1, 10, Some(10), None),
        movie(2, 10, Some(9), None),
        movie(3, 10, None, None),
        movie(4, 10, Some(11), Some(10)),
        movie(5, 10, Some(5), Some(10)),
    ]);
    assert_eq!(ids(&find_stale_indexed(&table, 10)), vec![3, 5, 2]);
    assert_eq!(ids(&action::find_movies_to_index(&table, 10)), vec![3, 5, 2]);
}

#[test]
fn fetch_is_oldest_first_with_never_indexed_at_the_head() {
    let table = table_of(vec![
        movie(1, 100, Some(50), None),
        movie(2, 100, None, None),
        movie(3, 100, Some(-7), None),
        movie(4, 100, Some(50), None),
        movie(5, 100, None, None),
        movie(6, 100, Some(i64::MIN), None),
    ]);
    assert_eq!(ids(&find_stale_indexed(&table, 10)), vec![2, 5, 6, 3, 1, 4]);
    assert_eq!(ids(&find_stale_indexed(&table, 3)), vec![2, 5, 6]);
    assert_eq!(ids(&find_stale_indexed(&table, 1)), vec![2]);
    assert!(find_stale_indexed(&table, 0).is_empty());
    assert!(find_stale_indexed(&table, -4).is_empty());
}

#[test]
fn purge_takes_records_struck_out_before_they_were_last_indexed() {
    assert!(movie(1, 5, Some(6), Some(5)).is_purgeable());
    assert!(!movie(1, 5, Some(5), Some(5)).is_purgeable());
    assert!(!movie(1, 5, Some(4), Some(5)).is_purgeable());
    assert!(!movie(1, 5, None, Some(5)).is_purgeable());
    assert!(!movie(1, 5, Some(6), None).is_purgeable());
    assert!(!movie(1, 5, None, None).is_purgeable());
}

#[test]
fn purge_removes_exactly_the_eligible_rows() {
    let mut table = table_of(vec![
        movie(1, 5, Some(6), Some(5)),
        movie(2, 5, Some(5), Some(5)),
        movie(3, 5, None, Some(5)),
        movie(4, 5, Some(9), Some(8)),
        movie(5, 5, Some(9), None),
        movie(6, 5, Some(i64::MAX), Some(i64::MIN)),
    ]);
    assert_eq!(action::delete_soft_deleted(&mut table), 3);
    let left: Vec<u128> = (0..table.len()).map(|i| table.row(i).id.as_u128()).collect();
    assert_eq!(left, vec![2, 3, 5]);
    assert_eq!(DeleteDaemon::new().delete(&mut table), 0);
    assert_eq!(table.len(), 3);
}

#[test]
fn batch_asks_to_delete_what_was_struck_out_and_to_index_the_rest() {
    let movies = vec![movie(1, 5, None, None), movie(2, 5, None, Some(5)), movie(3, 5, Some(1), None)];
    assert_eq!(
        bulk_operations(&movies),
        vec![
            BulkOp::Index { id: Uuid::from_u128(1) },
            BulkOp::Delete { id: Uuid::from_u128(2) },
            BulkOp::Index { id: Uuid::from_u128(3) },
        ]
    );
    assert!(bulk_operations(&Vec::new()).is_empty());
}

#[test]
fn batch_counts_as_a_whole() {
    let movies = vec![movie(1, 5, None, None), movie(2, 5, None, None)];
    assert_eq!(index_movies(movies.clone(), Some(false)).unwrap(), movies);
    assert!(matches!(index_movies(movies.clone(), Some(true)), Err(Error::IndexQueryPartialError)));
    assert!(matches!(index_movies(movies, None), Err(Error::IndexQueryError(_))));
}

fn snapshot(table: &MovieTable) -> Vec<Movie> {
    (0..table.len()).map(|i| table.row(i).clone()).collect()
}

#[test]
fn cycle_with_an_error_in_the_batch_marks_nothing() {
    let mut table = table_of(vec![movie(1, 10, None, None), movie(2, 10, Some(3), Some(10)), movie(3, 10, Some(10), None)]);
    let before = snapshot(&table);
    let mut daemon = IndexDaemon::new();
    assert!(daemon.begin());
    let batch = daemon.plan(&table);
    assert_eq!(ids(&batch.movies), vec![1, 2]);
    assert!(!batch.is_empty());
    let r = daemon.settle(&mut table, batch.movies, Ok(Some(true)), at(99));
    assert!(matches!(r, Err(Error::IndexQueryPartialError)));
    daemon.finish();
    assert_eq!(snapshot(&table), before);
    // the same records are taken again by the next cycle
    assert_eq!(ids(&daemon.plan(&table).movies), vec![1, 2]);
}

#[test]
fn cycle_whose_call_fails_marks_nothing() {
    let mut table = table_of(vec![movie(1, 10, None, None)]);
    let before = snapshot(&table);
    let daemon = IndexDaemon::new();
    let batch = daemon.plan(&table);
    let r = daemon.settle(&mut table, batch.movies, Err(Error::IndexQueryError("unreachable".to_string())), at(99));
    match r {
        Err(Error::IndexQueryError(why)) => assert_eq!(why, "unreachable"),
        _ => panic!("the failure of the call is handed on"),
    }
    assert_eq!(snapshot(&table), before);
    let batch = daemon.plan(&table);
    let r = daemon.settle(&mut table, batch.movies, Ok(None), at(99));
    assert!(matches!(r, Err(Error::IndexQueryError(_))));
    assert_eq!(snapshot(&table), before);
}

#[test]
fn cycle_without_errors_marks_the_batch_and_nothing_else() {
    let mut table = table_of(vec![movie(1, 10, None, None), movie(2, 10, Some(3), Some(10)), movie(3, 10, Some(10), None)]);
    let daemon = IndexDaemon::new();
    let batch = daemon.plan(&table);
    assert_eq!(
        batch.operations,
        vec![BulkOp::Index { id: Uuid::from_u128(1) }, BulkOp::Delete { id: Uuid::from_u128(2) }]
    );
    let marked = daemon.settle(&mut table, batch.movies, Ok(Some(false)), at(99)).unwrap();
    assert_eq!(marked, vec![movie(1, 10, Some(99), None), movie(2, 10, Some(99), Some(10))]);
    assert_eq!(
        snapshot(&table),
        vec![movie(1, 10, Some(99), None), movie(2, 10, Some(99), Some(10)), movie(3, 10, Some(10), None)]
    );
    assert!(daemon.plan(&table).movies.is_empty());
    assert!(daemon.plan(&table).operations.is_empty());
    assert!(daemon.plan(&table).is_empty());
}

#[test]
fn cycle_takes_at_most_ten_records() {
    assert_eq!(INDEX_BATCH_SIZE, 10);
    let table = table_of((1..=13).map(|i| movie(i, 10, None, None)).collect());
    let batch = IndexDaemon::new().plan(&table);
    assert_eq!(ids(&batch.movies), (1..=10).collect::<Vec<u128>>());
    assert_eq!(batch.operations.len(), 10);
}

#[test]
fn tick_during_a_cycle_starts_no_second_cycle() {
    let mut daemon = IndexDaemon::new();
    assert!(!daemon.is_running());
    assert!(daemon.begin());
    assert!(daemon.is_running());
    assert!(!daemon.begin());
    assert!(daemon.is_running());
    daemon.finish();
    assert!(!daemon.is_running());
    assert!(daemon.begin());
    let mut purger = DeleteDaemon::new();
    assert!(!purger.is_running());
    assert!(purger.begin());
    assert!(!purger.begin());
    purger.finish();
    assert!(!purger.is_running());
}

#[test]
fn mark_movies_indexed_touches_only_the_rows_named() {
    let mut table = table_of(vec![movie(1, 10, None, None), movie(2, 10, None, None)]);
    let marked = action::mark_movies_indexed_at(&mut table, &vec![movie(2, 10, None, None), movie(7, 1, None, None)], at(50));
    assert_eq!(marked, vec![movie(2, 10, Some(50), None)]);
    assert_eq!(snapshot(&table), vec![movie(1, 10, None, None), movie(2, 10, Some(50), None)]);
    let none = action::mark_movies_indexed_at(&mut table, &Vec::new(), at(60));
    assert!(none.is_empty());
    assert_eq!(snapshot(&table), vec![movie(1, 10, None, None), movie(2, 10, Some(50), None)]);
}

#[test]
fn record_lives_from_creation_to_purge() {
    let mut table = MovieTable::new();
    let params = CreateMovieParams {
        title: "Dune".to_string(),
        tagline: None,
        overview: None,
        spoken_languages: Vec::new(),
        production_countries: Vec::new(),
        genres: Vec::new(),
        release_date: ReleaseDate::from_ymd_opt(1984, 12, 14),
        foreign_url: None,
    };
    let created = action::create_movie_at(&mut table, &params, at(100)).unwrap();
    let page = find_movies(&table, 25, &None).unwrap();
    assert_eq!(page.items, vec![created.clone()]);
    assert_eq!(page.next_anchor, None);
    assert_eq!(action::find_one_movie(&table, created.id), Some(created.clone()));

    // the index learns of the record
    let indexer = IndexDaemon::new();
    let batch = indexer.plan(&table);
    assert_eq!(batch.operations, vec![BulkOp::Index { id: created.id }]);
    indexer.settle(&mut table, batch.movies, Ok(Some(false)), at(150)).unwrap();
    assert!(indexer.plan(&table).movies.is_empty());

    // the record is struck out: it is listed no more, and stays in the store
    assert!(action::delete_movie_at(&mut table, created.id, at(200)));
    assert!(find_movies(&table, 25, &None).unwrap().items.is_empty());
    assert_eq!(action::find_one_movie(&table, created.id), None);
    assert_eq!(table.len(), 1);

    // before the index has seen the tombstone nothing is purged
    let purger = DeleteDaemon::new();
    assert_eq!(purger.delete(&mut table), 0);
    assert_eq!(table.len(), 1);

    // the index observes the tombstone
    let batch = indexer.plan(&table);
    assert_eq!(batch.operations, vec![BulkOp::Delete { id: created.id }]);
    indexer.settle(&mut table, batch.movies, Ok(Some(false)), at(300)).unwrap();
    assert_eq!(table.row(0).indexed, Some(at(300)));
    assert_eq!(table.row(0).deleted, Some(at(200)));

    // and the next purge removes the row for good
    assert_eq!(purger.delete(&mut table), 1);
    assert_eq!(table.len(), 0);
}

#[test]
fn mark_movies_indexed_sets_one_instant_of_the_clock() {
    let mut table = table_of(vec![movie(1, 10, None, None), movie(2, 10, Some(3), None), movie(3, 10, None, None)]);
    let before = chrono::Utc::now().timestamp_micros();
    let marked = action::mark_movies_indexed(&mut table, &vec![movie(3, 10, None, None), movie(1, 10, None, None)]);
    let after = chrono::Utc::now().timestamp_micros();
    assert_eq!(ids(&marked), vec![1, 3]);
    let now = marked[0].indexed.unwrap();
    assert!(before <= now.micros && now.micros <= after);
    assert_eq!(marked, vec![movie(1, 10, Some(now.micros), None), movie(3, 10, Some(now.micros), None)]);
    assert_eq!(
        snapshot(&table),
        vec![movie(1, 10, Some(now.micros), None), movie(2, 10, Some(3), None), movie(3, 10, Some(now.micros), None)]
    );
}

#[test]
fn batch_without_records_is_not_sent_and_comes_back_as_it_is() {
    assert_eq!(catalog::idx::bulk_request(&Vec::new()), None);
    for answer in [None, Some(true), Some(false)] {
        assert_eq!(index_movies(Vec::new(), answer).unwrap(), Vec::new());
    }
    let movies = vec![movie(1, 5, None, None), movie(2, 5, None, Some(5))];
    assert_eq!(
        catalog::idx::bulk_request(&movies),
        Some(vec![BulkOp::Index { id: Uuid::from_u128(1) }, BulkOp::Delete { id: Uuid::from_u128(2) }])
    );
    let mut table = table_of(vec![movie(1, 10, None, None)]);
    let before = snapshot(&table);
    let daemon = IndexDaemon::new();
    for answer in [None, Some(true), Some(false)] {
        assert_eq!(daemon.settle(&mut table, Vec::new(), Ok(answer), at(99)).unwrap(), Vec::new());
        assert_eq!(snapshot(&table), before);
    }
}

#[test]
fn cycle_goes_from_fetching_over_submitting_to_marking() {
    let mut daemon = IndexDaemon::new();
    // off a cycle nothing is sent and nothing is marked
    assert_eq!(daemon.fetched(vec![movie(1, 5, None, None)]), None);
    assert_eq!(daemon.answered(Ok(Some(false))).unwrap(), Vec::new());
    assert!(!daemon.is_running());

    assert!(daemon.begin());
    // an answer before the batch was fetched marks nothing
    assert_eq!(daemon.answered(Ok(Some(false))).unwrap(), Vec::new());
    let stale = vec![movie(1, 5, None, None), movie(2, 5, None, Some(5))];
    let batch = daemon.fetched(stale.clone()).unwrap();
    assert_eq!(batch.movies, stale);
    assert_eq!(
        batch.operations,
        vec![BulkOp::Index { id: Uuid::from_u128(1) }, BulkOp::Delete { id: Uuid::from_u128(2) }]
    );
    // a second batch is not taken while the first waits for its answer
    assert_eq!(daemon.fetched(vec![movie(3, 5, None, None)]), None);
    assert!(!daemon.begin());
    assert_eq!(daemon.answered(Ok(Some(false))).unwrap(), stale);
    assert!(daemon.is_running());
    // the answer was taken: a second one marks nothing
    assert_eq!(daemon.answered(Ok(Some(false))).unwrap(), Vec::new());
    daemon.finish();
    assert!(!daemon.is_running());
    assert!(daemon.begin());
}

#[test]
fn cycle_without_stale_records_is_over_at_once() {
    let mut daemon = IndexDaemon::new();
    assert!(daemon.begin());
    assert_eq!(daemon.fetched(Vec::new()), None);
    assert!(!daemon.is_running());
    assert!(daemon.begin());
}

#[test]
fn cycle_ends_on_any_answer_but_a_clean_one() {
    let stale = vec![movie(1, 5, None, None)];
    let mut daemon = IndexDaemon::new();

    assert!(daemon.begin());
    assert!(daemon.fetched(stale.clone()).is_some());
    assert!(matches!(daemon.answered(Ok(Some(true))), Err(Error::IndexQueryPartialError)));
    assert!(!daemon.is_running());

    assert!(daemon.begin());
    assert!(daemon.fetched(stale.clone()).is_some());
    assert!(matches!(daemon.answered(Ok(None)), Err(Error::IndexQueryError(_))));
    assert!(!daemon.is_running());

    assert!(daemon.begin());
    assert!(daemon.fetched(stale.clone()).is_some());
    match daemon.answered(Err(Error::IndexQueryError("unreachable".to_string()))) {
        Err(Error::IndexQueryError(why)) => assert_eq!(why, "unreachable"),
        _ => panic!("the failure of the call is handed on"),
    }
    assert!(!daemon.is_running());
    // the batch of the failed cycle is gone
    assert!(daemon.begin());
    assert!(daemon.fetched(vec![movie(2, 5, None, None)]).is_some());
    assert_eq!(daemon.answered(Ok(Some(false))).unwrap(), vec![movie(2, 5, None, None)]);
}
