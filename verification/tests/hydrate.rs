use catalog::action;
use catalog::api::{backfill_unresolved_movies, needs_backfill, splice, unresolved_ids};
use catalog::db::{create_movie, MovieTable};
use catalog::ident::{HasId, Uuid};
use catalog::idx::SearchHit;
use catalog::record::{Movie, Page};
use catalog::time::Timestamp;

fn movie(id: u128, title: &str) -> Movie {
    Movie {
        id: Uuid::from_u128(id),
        title: title.to_string(),
        tagline: Some("tagline".to_string()),
        overview: None,
        spoken_languages: Vec::new(),
        production_countries: Vec::new(),
        genres: Vec::new(),
        release_date: None,
        created: Timestamp { micros: 1 },
        updated: Timestamp { micros: 1 },
        indexed: None,
        foreign_url: None,
        deleted: None,
    }
}

fn placeholder(id: u128) -> SearchHit {
    SearchHit::Placeholder(HasId { id: Uuid::from_u128(id) })
}

fn page(items: Vec<SearchHit>) -> Page<SearchHit> {
    Page { page_number: 3, next_anchor: Some("next".to_string()), items }
}

#[test]
fn hydration_fills_two_of_three_placeholders_and_drops_the_third() {
    let mut table = MovieTable::new();
    create_movie(&mut table, movie(30, "Thirty"));
    create_movie(&mut table, movie(10, "Ten"));
    let found = page(vec![placeholder(10), placeholder(20), placeholder(30)]);
    let hydrated = backfill_unresolved_movies(&table, found);
    assert_eq!(hydrated.items, vec![movie(10, "Ten"), movie(30, "Thirty")]);
    assert_eq!(hydrated.page_number, 3);
    assert_eq!(hydrated.next_anchor, Some("next".to_string()));
}

#[test]
fn hydration_keeps_records_in_place_among_placeholders() {
    let mut table = MovieTable::new();
    create_movie(&mut table, movie(1, "One"));
    create_movie(&mut table, movie(2, "Two"));
    let from_index = movie(9, "Nine, as the index has it");
    let found = page(vec![
        placeholder(2),
        SearchHit::Record(from_index.clone()),
        placeholder(5),
        placeholder(1),
        placeholder(2),
    ]);
    let hydrated = backfill_unresolved_movies(&table, found);
    assert_eq!(hydrated.items, vec![movie(2, "Two"), from_index, movie(1, "One"), movie(2, "Two")]);
}

#[test]
fn hydration_drops_a_placeholder_of_a_record_struck_out() {
    let mut table = MovieTable::new();
    create_movie(&mut table, movie(1, "One"));
    create_movie(&mut table, movie(2, "Two"));
    assert!(action::delete_movie_at(&mut table, Uuid::from_u128(1), Timestamp { micros: 9 }));
    let hydrated = backfill_unresolved_movies(&table, page(vec![placeholder(1), placeholder(2)]));
    assert_eq!(hydrated.items, vec![movie(2, "Two")]);
}

#[test]
fn page_without_placeholders_comes_back_as_it_is() {
    let found = page(vec![SearchHit::Record(movie(1, "One")), SearchHit::Record(movie(2, "Two"))]);
    assert!(!needs_backfill(&found));
    assert!(unresolved_ids(&found).is_empty());
    // whatever the table holds: here a row of another content under the same identifier
    let mut table = MovieTable::new();
    create_movie(&mut table, movie(1, "Another"));
    let hydrated = backfill_unresolved_movies(&table, found);
    assert_eq!(hydrated.items, vec![movie(1, "One"), movie(2, "Two")]);
    assert_eq!(hydrated.page_number, 3);
    assert_eq!(hydrated.next_anchor, Some("next".to_string()));
    let empty = backfill_unresolved_movies(&MovieTable::new(), page(Vec::new()));
    assert!(empty.items.is_empty());
}

#[test]
fn unresolved_ids_are_those_of_the_placeholders_in_order() {
    let found = page(vec![placeholder(7), SearchHit::Record(movie(1, "One")), placeholder(3), placeholder(7)]);
    assert!(needs_backfill(&found));
    let ids: Vec<u128> = unresolved_ids(&found).iter().map(|id| id.as_u128()).collect();
    assert_eq!(ids, vec![7, 3, 7]);
}

#[test]
fn splice_takes_the_later_of_two_records_of_one_identifier() {
    let found = page(vec![placeholder(1)]);
    let spliced = splice(found, vec![movie(1, "earlier"), movie(2, "other"), movie(1, "later")]);
    assert_eq!(spliced.items, vec![movie(1, "later")]);
}

#[test]
fn find_movies_with_ids_gives_live_records_in_table_order() {
    let mut table = MovieTable::new();
    for (id, title) in [(5, "Five"), (1, "One"), (3, "Three"), (4, "Four")] {
        create_movie(&mut table, movie(id, title));
    }
    action::delete_movie_at(&mut table, Uuid::from_u128(3), Timestamp { micros: 9 });
    let ids: Vec<Uuid> = [4u128, 3, 9, 5].iter().map(|id| Uuid::from_u128(*id)).collect();
    let page = action::find_movies_with_ids(&table, &ids);
    assert_eq!(page.page_number, 1);
    assert_eq!(page.next_anchor, None);
    assert_eq!(page.items, vec![movie(5, "Five"), movie(4, "Four")]);
    let none = action::find_movies_with_ids(&table, &Vec::new());
    assert!(none.items.is_empty());
    assert_eq!(none.page_number, 1);
}
