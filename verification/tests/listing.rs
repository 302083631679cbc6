use catalog::action;
use catalog::cursor::{deserialize_anchor, serialize_anchor, MovieAnchor};
use catalog::db::{create_movie, MovieTable};
use catalog::listing::{
    find_movies, listing_start, load_and_count_remaining, page_after, records_and_remaining,
};
use catalog::error::Error;
use catalog::ident::Uuid;
use catalog::order::{is_after, listed_before};
use catalog::record::Movie;
use catalog::time::{ReleaseDate, Timestamp};

fn movie(id: u128, title: &str, date: Option<(i32, u32, u32)>) -> Movie {
    Movie {
        id: Uuid::from_u128(id),
        title: title.to_string(),
        tagline: None,
        overview: None,
        spoken_languages: Vec::new(),
        production_countries: Vec::new(),
        genres: Vec::new(),
        release_date: date.map(|(y, m, d)| ReleaseDate::from_ymd_opt(y, m, d).unwrap()),
        created: Timestamp { micros: 1 },
        updated: Timestamp { micros: 1 },
        indexed: None,
        foreign_url: None,
        deleted: None,
    }
}

fn table_of(movies: Vec<Movie>) -> MovieTable {
    let mut table = MovieTable::new();
    for m in movies {
        assert!(create_movie(&mut table, m).is_some());
    }
    table
}

fn sample() -> MovieTable {
    table_of(vec![
        movie(7, "Solaris", Some((1972, 3, 20))),
        movie(3, "Dune", Some((1984, 12, 14))),
        movie(9, "Alien", Some((1979, 5, 25))),
        movie(4, "Dune", Some((2021, 10, 22))),
        movie(2, "Dune", None),
        movie(1, "Dune", None),
        movie(6, "Dune", Some((1984, 12, 14))),
        movie(8, "Zardoz", None),
    ])
}

fn walk(table: &MovieTable, page_size: i64) -> (Vec<u128>, Vec<i64>) {
    let mut ids = Vec::new();
    let mut numbers = Vec::new();
    let mut cursor: Option<String> = None;
    loop {
        let page = find_movies(table, page_size, &cursor).unwrap();
        numbers.push(page.page_number);
        assert!(page.items.len() as i64 <= page_size);
        ids.extend(page.items.iter().map(|m| m.id.as_u128()));
        match page.next_anchor {
            Some(next) => cursor = Some(next),
            None => break,
        }
    }
    (ids, numbers)
}

// title ascending; within a title the later date first and no date last;
// within that the lower identifier first
const IN_ORDER: [u128; 8] = [9, 4, 3, 6, 1, 2, 7, 8];

#[test]
fn listing_walks_every_record_once_in_order() {
    let table = sample();
    for page_size in 1..=9 {
        let (ids, numbers) = walk(&table, page_size);
        assert_eq!(ids, IN_ORDER.to_vec(), "page size {}", page_size);
        let pages = (8 + page_size - 1) / page_size;
        assert_eq!(numbers, (1..=pages).collect::<Vec<i64>>());
    }
}

#[test]
fn listing_of_an_empty_table_is_one_empty_page() {
    let table = MovieTable::new();
    let page = find_movies(&table, 25, &None).unwrap();
    assert_eq!(page.page_number, 1);
    assert!(page.items.is_empty());
    assert_eq!(page.next_anchor, None);
}

#[test]
fn first_page_has_number_one_and_a_cursor_for_page_two() {
    let table = sample();
    let page = find_movies(&table, 3, &None).unwrap();
    assert_eq!(page.page_number, 1);
    let ids: Vec<u128> = page.items.iter().map(|m| m.id.as_u128()).collect();
    assert_eq!(ids, vec![9, 4, 3]);
    let anchor = deserialize_anchor(page.next_anchor.clone().unwrap()).unwrap();
    assert_eq!(
        anchor,
        MovieAnchor {
            title: "Dune".to_string(),
            release_date: ReleaseDate::from_ymd_opt(1984, 12, 14),
            id: Uuid::from_u128(3),
            page_number: 2,
        }
    );
    let second = find_movies(&table, 3, &page.next_anchor).unwrap();
    assert_eq!(second.page_number, 2);
    let ids: Vec<u128> = second.items.iter().map(|m| m.id.as_u128()).collect();
    assert_eq!(ids, vec![6, 1, 2]);
}

#[test]
fn page_that_ends_the_listing_names_no_cursor() {
    let table = sample();
    let page = find_movies(&table, 8, &None).unwrap();
    assert_eq!(page.items.len(), 8);
    assert_eq!(page.next_anchor, None);
    let page = find_movies(&table, 7, &None).unwrap();
    assert_eq!(page.items.len(), 7);
    assert!(page.next_anchor.is_some());
}

#[test]
fn page_size_that_is_not_positive_gives_an_empty_page() {
    let table = sample();
    for page_size in [0, -1, i64::MIN] {
        let page = find_movies(&table, page_size, &None).unwrap();
        assert!(page.items.is_empty());
        assert_eq!(page.next_anchor, None);
        assert_eq!(page.page_number, 1);
    }
}

#[test]
fn records_struck_out_are_not_listed() {
    let mut table = sample();
    assert!(action::delete_movie_at(&mut table, Uuid::from_u128(3), Timestamp { micros: 5 }));
    assert!(action::delete_movie_at(&mut table, Uuid::from_u128(8), Timestamp { micros: 5 }));
    let (ids, _) = walk(&table, 2);
    assert_eq!(ids, vec![9, 4, 6, 1, 2, 7]);
    assert_eq!(table.len(), 8);
}

#[test]
fn listing_is_stable_under_an_insert_behind_the_cursor() {
    let mut table = sample();
    let first = find_movies(&table, 3, &None).unwrap();
    let before = find_movies(&table, 3, &first.next_anchor).unwrap();
    // a title greater than the anchor's title "Dune"
    assert!(create_movie(&mut table, movie(5, "Eraserhead", Some((1977, 3, 19)))).is_some());
    let mut ids: Vec<u128> = first.items.iter().map(|m| m.id.as_u128()).collect();
    let mut cursor = first.next_anchor.clone();
    while cursor.is_some() {
        let page = find_movies(&table, 3, &cursor).unwrap();
        ids.extend(page.items.iter().map(|m| m.id.as_u128()));
        cursor = page.next_anchor;
    }
    assert_eq!(ids, vec![9, 4, 3, 6, 1, 2, 5, 7, 8]);
    let after = find_movies(&table, 3, &first.next_anchor).unwrap();
    assert_eq!(after.items, before.items);
}

#[test]
fn listing_is_stable_under_an_insert_within_the_anchors_title() {
    let mut table = sample();
    let first = find_movies(&table, 4, &None).unwrap();
    assert!(create_movie(&mut table, movie(5, "Dune", Some((1984, 12, 14)))).is_some());
    assert!(create_movie(&mut table, movie(10, "Dune", Some((2000, 1, 1)))).is_some());
    let rest = find_movies(&table, 10, &first.next_anchor).unwrap();
    let ids: Vec<u128> = rest.items.iter().map(|m| m.id.as_u128()).collect();
    // 5 sorts before the anchor (same date, lower identifier) and 10 before it too
    assert_eq!(ids, vec![1, 2, 7, 8]);
}

#[test]
fn record_without_a_date_follows_an_anchor_with_one() {
    let anchor = MovieAnchor {
        title: "Dune".to_string(),
        release_date: ReleaseDate::from_ymd_opt(1984, 12, 14),
        id: Uuid::from_u128(6),
        page_number: 2,
    };
    assert!(is_after(&anchor, &movie(1, "Dune", None)));
    assert!(is_after(&anchor, &movie(1, "Dune", Some((1984, 12, 13)))));
    assert!(is_after(&anchor, &movie(7, "Dune", Some((1984, 12, 14)))));
    assert!(is_after(&anchor, &movie(1, "Dunf", Some((2100, 1, 1)))));
    assert!(!is_after(&anchor, &movie(6, "Dune", Some((1984, 12, 14)))));
    assert!(!is_after(&anchor, &movie(5, "Dune", Some((1984, 12, 14)))));
    assert!(!is_after(&anchor, &movie(9, "Dune", Some((1984, 12, 15)))));
    assert!(!is_after(&anchor, &movie(9, "Dun", None)));
    let bare = MovieAnchor { title: "Dune".to_string(), release_date: None, id: Uuid::from_u128(6), page_number: 2 };
    assert!(is_after(&bare, &movie(7, "Dune", None)));
    assert!(!is_after(&bare, &movie(6, "Dune", None)));
    assert!(!is_after(&bare, &movie(7, "Dune", Some((1, 1, 1)))));
    assert!(is_after(&bare, &movie(0, "Dune ", None)));
}

#[test]
fn fixed_order_is_strict_and_total_on_the_sample() {
    let table = sample();
    for i in 0..table.len() {
        for j in 0..table.len() {
            let a = table.row(i);
            let b = table.row(j);
            let pa = IN_ORDER.iter().position(|x| *x == a.id.as_u128()).unwrap();
            let pb = IN_ORDER.iter().position(|x| *x == b.id.as_u128()).unwrap();
            assert_eq!(listed_before(a, b), pa < pb);
        }
    }
}

#[test]
fn titles_are_ordered_by_code_point() {
    let table = table_of(vec![
        movie(1, "éclair", None),
        movie(2, "Zebra", None),
        movie(3, "apple", None),
        movie(4, "", None),
        movie(5, "Z", None),
        movie(6, "😀", None),
        movie(7, "\u{ffff}", None),
    ]);
    let (ids, _) = walk(&table, 2);
    assert_eq!(ids, vec![4, 5, 2, 3, 1, 7, 6]);
}

#[test]
fn cursor_that_is_no_base64_fails_the_listing() {
    let table = sample();
    let r = find_movies(&table, 3, &Some("%%%".to_string()));
    assert!(matches!(r, Err(Error::AnchorDecodeError(_))));
    let r = listing_start(&Some("%%%".to_string()));
    assert!(matches!(r, Err(Error::AnchorDecodeError(_))));
}

#[test]
fn cursor_that_is_no_anchor_fails_the_listing() {
    let table = sample();
    let text = base64::encode_config([0x93u8, 1, 2, 3], base64::URL_SAFE_NO_PAD);
    let r = find_movies(&table, 3, &Some(text));
    assert!(matches!(r, Err(Error::AnchorParseError(_))));
}

#[test]
fn listing_start_reads_the_cursor() {
    assert_eq!(listing_start(&None).unwrap(), (None, 1));
    let anchor = MovieAnchor {
        title: "Dune".to_string(),
        release_date: None,
        id: Uuid::from_u128(6),
        page_number: 41,
    };
    let text = serialize_anchor(MovieAnchor { title: "Dune".to_string(), ..anchor });
    let (start, number) = listing_start(&Some(text)).unwrap();
    assert_eq!(number, 41);
    assert_eq!(start.unwrap().id, Uuid::from_u128(6));
}

#[test]
fn page_after_names_a_cursor_only_with_items_and_more_to_come() {
    let items = vec![movie(1, "A", None), movie(2, "B", Some((2001, 1, 1)))];
    let page = page_after(items, 3, 4);
    assert_eq!(page.page_number, 4);
    let anchor = deserialize_anchor(page.next_anchor.unwrap()).unwrap();
    assert_eq!(anchor.title, "B");
    assert_eq!(anchor.release_date, ReleaseDate::from_ymd_opt(2001, 1, 1));
    assert_eq!(anchor.id, Uuid::from_u128(2));
    assert_eq!(anchor.page_number, 5);
    assert_eq!(page_after(vec![movie(1, "A", None)], 0, 1).next_anchor, None);
    assert_eq!(page_after(vec![movie(1, "A", None)], -1, 1).next_anchor, None);
    assert_eq!(page_after(Vec::new(), 5, 1).next_anchor, None);
}

#[test]
fn page_number_stays_at_the_end_of_the_integers() {
    let page = page_after(vec![movie(1, "A", None)], 1, i64::MAX);
    let anchor = deserialize_anchor(page.next_anchor.unwrap()).unwrap();
    assert_eq!(anchor.page_number, i64::MAX);
}

#[test]
fn load_and_count_remaining_counts_what_the_page_leaves_out() {
    let table = sample();
    let (items, remaining) = load_and_count_remaining(&table, None, 3);
    assert_eq!(items.len(), 3);
    assert_eq!(remaining, 5);
    let start = MovieAnchor { title: "Dune".to_string(), release_date: None, id: Uuid::from_u128(1), page_number: 0 };
    let (items, remaining) = load_and_count_remaining(&table, Some(start), 2);
    let ids: Vec<u128> = items.iter().map(|m| m.id.as_u128()).collect();
    assert_eq!(ids, vec![2, 7]);
    assert_eq!(remaining, 1);
}

#[test]
fn records_and_remaining_splits_counted_rows() {
    let rows = vec![("a", 5i64), ("b", 5), ("c", 5)];
    assert_eq!(records_and_remaining(rows), (vec!["a", "b", "c"], 2));
    let none: Vec<(&str, i64)> = Vec::new();
    assert_eq!(records_and_remaining(none), (Vec::new(), 0));
    assert_eq!(records_and_remaining(vec![(1u8, i64::MIN)]), (vec![1u8], i64::MIN));
    assert_eq!(records_and_remaining(vec![(1u8, 1)]), (vec![1u8], 0));
}

#[test]
fn every_page_but_the_last_is_full() {
    let table = sample();
    for page_size in 1..=9i64 {
        let mut lengths = Vec::new();
        let mut cursor: Option<String> = None;
        loop {
            let page = find_movies(&table, page_size, &cursor).unwrap();
            lengths.push(page.items.len() as i64);
            match page.next_anchor {
                Some(next) => cursor = Some(next),
                None => break,
            }
        }
        let calls = lengths.len() as i64;
        assert_eq!(calls, (8 + page_size - 1) / page_size);
        assert!(lengths[..lengths.len() - 1].iter().all(|n| *n == page_size));
        assert_eq!(*lengths.last().unwrap(), 8 - page_size * (calls - 1));
    }
    assert_eq!(catalog::listing::holds_rows(1), true);
    assert_eq!(catalog::listing::holds_rows(0), false);
    assert_eq!(catalog::listing::holds_rows(i64::MIN), false);
}
