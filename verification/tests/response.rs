use catalog::api::{Query, QueryResponse};
use catalog::ident::Uuid;
use catalog::record::{Movie, Page, PaginationParameters, DEFAULT_PAGE_SIZE};
use catalog::time::Timestamp;

fn movie(id: u128) -> Movie {
    Movie {
        id: Uuid::from_u128(id),
        title: format!("movie {}", id),
        tagline: None,
        overview: None,
        spoken_languages: Vec::new(),
        production_countries: Vec::new(),
        genres: Vec::new(),
        release_date: None,
        created: Timestamp { micros: 0 },
        updated: Timestamp { micros: 0 },
        indexed: None,
        foreign_url: None,
        deleted: None,
    }
}

fn page(next: Option<&str>) -> Page<Movie> {
    Page { page_number: 1, next_anchor: next.map(|s| s.to_string()), items: vec![movie(1), movie(2)] }
}

#[test]
fn response_names_the_next_page_with_all_its_parts() {
    let r = QueryResponse::from_page(
        page(Some("kQI")),
        Some(25),
        Some("blade runner?".to_string()),
        "/catalog/movies/v1".to_string(),
    );
    assert_eq!(r.items, vec![movie(1), movie(2)]);
    assert_eq!(
        r.next_page,
        Some("/catalog/movies/v1?count=25&search=blade%20runner%3F&anchor=kQI".to_string())
    );
}

#[test]
fn response_leaves_out_what_was_not_asked_for() {
    let r = QueryResponse::from_page(page(Some("abc")), None, None, "/movies".to_string());
    assert_eq!(r.next_page, Some("/movies?anchor=abc".to_string()));
    let r = QueryResponse::from_page(page(Some("abc")), Some(-3), None, String::new());
    assert_eq!(r.next_page, Some("?count=-3&anchor=abc".to_string()));
    let r = QueryResponse::from_page(page(Some("abc")), None, Some(String::new()), "/m".to_string());
    assert_eq!(r.next_page, Some("/m?search=&anchor=abc".to_string()));
}

#[test]
fn response_without_a_cursor_names_no_next_page() {
    let r = QueryResponse::from_page(page(None), Some(25), Some("x".to_string()), "/movies".to_string());
    assert_eq!(r.next_page, None);
    assert_eq!(r.items.len(), 2);
}

#[test]
fn search_term_is_escaped_byte_by_byte() {
    let r = QueryResponse::from_page(page(Some("a")), None, Some("aZ09-_.~ é/%\u{1F600}".to_string()), "".to_string());
    assert_eq!(
        r.next_page,
        Some("?search=aZ09%2D%5F%2E%7E%20%C3%A9%2F%25%F0%9F%98%80&anchor=a".to_string())
    );
}

#[test]
fn count_is_written_in_decimal() {
    for (count, text) in [(0i64, "0"), (7, "7"), (10, "10"), (1234567890, "1234567890"), (i64::MAX, "9223372036854775807"), (i64::MIN, "-9223372036854775808")] {
        let r = QueryResponse::from_page(page(Some("a")), Some(count), None, "".to_string());
        assert_eq!(r.next_page, Some(format!("?count={}&anchor=a", text)));
    }
}

#[test]
fn page_size_defaults_to_twenty_five() {
    assert_eq!(DEFAULT_PAGE_SIZE, 25);
    assert_eq!(PaginationParameters { count: None, anchor: None }.page_size(), 25);
    assert_eq!(PaginationParameters { count: Some(3), anchor: Some("a".to_string()) }.page_size(), 3);
    assert_eq!(PaginationParameters { count: Some(-1), anchor: None }.page_size(), -1);
    assert_eq!(Query { search: None }, Query { search: None });
}
