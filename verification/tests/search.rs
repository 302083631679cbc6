use catalog::error::Error;
use catalog::ident::{HasId, Uuid};
use catalog::idx::{
    deserialize_anchor, resolve_hit, search_page, search_request, serialize_anchor, DecodedHit,
    MovieAnchor, SearchHit,
};
use catalog::record::Movie;
use catalog::time::Timestamp;

fn movie(id: u128) -> Movie {
    Movie {
        id: Uuid::from_u128(id),
        title: format!("movie {}", id),
        tagline: None,
        overview: None,
        spoken_languages: Vec::new(),
        production_countries: Vec::new(),
        genres: Vec::new(),
        release_date: None,
        created: Timestamp { micros: 0 },
        updated: Timestamp { micros: 0 },
        indexed: None,
        foreign_url: None,
        deleted: None,
    }
}

fn has_id(id: u128) -> HasId {
    HasId { id: Uuid::from_u128(id) }
}

fn cursor(page_number: i64) -> Option<String> {
    Some(serialize_anchor(MovieAnchor { page_number }))
}

#[test]
fn search_cursor_round_trip() {
    for n in [1, 2, 0, -1, 127, 128, 65536, i64::MAX, i64::MIN] {
        let text = serialize_anchor(MovieAnchor { page_number: n });
        assert!(text.chars().all(|c| c.is_ascii_alphanumeric() || c == '-' || c == '_'));
        assert_eq!(deserialize_anchor(text).unwrap(), MovieAnchor { page_number: n });
    }
}

#[test]
fn search_cursor_text_is_exact() {
    // an array of one number: 0x91 0x02
    assert_eq!(serialize_anchor(MovieAnchor { page_number: 2 }), "kQI");
}

#[test]
fn search_cursor_that_is_malformed_is_a_client_error() {
    let r = deserialize_anchor("a b".to_string());
    assert!(matches!(r, Err(Error::AnchorDecodeError(_))));
    let r = deserialize_anchor(base64::encode_config(b"\x91\xa1x", base64::URL_SAFE_NO_PAD));
    assert!(matches!(r, Err(Error::AnchorParseError(_))));
    assert!(r.unwrap_err().is_client_input());
    assert!(!Error::IndexQueryPartialError.is_client_input());
    assert!(!Error::IndexQueryError(String::new()).is_client_input());
}

#[test]
fn search_asks_for_the_window_of_its_page() {
    let term = "blade runner".to_string();
    let first = search_request(&term, 25, &None).unwrap();
    assert_eq!((first.page_number, first.from, first.size), (1, 0, 25));
    assert_eq!(first.phrase, "\"blade runner\"");
    assert_eq!(first.fields, vec!["title".to_string()]);
    let third = search_request(&term, 25, &cursor(3)).unwrap();
    assert_eq!((third.page_number, third.from, third.size), (3, 50, 25));
    let zeroth = search_request(&term, 10, &cursor(0)).unwrap();
    assert_eq!((zeroth.page_number, zeroth.from, zeroth.size), (0, -10, 10));
}

#[test]
fn search_window_stops_at_the_ends_of_the_integers() {
    let term = String::new();
    assert_eq!(search_request(&term, i64::MAX, &cursor(i64::MAX)).unwrap().from, i64::MAX);
    assert_eq!(search_request(&term, 2, &cursor(i64::MIN)).unwrap().from, i64::MIN);
    assert_eq!(search_request(&term, i64::MIN, &cursor(i64::MIN)).unwrap().from, i64::MAX);
    assert_eq!(search_request(&term, 1, &cursor(i64::MAX)).unwrap().from, i64::MAX - 1);
    assert_eq!(search_request(&term, -1, &cursor(i64::MIN)).unwrap().from, i64::MAX);
    assert_eq!(search_request(&term, 1, &cursor(i64::MIN)).unwrap().from, i64::MIN);
    assert_eq!(search_request(&term, "x".len() as i64, &None).unwrap().phrase, "\"\"");
}

#[test]
fn search_with_a_bad_cursor_fails() {
    let term = "x".to_string();
    assert!(matches!(search_request(&term, 25, &Some("@".to_string())), Err(Error::AnchorDecodeError(_))));
    let not_a_page = base64::encode_config(b"\xc0", base64::URL_SAFE_NO_PAD);
    assert!(matches!(search_request(&term, 25, &Some(not_a_page)), Err(Error::AnchorParseError(_))));
}

#[test]
fn hit_is_the_record_where_there_is_one() {
    let full = DecodedHit { record: Some(movie(1)), id: Some(has_id(1)) };
    assert_eq!(resolve_hit(full), Some(SearchHit::Record(movie(1))));
    let record_only = DecodedHit { record: Some(movie(1)), id: None };
    assert_eq!(resolve_hit(record_only), Some(SearchHit::Record(movie(1))));
    let bare = DecodedHit { record: None, id: Some(has_id(2)) };
    assert_eq!(resolve_hit(bare), Some(SearchHit::Placeholder(has_id(2))));
    assert_eq!(resolve_hit(DecodedHit { record: None, id: None }), None);
}

#[test]
fn search_page_keeps_hits_in_order_and_degrades_what_does_not_read() {
    let hits = vec![
        DecodedHit { record: Some(movie(3)), id: Some(has_id(3)) },
        DecodedHit { record: None, id: Some(has_id(9)) },
        DecodedHit { record: Some(movie(1)), id: None },
    ];
    let page = search_page(2, 3, Some(7), hits);
    assert_eq!(page.page_number, 2);
    assert_eq!(
        page.items,
        vec![SearchHit::Record(movie(3)), SearchHit::Placeholder(has_id(9)), SearchHit::Record(movie(1))]
    );
    assert_eq!(deserialize_anchor(page.next_anchor.unwrap()).unwrap(), MovieAnchor { page_number: 3 });
}

#[test]
fn search_page_names_a_cursor_iff_the_index_counts_more() {
    assert!(search_page(2, 3, Some(7), Vec::new()).next_anchor.is_some());
    assert!(search_page(2, 3, Some(6), Vec::new()).next_anchor.is_none());
    assert!(search_page(2, 3, Some(5), Vec::new()).next_anchor.is_none());
    assert!(search_page(1, 25, None, Vec::new()).next_anchor.is_none());
    assert!(search_page(1, 0, Some(1), Vec::new()).next_anchor.is_some());
    assert!(search_page(i64::MAX, i64::MAX, Some(i64::MAX), Vec::new()).next_anchor.is_none());
    let last = search_page(i64::MAX, 1, Some(i64::MAX), Vec::new());
    assert!(last.next_anchor.is_none());
    let wrapped = search_page(i64::MAX, -1, Some(0), Vec::new());
    assert_eq!(deserialize_anchor(wrapped.next_anchor.unwrap()).unwrap(), MovieAnchor { page_number: i64::MAX });
}

#[test]
fn search_page_leaves_out_a_hit_without_identity() {
    let hits = vec![
        DecodedHit { record: None, id: None },
        DecodedHit { record: Some(movie(3)), id: None },
        DecodedHit { record: None, id: None },
        DecodedHit { record: None, id: Some(has_id(4)) },
    ];
    let page = search_page(1, 25, Some(4), hits);
    assert_eq!(page.items, vec![SearchHit::Record(movie(3)), SearchHit::Placeholder(has_id(4))]);
    assert_eq!(page.next_anchor, None);
}
