use catalog::cursor::{deserialize_anchor, serialize_anchor, MovieAnchor};
use catalog::error::Error;
use catalog::ident::Uuid;
use catalog::time::ReleaseDate;

fn dune() -> MovieAnchor {
    MovieAnchor {
        title: "Dune".to_string(),
        release_date: ReleaseDate::from_ymd_opt(1984, 12, 14),
        id: Uuid::from_u128(0x936DA01F_9ABD_4D9D_80C7_02AF85C822A8),
        page_number: 2,
    }
}

#[test]
fn cursor_round_trip() {
    let text = serialize_anchor(dune());
    let back = deserialize_anchor(text).unwrap();
    assert_eq!(back.title, "Dune");
    assert_eq!(back.release_date, ReleaseDate::from_ymd_opt(1984, 12, 14));
    assert_eq!(back.id, Uuid::from_u128(0x936DA01F_9ABD_4D9D_80C7_02AF85C822A8));
    assert_eq!(back.page_number, 2);
}

#[test]
fn cursor_round_trip_without_date() {
    let anchor = MovieAnchor {
        title: "Zoë — “quoted”".to_string(),
        release_date: None,
        id: Uuid::from_u128(u128::MAX),
        page_number: i64::MAX,
    };
    let back = deserialize_anchor(serialize_anchor(anchor)).unwrap();
    assert_eq!(back.title, "Zoë — “quoted”");
    assert_eq!(back.release_date, None);
    assert_eq!(back.id, Uuid::from_u128(u128::MAX));
    assert_eq!(back.page_number, i64::MAX);
}

#[test]
fn cursor_round_trip_at_the_ends_of_the_calendar() {
    for (y, m, d) in [(-262143, 1, 1), (262142, 12, 31), (0, 2, 29), (-1, 12, 31), (10000, 1, 1)] {
        let date = ReleaseDate::from_ymd_opt(y, m, d);
        assert!(date.is_some());
        let anchor = MovieAnchor {
            title: String::new(),
            release_date: date,
            id: Uuid::nil(),
            page_number: -1,
        };
        let back = deserialize_anchor(serialize_anchor(anchor)).unwrap();
        assert_eq!(back.release_date, date);
        assert_eq!(back.page_number, -1);
    }
}

#[test]
fn cursor_text_is_exact_and_url_safe() {
    let text = serialize_anchor(dune());
    // array of four: "Dune", "1984-12-14", sixteen bytes, 2
    let bytes: Vec<u8> = vec![
        0x94, 0xa4, b'D', b'u', b'n', b'e', 0xaa, b'1', b'9', b'8', b'4', b'-', b'1', b'2', b'-',
        b'1', b'4', 0xc4, 0x10, 0x93, 0x6D, 0xA0, 0x1F, 0x9A, 0xBD, 0x4D, 0x9D, 0x80, 0xC7, 0x02,
        0xAF, 0x85, 0xC8, 0x22, 0xA8, 0x02,
    ];
    assert_eq!(text, base64::encode_config(&bytes, base64::URL_SAFE_NO_PAD));
    assert!(text.chars().all(|c| c.is_ascii_alphanumeric() || c == '-' || c == '_'));
    assert_eq!(text, serialize_anchor(dune()));
}

#[test]
fn cursor_that_is_no_base64_is_a_decode_error() {
    let r = deserialize_anchor("not base64!".to_string());
    assert!(matches!(r, Err(Error::AnchorDecodeError(_))));
    assert!(r.unwrap_err().is_client_input());
}

#[test]
fn cursor_that_is_no_anchor_is_a_parse_error() {
    let text = base64::encode_config(b"hello", base64::URL_SAFE_NO_PAD);
    let r = deserialize_anchor(text);
    assert!(matches!(r, Err(Error::AnchorParseError(_))));
    assert!(r.unwrap_err().is_client_input());
}

#[test]
fn cursor_with_an_impossible_date_is_a_parse_error() {
    // array of four: "", "2001-02-29", sixteen zero bytes, 1
    let mut bytes: Vec<u8> = vec![0x94, 0xa0, 0xaa];
    bytes.extend_from_slice(b"2001-02-29");
    bytes.extend_from_slice(&[0xc4, 0x10]);
    bytes.extend_from_slice(&[0u8; 16]);
    bytes.push(0x01);
    let r = deserialize_anchor(base64::encode_config(&bytes, base64::URL_SAFE_NO_PAD));
    assert!(matches!(r, Err(Error::AnchorParseError(_))));
}
