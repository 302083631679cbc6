use catalog::text::sorts_before;
use catalog::time::{ReleaseDate, Timestamp, MAX_YEAR, MIN_YEAR};

#[test]
fn dates_exist_as_the_calendar_has_them() {
    let years = [-262144, -262143, -401, -400, -100, -4, -1, 0, 1, 4, 100, 400, 1900, 1984, 2000, 2023, 2024, 2100, 9999, 10000, 262142, 262143, i32::MIN, i32::MAX];
    for y in years {
        for m in 0..=13u32 {
            for d in 0..=32u32 {
                let ours = ReleaseDate::from_ymd_opt(y, m, d);
                let theirs = chrono::NaiveDate::from_ymd_opt(y, m, d);
                assert_eq!(ours.is_some(), theirs.is_some(), "{}-{}-{}", y, m, d);
                if let Some(date) = ours {
                    assert_eq!((date.year(), date.month(), date.day()), (y, m, d));
                    assert_eq!(date.parts(), (y, m, d));
                }
            }
        }
    }
    assert_eq!(ReleaseDate::from_ymd_opt(2024, u32::MAX, 1), None);
    assert_eq!(ReleaseDate::from_ymd_opt(2024, 1, u32::MAX), None);
    assert_eq!((MIN_YEAR, MAX_YEAR), (-262143, 262142));
}

#[test]
fn dates_are_ordered_as_days() {
    let d = |y, m, d| ReleaseDate::from_ymd_opt(y, m, d).unwrap();
    assert!(d(1984, 12, 13).is_before(&d(1984, 12, 14)));
    assert!(d(1984, 11, 30).is_before(&d(1984, 12, 1)));
    assert!(d(1983, 12, 31).is_before(&d(1984, 1, 1)));
    assert!(d(-1, 12, 31).is_before(&d(0, 1, 1)));
    assert!(!d(1984, 12, 14).is_before(&d(1984, 12, 14)));
    assert!(!d(1984, 12, 15).is_before(&d(1984, 12, 14)));
    assert!(!d(1985, 1, 1).is_before(&d(1984, 12, 31)));
}

#[test]
fn instants_are_ordered_by_their_microseconds() {
    assert!(Timestamp { micros: 1 }.is_before(&Timestamp { micros: 2 }));
    assert!(!Timestamp { micros: 2 }.is_before(&Timestamp { micros: 2 }));
    assert!(Timestamp { micros: i64::MIN }.is_before(&Timestamp { micros: i64::MAX }));
}

#[test]
fn texts_are_ordered_as_strings_are() {
    let texts = ["", "a", "A", "aa", "ab", "b", "Dune", "Dune ", "Dunf", "é", "z", "\u{7f}", "\u{80}", "\u{7ff}", "\u{800}", "\u{ffff}", "\u{10000}", "😀", "日本"];
    for a in texts {
        for b in texts {
            assert_eq!(sorts_before(a, b), a < b, "{:?} {:?}", a, b);
        }
    }
}
