//! Cursors: the place at which a listing goes on, packed into a text that
//! can stand in a URL as it is.
//!
//! An anchor is packed as a MessagePack array and written in URL-safe base64
//! without padding. Callers treat the text as opaque; what comes back from a
//! caller is untrusted.

use crate::error::Error;
use crate::ident::Uuid;
use crate::time::{date_parts, optional_parts, valid_date, wide_parts, ReleaseDate};
use vstd::prelude::*;
use vstd::utf8::encode_utf8;

verus! {

/// The bytes that `rmp_serde::to_vec` writes for the four fields of an
/// anchor.
pub uninterp spec fn packed_anchor(
    title: Seq<char>,
    release_date: Option<(int, int, int)>,
    id: u128,
    page_number: i64,
) -> Seq<u8>;

/// The four fields that `rmp_serde::from_slice` reads out of the bytes, where
/// it reads an anchor out of them.
pub uninterp spec fn unpacked_anchor(bytes: Seq<u8>) -> Option<
    (Seq<char>, Option<(int, int, int)>, u128, i64),
>;

/// The bytes that `rmp_serde::to_vec` writes for a page number alone.
pub uninterp spec fn packed_page(page_number: i64) -> Seq<u8>;

/// The page number that `rmp_serde::from_slice` reads out of the bytes, where
/// it reads one out of them.
pub uninterp spec fn unpacked_page(bytes: Seq<u8>) -> Option<i64>;

/// The text that `base64::encode_config` writes for the bytes in the
/// configuration `URL_SAFE_NO_PAD`.
pub uninterp spec fn url_safe_text(bytes: Seq<u8>) -> Seq<char>;

/// The bytes that `base64::decode_config` reads out of the text in the
/// configuration `URL_SAFE_NO_PAD`, where it accepts the text.
pub uninterp spec fn url_safe_bytes(text: Seq<char>) -> Option<Seq<u8>>;

/// The characters of which URL-safe base64 text is made: letters, digits,
/// `-` and `_`. None of them needs escaping in a URL.
pub open spec fn url_safe_char(c: char) -> bool {
    ||| 'A' <= c <= 'Z'
    ||| 'a' <= c <= 'z'
    ||| '0' <= c <= '9'
    ||| c == '-'
    ||| c == '_'
}

/// The longest title, in bytes of UTF-8, whose length the packed form still
/// holds in full.
pub const MAX_PACKED_TEXT: usize = 0xffff_ffff;

/// An anchor as a mathematical value.
pub struct AnchorModel {
    pub title: Seq<char>,
    pub release_date: Option<ReleaseDate>,
    pub id: Uuid,
    pub page_number: i64,
}

/// The place of the last record of a page: the record's sort key, and the
/// number of the page that follows.
#[derive(Debug, PartialEq, Eq)]
pub struct MovieAnchor {
    pub title: String,
    pub release_date: Option<ReleaseDate>,
    pub id: Uuid,
    pub page_number: i64,
}

impl View for MovieAnchor {
    type V = AnchorModel;

    open spec fn view(&self) -> AnchorModel {
        AnchorModel {
            title: self.title@,
            release_date: self.release_date,
            id: self.id,
            page_number: self.page_number,
        }
    }
}

/// The cursor that stands for an anchor.
pub open spec fn cursor_text(anchor: AnchorModel) -> Seq<char> {
    url_safe_text(
        packed_anchor(
            anchor.title,
            date_parts(anchor.release_date),
            anchor.id.bits,
            anchor.page_number,
        ),
    )
}

/// The anchor for which a cursor stands, if it stands for one.
pub open spec fn cursor_anchor(text: Seq<char>) -> Option<AnchorModel> {
    match url_safe_bytes(text) {
        None => None,
        Some(bytes) => match unpacked_anchor(bytes) {
            None => None,
            Some((title, date, id, page_number)) => Some(
                AnchorModel {
                    title,
                    release_date: match date {
                        Some((y, m, d)) => Some(ReleaseDate::from_parts(y, m, d)),
                        None => None,
                    },
                    id: Uuid { bits: id },
                    page_number,
                },
            ),
        },
    }
}

/// Writes bytes as text with `base64::encode_config` in the configuration
/// `URL_SAFE_NO_PAD`. The text is made of letters, digits, `-` and `_` only,
/// and `base64::decode_config` in the same configuration reads the same bytes
/// back out of it.
#[verifier::external_body]
pub(crate) fn encode_url_safe(bytes: &Vec<u8>) -> (text: String)
    ensures
        text@ == url_safe_text(bytes@),
        url_safe_bytes(text@) == Some(bytes@),
        forall|i: int| 0 <= i < text@.len() ==> url_safe_char(#[trigger] text@[i]),
{
    base64::encode_config(bytes, base64::URL_SAFE_NO_PAD)
}

/// Reads bytes out of text with `base64::decode_config` in the configuration
/// `URL_SAFE_NO_PAD`, which fails on text that is no base64 of that alphabet.
#[verifier::external_body]
pub(crate) fn decode_url_safe(text: &str) -> (bytes: Result<Vec<u8>, base64::DecodeError>)
    ensures
        bytes is Ok <==> url_safe_bytes(text@) is Some,
        bytes matches Ok(b) ==> url_safe_bytes(text@) == Some(b@),
{
    base64::decode_config(text, base64::URL_SAFE_NO_PAD)
}

/// Packs the fields of an anchor with `rmp_serde::to_vec`, as an array of
/// the title, the date (or nil), the identifier's sixteen bytes and the page
/// number. `rmp_serde::from_slice` reads the same fields back, as long as the
/// length of the title fits the 32 bits that the packed form has for it.
#[verifier::external_body]
fn pack_anchor(title: &str, release_date: Option<(i32, u32, u32)>, id: u128, page_number: i64) -> (bytes:
    Vec<u8>)
    requires
        release_date matches Some(d) ==> valid_date(d.0 as int, d.1 as int, d.2 as int),
    ensures
        bytes@ == packed_anchor(title@, wide_parts(release_date), id, page_number),
        encode_utf8(title@).len() <= MAX_PACKED_TEXT ==> unpacked_anchor(bytes@) == Some(
            (title@, wide_parts(release_date), id, page_number),
        ),
{
    let date = release_date.map(|d| chrono::NaiveDate::from_ymd_opt(d.0, d.1, d.2).unwrap());
    rmp_serde::to_vec(&(title, date, uuid::Uuid::from_u128(id), page_number)).unwrap()
}

/// Reads the fields of an anchor with `rmp_serde::from_slice`, which fails
/// on bytes that are no such array; the failure comes back as the text that
/// the reader's error displays. A date that was read names a day that exists.
#[verifier::external_body]
fn unpack_anchor(bytes: &Vec<u8>) -> (fields: Result<
    (String, Option<(i32, u32, u32)>, u128, i64),
    String,
>)
    ensures
        fields is Ok <==> unpacked_anchor(bytes@) is Some,
        fields matches Ok(f) ==> {
            &&& unpacked_anchor(bytes@) == Some((f.0@, wide_parts(f.1), f.2, f.3))
            &&& f.1 matches Some(d) ==> valid_date(d.0 as int, d.1 as int, d.2 as int)
        },
{
    let (title, date, id, page_number): (String, Option<chrono::NaiveDate>, uuid::Uuid, i64) =
        rmp_serde::from_slice(bytes).map_err(|e| e.to_string())?;
    let date = date.map(
        |d| (chrono::Datelike::year(&d), chrono::Datelike::month(&d), chrono::Datelike::day(&d)),
    );
    Ok((title, date, id.as_u128(), page_number))
}

/// Packs a page number with `rmp_serde::to_vec`, as an array of one number.
/// `rmp_serde::from_slice` reads the same number back.
#[verifier::external_body]
pub(crate) fn pack_page(page_number: i64) -> (bytes: Vec<u8>)
    ensures
        bytes@ == packed_page(page_number),
        unpacked_page(bytes@) == Some(page_number),
{
    rmp_serde::to_vec(&(page_number,)).unwrap()
}

/// Reads a page number with `rmp_serde::from_slice`, which fails on bytes
/// that are no array of one number; the failure comes back as the text that
/// the reader's error displays.
#[verifier::external_body]
pub(crate) fn unpack_page(bytes: &Vec<u8>) -> (page_number: Result<i64, String>)
    ensures
        page_number is Ok <==> unpacked_page(bytes@) is Some,
        page_number matches Ok(n) ==> unpacked_page(bytes@) == Some(n),
{
    let (page_number,): (i64,) = rmp_serde::from_slice(bytes).map_err(|e| e.to_string())?;
    Ok(page_number)
}

/// The cursor of an anchor.
///
/// The text is the same for the same anchor, is made of letters, digits, `-`
/// and `_` only, and stands for the anchor again: `deserialize_anchor` gives
/// the anchor back.
pub fn serialize_anchor(anch: MovieAnchor) -> (text: String)
    ensures
        text@ == cursor_text(anch@),
        forall|i: int| 0 <= i < text@.len() ==> url_safe_char(#[trigger] text@[i]),
        encode_utf8(anch@.title).len() <= MAX_PACKED_TEXT ==> cursor_anchor(text@) == Some(anch@),
{
    let parts = optional_parts(&anch.release_date);
    let bytes = pack_anchor(anch.title.as_str(), parts, anch.id.as_u128(), anch.page_number);
    proof {
        if let Some(d) = anch.release_date {
            d.lemma_parts();
        }
    }
    encode_url_safe(&bytes)
}

/// The anchor for which a cursor stands.
///
/// Fails with `AnchorDecodeError` on a text that is no URL-safe base64, and
/// with `AnchorParseError` on one whose bytes do not spell an anchor.
pub fn deserialize_anchor(raw: String) -> (anchor: Result<MovieAnchor, Error>)
    ensures
        anchor is Ok <==> cursor_anchor(raw@) is Some,
        anchor matches Ok(a) ==> cursor_anchor(raw@) == Some(a@),
        anchor matches Err(e) ==> (e is AnchorDecodeError <==> url_safe_bytes(raw@) is None) && (
        e is AnchorParseError <==> url_safe_bytes(raw@) is Some),
{
    let bytes = match decode_url_safe(raw.as_str()) {
        Ok(bytes) => bytes,
        Err(e) => {
            return Err(Error::AnchorDecodeError(e));
        },
    };
    match unpack_anchor(&bytes) {
        Err(e) => Err(Error::AnchorParseError(e)),
        Ok((title, parts, id, page_number)) => {
            let release_date = match parts {
                None => None,
                Some((y, m, d)) => {
                    let date = ReleaseDate::from_ymd_opt(y, m, d);
                    proof {
                        let made = date.unwrap();
                        made.lemma_parts();
                    }
                    date
                },
            };
            Ok(MovieAnchor { title, release_date, id: Uuid::from_u128(id), page_number })
        },
    }
}

} // verus!
