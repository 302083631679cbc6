//! Record identities.

use crate::time::{date_parts, optional_parts, valid_date, wide_parts, ReleaseDate};
use vstd::prelude::*;
use vstd::utf8::encode_utf8;

verus! {

/// A 128-bit universally unique identifier, held as the number that its
/// sixteen bytes spell in big-endian order. Identifiers are ordered as these
/// numbers are, which is the order of their bytes.
#[derive(Clone, Copy, Debug, PartialEq, Eq, Hash, Structural)]
pub struct Uuid {
    pub bits: u128,
}

impl Uuid {
    /// The identifier whose bytes are all zero.
    pub fn nil() -> (id: Uuid)
        ensures
            id.bits == 0,
    {
        Uuid { bits: 0 }
    }

    /// The identifier of the number.
    pub fn from_u128(bits: u128) -> (id: Uuid)
        ensures
            id.bits == bits,
    {
        Uuid { bits }
    }

    /// The number of the identifier.
    pub fn as_u128(&self) -> (bits: u128)
        ensures
            bits == self.bits,
    {
        self.bits
    }
}

/// The number of the identifier that `uuid::Uuid::new_v5` derives from a
/// namespace, given as its number, and a name.
pub uninterp spec fn name_based_id(namespace: u128, name: Seq<u8>) -> u128;

/// The text that `{:?}` writes for an optional `chrono::NaiveDate`.
pub uninterp spec fn date_debug_text(date: Option<(int, int, int)>) -> Seq<char>;

/// The text that `{:?}` writes for a string.
pub uninterp spec fn text_debug_text(text: Seq<char>) -> Seq<char>;

/// Derives an identifier from a namespace and a name with
/// `uuid::Uuid::new_v5`: the same identifier for the same two, always.
#[verifier::external_body]
fn new_v5(namespace: u128, name: &[u8]) -> (id: u128)
    ensures
        id == name_based_id(namespace, name@),
{
    uuid::Uuid::new_v5(&uuid::Uuid::from_u128(namespace), name).as_u128()
}

/// Writes an optional date as `{:?}` writes an optional `chrono::NaiveDate`.
#[verifier::external_body]
fn date_debug(date: Option<(i32, u32, u32)>) -> (text: String)
    requires
        date matches Some(d) ==> valid_date(d.0 as int, d.1 as int, d.2 as int),
    ensures
        text@ == date_debug_text(wide_parts(date)),
{
    format!("{:?}", date.map(|d| chrono::NaiveDate::from_ymd_opt(d.0, d.1, d.2).unwrap()))
}

/// Writes a text as `{:?}` writes a string.
#[verifier::external_body]
fn text_debug(text: &str) -> (written: String)
    ensures
        written@ == text_debug_text(text@),
{
    format!("{:?}", text)
}

/// The identifier that a record of this title and release date gets: the
/// name-based identifier of the title as written by `{:?}`, in the namespace
/// that is the name-based identifier of the date as written by `{:?}` in the
/// nil namespace.
pub open spec fn derived_id(title: Seq<char>, release_date: Option<ReleaseDate>) -> Uuid {
    Uuid {
        bits: name_based_id(
            name_based_id(0, encode_utf8(date_debug_text(date_parts(release_date)))),
            encode_utf8(text_debug_text(title)),
        ),
    }
}

/// The identifier that a record of this title and release date gets. Two
/// records of the same title and release date get the same identifier.
pub fn derive_id(title: &str, release_date: &Option<ReleaseDate>) -> (id: Uuid)
    ensures
        id == derived_id(title@, *release_date),
{
    let date_text = date_debug(optional_parts(release_date));
    let namespace = new_v5(0, date_text.as_str().as_bytes());
    let title_text = text_debug(title);
    Uuid { bits: new_v5(namespace, title_text.as_str().as_bytes()) }
}

/// The stand-in for a record of which only the identity is known.
#[derive(Clone, Copy, Debug, PartialEq, Eq, Structural)]
pub struct HasId {
    pub id: Uuid,
}

} // verus!
