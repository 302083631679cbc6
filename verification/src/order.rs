//! The fixed order of a listing, and the test by which a listing goes on
//! from an anchor.
//!
//! Records are listed by title, ascending; within a title by release date,
//! descending, records without a date last; and within that by identifier,
//! ascending. Since no two records share an identifier, no two records share
//! a place in this order.

use crate::cursor::{AnchorModel, MovieAnchor};
use crate::ident::Uuid;
use crate::record::{Movie, MovieModel};
use crate::text::{
    lemma_text_irreflexive, lemma_text_total, lemma_text_transitive, sorts_before, text_before,
};
use crate::time::{lemma_date_total, ReleaseDate};
use vstd::prelude::*;

verus! {

/// What places a record in a listing.
pub struct SortKey {
    pub title: Seq<char>,
    pub release_date: Option<ReleaseDate>,
    pub id: Uuid,
}

impl MovieModel {
    /// The place of the record.
    pub open spec fn key(self) -> SortKey {
        SortKey { title: self.title, release_date: self.release_date, id: self.id }
    }
}

impl AnchorModel {
    /// The place that the anchor marks.
    pub open spec fn key(self) -> SortKey {
        SortKey { title: self.title, release_date: self.release_date, id: self.id }
    }
}

/// Whether a record of date `a` is listed before one of date `b`, their
/// titles being the same: the later date first, and no date at all last.
pub open spec fn date_first(a: Option<ReleaseDate>, b: Option<ReleaseDate>) -> bool {
    match (a, b) {
        (Some(x), Some(y)) => y.before(x),
        (Some(_), None) => true,
        (None, _) => false,
    }
}

/// Whether the place `a` lies strictly before the place `b`.
pub open spec fn key_before(a: SortKey, b: SortKey) -> bool {
    ||| text_before(a.title, b.title)
    ||| a.title == b.title && date_first(a.release_date, b.release_date)
    ||| a.title == b.title && a.release_date == b.release_date && a.id.bits < b.id.bits
}

/// Whether a listing that goes on from `anchor` holds `row`.
///
/// A record follows the anchor if its title is greater; or if the title is
/// the same and the anchor has a date, and the record's date is lower (no
/// date being the lowest) or is the same with a greater identifier; or if the
/// title is the same and neither has a date, and the record's identifier is
/// greater.
pub open spec fn follows(anchor: AnchorModel, row: MovieModel) -> bool {
    ||| text_before(anchor.title, row.title)
    ||| row.title == anchor.title && anchor.release_date is Some && (date_lower(
        row.release_date,
        anchor.release_date->0,
    ) || (row.release_date == anchor.release_date && row.id.bits > anchor.id.bits))
    ||| row.title == anchor.title && anchor.release_date is None && row.release_date is None
        && row.id.bits > anchor.id.bits
}

/// Whether `date` is lower than `than`; no date is lower than any date.
pub open spec fn date_lower(date: Option<ReleaseDate>, than: ReleaseDate) -> bool {
    match date {
        Some(d) => d.before(than),
        None => true,
    }
}

/// The records that follow an anchor are those that lie strictly after it in
/// the fixed order.
pub proof fn lemma_follows_is_after(anchor: AnchorModel, row: MovieModel)
    ensures
        follows(anchor, row) <==> key_before(anchor.key(), row.key()),
{
}

/// No place lies before itself.
pub proof fn lemma_key_irreflexive(a: SortKey)
    ensures
        !key_before(a, a),
{
    lemma_text_irreflexive(a.title);
}

/// The fixed order is transitive.
pub proof fn lemma_key_transitive(a: SortKey, b: SortKey, c: SortKey)
    requires
        key_before(a, b),
        key_before(b, c),
    ensures
        key_before(a, c),
{
    if text_before(a.title, b.title) && text_before(b.title, c.title) {
        lemma_text_transitive(a.title, b.title, c.title);
    }
}

/// Of two different places one lies before the other.
pub proof fn lemma_key_total(a: SortKey, b: SortKey)
    ensures
        a == b || key_before(a, b) || key_before(b, a),
{
    lemma_text_total(a.title, b.title);
    if a.title == b.title {
        if let (Some(x), Some(y)) = (a.release_date, b.release_date) {
            lemma_date_total(x, y);
        }
    }
}

/// No two places lie before each other.
pub proof fn lemma_key_asymmetric(a: SortKey, b: SortKey)
    requires
        key_before(a, b),
    ensures
        !key_before(b, a),
{
    if key_before(b, a) {
        lemma_key_transitive(a, b, a);
        lemma_key_irreflexive(a);
    }
}

/// Whether the place of `a` lies strictly before the place given.
fn place_before(
    a_title: &str,
    a_date: Option<ReleaseDate>,
    a_id: Uuid,
    b_title: &str,
    b_date: Option<ReleaseDate>,
    b_id: Uuid,
) -> (r: bool)
    ensures
        r == key_before(
            SortKey { title: a_title@, release_date: a_date, id: a_id },
            SortKey { title: b_title@, release_date: b_date, id: b_id },
        ),
{
    if sorts_before(a_title, b_title) {
        return true;
    }
    if sorts_before(b_title, a_title) {
        proof {
            lemma_text_irreflexive(a_title@);
            if text_before(a_title@, b_title@) {
                lemma_text_transitive(a_title@, b_title@, a_title@);
            }
        }
        return false;
    }
    proof {
        lemma_text_total(a_title@, b_title@);
    }
    match (a_date, b_date) {
        (Some(x), Some(y)) => y.is_before(&x) || (x == y && a_id.bits < b_id.bits),
        (Some(_), None) => true,
        (None, Some(_)) => false,
        (None, None) => a_id.bits < b_id.bits,
    }
}

/// Whether `a` is listed before `b`.
pub fn listed_before(a: &Movie, b: &Movie) -> (r: bool)
    ensures
        r == key_before(a@.key(), b@.key()),
{
    place_before(a.title.as_str(), a.release_date, a.id, b.title.as_str(), b.release_date, b.id)
}

/// Whether a listing that goes on from `anchor` holds `row`.
pub fn is_after(anchor: &MovieAnchor, row: &Movie) -> (r: bool)
    ensures
        r == follows(anchor@, row@),
{
    proof {
        lemma_follows_is_after(anchor@, row@);
    }
    place_before(
        anchor.title.as_str(),
        anchor.release_date,
        anchor.id,
        row.title.as_str(),
        row.release_date,
        row.id,
    )
}

} // verus!
