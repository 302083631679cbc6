//! The catalog's records and the values that travel with them.

use crate::ident::Uuid;
use crate::time::{ReleaseDate, Timestamp};
use vstd::prelude::*;

verus! {

/// What an optional text holds, as characters.
pub open spec fn text_of(text: Option<String>) -> Option<Seq<char>> {
    match text {
        Some(t) => Some(t@),
        None => None,
    }
}

/// A copy of an optional text.
pub fn clone_text(text: &Option<String>) -> (copy: Option<String>)
    ensures
        text_of(copy) == text_of(*text),
{
    match text {
        Some(t) => Some(t.clone()),
        None => None,
    }
}

/// The views of the items of a sequence, in its order.
pub open spec fn views<T: View>(items: Seq<T>) -> Seq<T::V> {
    Seq::new(items.len(), |i: int| items[i]@)
}

/// The items in the opposite order.
pub fn reversed<T>(items: Vec<T>) -> (turned: Vec<T>)
    ensures
        turned@.len() == items@.len(),
        forall|i: int| 0 <= i < turned@.len() ==> #[trigger] turned@[i] == items@[items@.len() - 1 - i],
{
    let mut left = items;
    let mut turned: Vec<T> = Vec::new();
    while left.len() > 0
        invariant
            left@.len() + turned@.len() == items@.len(),
            forall|i: int| 0 <= i < left@.len() ==> left@[i] == items@[i],
            forall|i: int|
                0 <= i < turned@.len() ==> #[trigger] turned@[i] == items@[items@.len() - 1 - i],
        decreases left@.len(),
    {
        let item = left.pop().unwrap();
        turned.push(item);
    }
    turned
}

/// A language as a mathematical value.
pub struct LanguageModel {
    pub code: Seq<char>,
    pub name: Seq<char>,
}

/// A spoken language: its code and its name.
#[derive(Debug, PartialEq, Eq)]
pub struct Language {
    pub code: String,
    pub name: String,
}

impl View for Language {
    type V = LanguageModel;

    open spec fn view(&self) -> LanguageModel {
        LanguageModel { code: self.code@, name: self.name@ }
    }
}

impl Clone for Language {
    fn clone(&self) -> (copy: Self)
        ensures
            copy@ == self@,
    {
        Language { code: self.code.clone(), name: self.name.clone() }
    }
}

/// A country as a mathematical value.
pub struct CountryModel {
    pub code: Seq<char>,
    pub name: Seq<char>,
}

/// A country of production: its code and its name.
#[derive(Debug, PartialEq, Eq)]
pub struct Country {
    pub code: String,
    pub name: String,
}

impl View for Country {
    type V = CountryModel;

    open spec fn view(&self) -> CountryModel {
        CountryModel { code: self.code@, name: self.name@ }
    }
}

impl Clone for Country {
    fn clone(&self) -> (copy: Self)
        ensures
            copy@ == self@,
    {
        Country { code: self.code.clone(), name: self.name.clone() }
    }
}

/// A genre as a mathematical value.
pub struct GenreModel {
    pub id: Uuid,
    pub name: Seq<char>,
}

/// A genre: its identifier and its name.
#[derive(Debug, PartialEq, Eq)]
pub struct Genre {
    pub id: Uuid,
    pub name: String,
}

impl View for Genre {
    type V = GenreModel;

    open spec fn view(&self) -> GenreModel {
        GenreModel { id: self.id, name: self.name@ }
    }
}

impl Clone for Genre {
    fn clone(&self) -> (copy: Self)
        ensures
            copy@ == self@,
    {
        Genre { id: self.id, name: self.name.clone() }
    }
}

/// A copy of a list of languages.
pub fn clone_languages(list: &Vec<Language>) -> (copy: Vec<Language>)
    ensures
        views(copy@) == views(list@),
{
    let copy = list.clone();
    assert(views(copy@) =~= views(list@));
    copy
}

/// A copy of a list of countries.
pub fn clone_countries(list: &Vec<Country>) -> (copy: Vec<Country>)
    ensures
        views(copy@) == views(list@),
{
    let copy = list.clone();
    assert(views(copy@) =~= views(list@));
    copy
}

/// A copy of a list of genres.
pub fn clone_genres(list: &Vec<Genre>) -> (copy: Vec<Genre>)
    ensures
        views(copy@) == views(list@),
{
    let copy = list.clone();
    assert(views(copy@) =~= views(list@));
    copy
}

/// A record as a mathematical value: texts as sequences of characters, lists
/// as sequences.
pub struct MovieModel {
    pub id: Uuid,
    pub title: Seq<char>,
    pub tagline: Option<Seq<char>>,
    pub overview: Option<Seq<char>>,
    pub spoken_languages: Seq<LanguageModel>,
    pub production_countries: Seq<CountryModel>,
    pub genres: Seq<GenreModel>,
    pub release_date: Option<ReleaseDate>,
    pub created: Timestamp,
    pub updated: Timestamp,
    pub indexed: Option<Timestamp>,
    pub foreign_url: Option<Seq<char>>,
    pub deleted: Option<Timestamp>,
}

/// The catalog's record.
///
/// `updated` moves with every change of the record. `indexed` is the instant
/// of which the search index is known to reflect the record, and `deleted`
/// the instant at which the record was struck out; a record that was struck
/// out stays in the primary store until it is purged.
#[derive(Debug, PartialEq, Eq)]
pub struct Movie {
    pub id: Uuid,
    pub title: String,
    pub tagline: Option<String>,
    pub overview: Option<String>,
    pub spoken_languages: Vec<Language>,
    pub production_countries: Vec<Country>,
    pub genres: Vec<Genre>,
    pub release_date: Option<ReleaseDate>,
    pub created: Timestamp,
    pub updated: Timestamp,
    pub indexed: Option<Timestamp>,
    pub foreign_url: Option<String>,
    pub deleted: Option<Timestamp>,
}

impl View for Movie {
    type V = MovieModel;

    open spec fn view(&self) -> MovieModel {
        MovieModel {
            id: self.id,
            title: self.title@,
            tagline: text_of(self.tagline),
            overview: text_of(self.overview),
            spoken_languages: views(self.spoken_languages@),
            production_countries: views(self.production_countries@),
            genres: views(self.genres@),
            release_date: self.release_date,
            created: self.created,
            updated: self.updated,
            indexed: self.indexed,
            foreign_url: text_of(self.foreign_url),
            deleted: self.deleted,
        }
    }
}

impl Clone for Movie {
    fn clone(&self) -> (copy: Self)
        ensures
            copy@ == self@,
    {
        Movie {
            id: self.id,
            title: self.title.clone(),
            tagline: clone_text(&self.tagline),
            overview: clone_text(&self.overview),
            spoken_languages: clone_languages(&self.spoken_languages),
            production_countries: clone_countries(&self.production_countries),
            genres: clone_genres(&self.genres),
            release_date: self.release_date,
            created: self.created,
            updated: self.updated,
            indexed: self.indexed,
            foreign_url: clone_text(&self.foreign_url),
            deleted: self.deleted,
        }
    }
}

impl MovieModel {
    /// The record has not been struck out.
    pub open spec fn live(self) -> bool {
        self.deleted is None
    }

    /// The search index does not yet reflect the record as it stands: it was
    /// never indexed, or it changed after it was last indexed.
    pub open spec fn stale(self) -> bool {
        match self.indexed {
            None => true,
            Some(at) => at.before(self.updated),
        }
    }

    /// The record may be removed from the primary store for good: it was
    /// struck out, and the search index was brought up to date after that.
    pub open spec fn purgeable(self) -> bool {
        match (self.deleted, self.indexed) {
            (Some(deleted), Some(indexed)) => deleted.before(indexed),
            _ => false,
        }
    }
}

impl Movie {
    /// Whether the record has not been struck out.
    pub fn is_live(&self) -> (r: bool)
        ensures
            r == self@.live(),
    {
        self.deleted.is_none()
    }

    /// Whether the record waits to be brought to the search index.
    pub fn is_stale(&self) -> (r: bool)
        ensures
            r == self@.stale(),
    {
        match self.indexed {
            None => true,
            Some(at) => at.is_before(&self.updated),
        }
    }

    /// Whether the record may be purged.
    pub fn is_purgeable(&self) -> (r: bool)
        ensures
            r == self@.purgeable(),
    {
        match (self.deleted, self.indexed) {
            (Some(deleted), Some(indexed)) => deleted.is_before(&indexed),
            _ => false,
        }
    }
}

/// A page as a mathematical value.
pub struct PageModel<V> {
    pub page_number: int,
    pub next_anchor: Option<Seq<char>>,
    pub items: Seq<V>,
}

/// One page of a listing: its items in order, its number, and the cursor
/// from which the listing goes on, if it does.
#[derive(Debug, PartialEq, Eq)]
pub struct Page<T> {
    pub page_number: i64,
    pub next_anchor: Option<String>,
    pub items: Vec<T>,
}

impl<T: View> View for Page<T> {
    type V = PageModel<T::V>;

    open spec fn view(&self) -> PageModel<T::V> {
        PageModel {
            page_number: self.page_number as int,
            next_anchor: text_of(self.next_anchor),
            items: views(self.items@),
        }
    }
}

/// How a caller asks for a page: how many items, and from which cursor.
#[derive(Debug, PartialEq, Eq)]
pub struct PaginationParameters {
    pub count: Option<i64>,
    pub anchor: Option<String>,
}

/// The number of items on a page where the caller names none.
pub const DEFAULT_PAGE_SIZE: i64 = 25;

impl PaginationParameters {
    /// The page size asked for, or the default.
    pub fn page_size(&self) -> (count: i64)
        ensures
            count == match self.count {
                Some(c) => c,
                None => DEFAULT_PAGE_SIZE,
            },
    {
        match self.count {
            Some(c) => c,
            None => DEFAULT_PAGE_SIZE,
        }
    }
}

} // verus!
