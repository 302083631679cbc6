//! How records come to be and how they change: what a caller hands in, and
//! the sets of changes that the store applies.

use crate::ident::{derive_id, derived_id};
use crate::record::{
    clone_countries, clone_genres, clone_languages, clone_text, text_of, views, Country,
    CountryModel, Genre, GenreModel, Language, LanguageModel, Movie, MovieModel,
};
use crate::time::{current_time, ReleaseDate, Timestamp};
use vstd::prelude::*;

verus! {

/// What an optional value that may itself be absent holds, as characters.
pub open spec fn nested_text_of(text: Option<Option<String>>) -> Option<Option<Seq<char>>> {
    match text {
        Some(t) => Some(text_of(t)),
        None => None,
    }
}

/// The views of the items of an optional list.
pub open spec fn optional_views<T: View>(list: Option<Vec<T>>) -> Option<Seq<T::V>> {
    match list {
        Some(l) => Some(views(l@)),
        None => None,
    }
}

/// A set of changes as a mathematical value.
pub struct ChangesetModel {
    pub title: Option<Seq<char>>,
    pub tagline: Option<Option<Seq<char>>>,
    pub overview: Option<Option<Seq<char>>>,
    pub spoken_languages: Option<Seq<LanguageModel>>,
    pub production_countries: Option<Seq<CountryModel>>,
    pub genres: Option<Seq<GenreModel>>,
    pub release_date: Option<Option<ReleaseDate>>,
    pub updated: Option<Timestamp>,
    pub indexed: Option<Timestamp>,
    pub foreign_url: Option<Option<Seq<char>>>,
    pub deleted: Option<Timestamp>,
}

/// A set of changes to a record. A field that is `None` leaves the record's
/// field as it is; a field that is `Some` gives the record's field its new
/// value, which for a field that may be empty is itself a value or nothing.
#[derive(Debug, PartialEq, Eq)]
pub struct MovieChangeset {
    pub title: Option<String>,
    pub tagline: Option<Option<String>>,
    pub overview: Option<Option<String>>,
    pub spoken_languages: Option<Vec<Language>>,
    pub production_countries: Option<Vec<Country>>,
    pub genres: Option<Vec<Genre>>,
    pub release_date: Option<Option<ReleaseDate>>,
    pub updated: Option<Timestamp>,
    pub indexed: Option<Timestamp>,
    pub foreign_url: Option<Option<String>>,
    pub deleted: Option<Timestamp>,
}

impl View for MovieChangeset {
    type V = ChangesetModel;

    open spec fn view(&self) -> ChangesetModel {
        ChangesetModel {
            title: text_of(self.title),
            tagline: nested_text_of(self.tagline),
            overview: nested_text_of(self.overview),
            spoken_languages: optional_views(self.spoken_languages),
            production_countries: optional_views(self.production_countries),
            genres: optional_views(self.genres),
            release_date: self.release_date,
            updated: self.updated,
            indexed: self.indexed,
            foreign_url: nested_text_of(self.foreign_url),
            deleted: self.deleted,
        }
    }
}

/// The new value where there is one, else the old.
pub open spec fn changed<A>(new: Option<A>, old: A) -> A {
    match new {
        Some(value) => value,
        None => old,
    }
}

/// The record after the changes. Identity and time of creation never change;
/// `indexed` and `deleted` can be given a value and cannot be emptied.
pub open spec fn applied(change: ChangesetModel, row: MovieModel) -> MovieModel {
    MovieModel {
        id: row.id,
        title: changed(change.title, row.title),
        tagline: changed(change.tagline, row.tagline),
        overview: changed(change.overview, row.overview),
        spoken_languages: changed(change.spoken_languages, row.spoken_languages),
        production_countries: changed(change.production_countries, row.production_countries),
        genres: changed(change.genres, row.genres),
        release_date: changed(change.release_date, row.release_date),
        created: row.created,
        updated: changed(change.updated, row.updated),
        indexed: match change.indexed {
            Some(at) => Some(at),
            None => row.indexed,
        },
        foreign_url: changed(change.foreign_url, row.foreign_url),
        deleted: match change.deleted {
            Some(at) => Some(at),
            None => row.deleted,
        },
    }
}

fn changed_text(new: &Option<String>, old: &String) -> (text: String)
    ensures
        text@ == changed(text_of(*new), old@),
{
    match new {
        Some(t) => t.clone(),
        None => old.clone(),
    }
}

fn changed_optional_text(new: &Option<Option<String>>, old: &Option<String>) -> (text: Option<String>)
    ensures
        text_of(text) == changed(nested_text_of(*new), text_of(*old)),
{
    match new {
        Some(t) => clone_text(t),
        None => clone_text(old),
    }
}

fn clone_nested_text(text: &Option<Option<String>>) -> (copy: Option<Option<String>>)
    ensures
        nested_text_of(copy) == nested_text_of(*text),
{
    match text {
        Some(t) => Some(clone_text(t)),
        None => None,
    }
}

fn clone_optional_languages(list: &Option<Vec<Language>>) -> (copy: Option<Vec<Language>>)
    ensures
        optional_views(copy) == optional_views(*list),
{
    match list {
        Some(l) => Some(clone_languages(l)),
        None => None,
    }
}

fn clone_optional_countries(list: &Option<Vec<Country>>) -> (copy: Option<Vec<Country>>)
    ensures
        optional_views(copy) == optional_views(*list),
{
    match list {
        Some(l) => Some(clone_countries(l)),
        None => None,
    }
}

fn clone_optional_genres(list: &Option<Vec<Genre>>) -> (copy: Option<Vec<Genre>>)
    ensures
        optional_views(copy) == optional_views(*list),
{
    match list {
        Some(l) => Some(clone_genres(l)),
        None => None,
    }
}

impl MovieChangeset {
    /// The record after the changes.
    pub fn apply(&self, row: &Movie) -> (after: Movie)
        ensures
            after@ == applied(self@, row@),
    {
        Movie {
            id: row.id,
            title: changed_text(&self.title, &row.title),
            tagline: changed_optional_text(&self.tagline, &row.tagline),
            overview: changed_optional_text(&self.overview, &row.overview),
            spoken_languages: match &self.spoken_languages {
                Some(l) => clone_languages(l),
                None => clone_languages(&row.spoken_languages),
            },
            production_countries: match &self.production_countries {
                Some(l) => clone_countries(l),
                None => clone_countries(&row.production_countries),
            },
            genres: match &self.genres {
                Some(l) => clone_genres(l),
                None => clone_genres(&row.genres),
            },
            release_date: match self.release_date {
                Some(d) => d,
                None => row.release_date,
            },
            created: row.created,
            updated: match self.updated {
                Some(at) => at,
                None => row.updated,
            },
            indexed: match self.indexed {
                Some(at) => Some(at),
                None => row.indexed,
            },
            foreign_url: changed_optional_text(&self.foreign_url, &row.foreign_url),
            deleted: match self.deleted {
                Some(at) => Some(at),
                None => row.deleted,
            },
        }
    }
}

/// The set of changes that changes nothing.
pub open spec fn no_change() -> ChangesetModel {
    ChangesetModel {
        title: None,
        tagline: None,
        overview: None,
        spoken_languages: None,
        production_countries: None,
        genres: None,
        release_date: None,
        updated: None,
        indexed: None,
        foreign_url: None,
        deleted: None,
    }
}

/// What a caller hands in to have a record made.
#[derive(Debug, PartialEq, Eq)]
pub struct CreateMovieParams {
    pub title: String,
    pub tagline: Option<String>,
    pub overview: Option<String>,
    pub spoken_languages: Vec<Language>,
    pub production_countries: Vec<Country>,
    pub genres: Vec<Genre>,
    pub release_date: Option<ReleaseDate>,
    pub foreign_url: Option<String>,
}

impl CreateMovieParams {
    /// The record that is made of the parameters at the instant `now`: with
    /// the identifier that its title and release date give it, created and
    /// updated now, never indexed, not struck out.
    pub open spec fn created_at(self, now: Timestamp) -> MovieModel {
        MovieModel {
            id: derived_id(self.title@, self.release_date),
            title: self.title@,
            tagline: text_of(self.tagline),
            overview: text_of(self.overview),
            spoken_languages: views(self.spoken_languages@),
            production_countries: views(self.production_countries@),
            genres: views(self.genres@),
            release_date: self.release_date,
            created: now,
            updated: now,
            indexed: None,
            foreign_url: text_of(self.foreign_url),
            deleted: None,
        }
    }

    /// The record that is made of the parameters at the instant `now`.
    pub fn create_at(&self, now: Timestamp) -> (movie: Movie)
        ensures
            movie@ == self.created_at(now),
    {
        Movie {
            id: derive_id(self.title.as_str(), &self.release_date),
            title: self.title.clone(),
            tagline: clone_text(&self.tagline),
            overview: clone_text(&self.overview),
            spoken_languages: clone_languages(&self.spoken_languages),
            production_countries: clone_countries(&self.production_countries),
            genres: clone_genres(&self.genres),
            release_date: self.release_date,
            created: now,
            updated: now,
            indexed: None,
            foreign_url: clone_text(&self.foreign_url),
            deleted: None,
        }
    }

    /// The record that is made of the parameters now, by the system clock.
    pub fn create(&self) -> (movie: Movie)
        ensures
            movie@ == self.created_at(movie@.created),
    {
        self.create_at(current_time())
    }
}

/// What a caller hands in to have a record changed.
#[derive(Debug, PartialEq, Eq)]
pub struct UpdateMovieParams {
    pub title: Option<String>,
    pub tagline: Option<Option<String>>,
    pub overview: Option<Option<String>>,
    pub spoken_languages: Option<Vec<Language>>,
    pub production_countries: Option<Vec<Country>>,
    pub genres: Option<Vec<Genre>>,
    pub release_date: Option<Option<ReleaseDate>>,
    pub foreign_url: Option<Option<String>>,
}

impl UpdateMovieParams {
    /// The changes that the parameters ask for at the instant `now`: the
    /// fields named, and `updated`; so that the record is stale from now on.
    pub open spec fn changes_at(self, now: Timestamp) -> ChangesetModel {
        ChangesetModel {
            title: text_of(self.title),
            tagline: nested_text_of(self.tagline),
            overview: nested_text_of(self.overview),
            spoken_languages: optional_views(self.spoken_languages),
            production_countries: optional_views(self.production_countries),
            genres: optional_views(self.genres),
            release_date: self.release_date,
            updated: Some(now),
            indexed: None,
            foreign_url: nested_text_of(self.foreign_url),
            deleted: None,
        }
    }

    /// The changes that the parameters ask for at the instant `now`.
    pub fn update_at(&self, now: Timestamp) -> (changes: MovieChangeset)
        ensures
            changes@ == self.changes_at(now),
    {
        MovieChangeset {
            title: clone_text(&self.title),
            tagline: clone_nested_text(&self.tagline),
            overview: clone_nested_text(&self.overview),
            spoken_languages: clone_optional_languages(&self.spoken_languages),
            production_countries: clone_optional_countries(&self.production_countries),
            genres: clone_optional_genres(&self.genres),
            release_date: self.release_date,
            updated: Some(now),
            indexed: None,
            foreign_url: clone_nested_text(&self.foreign_url),
            deleted: None,
        }
    }

    /// The changes that the parameters ask for now, by the system clock.
    pub fn update(&self) -> (changes: MovieChangeset)
        ensures
            changes@.updated is Some,
            changes@ == self.changes_at(changes@.updated->0),
    {
        self.update_at(current_time())
    }
}

/// The change that marks a record as brought to the search index.
#[derive(Clone, Copy, Debug)]
pub struct IndexMovie;

impl IndexMovie {
    /// The change at the instant `now`: `indexed` and nothing else.
    pub open spec fn changes_at(now: Timestamp) -> ChangesetModel {
        ChangesetModel { indexed: Some(now), ..no_change() }
    }

    pub fn update_at(&self, now: Timestamp) -> (changes: MovieChangeset)
        ensures
            changes@ == Self::changes_at(now),
    {
        MovieChangeset {
            title: None,
            tagline: None,
            overview: None,
            spoken_languages: None,
            production_countries: None,
            genres: None,
            release_date: None,
            updated: None,
            indexed: Some(now),
            foreign_url: None,
            deleted: None,
        }
    }

    /// The change now, by the system clock.
    pub fn update(&self) -> (changes: MovieChangeset)
        ensures
            changes@.indexed is Some,
            changes@ == Self::changes_at(changes@.indexed->0),
    {
        self.update_at(current_time())
    }
}

/// The change that strikes a record out.
#[derive(Clone, Copy, Debug)]
pub struct DeleteMovie;

impl DeleteMovie {
    /// The change at the instant `now`: `deleted` and `updated`, so that the
    /// record is stale and the search index gets to know.
    pub open spec fn changes_at(now: Timestamp) -> ChangesetModel {
        ChangesetModel { updated: Some(now), deleted: Some(now), ..no_change() }
    }

    pub fn update_at(&self, now: Timestamp) -> (changes: MovieChangeset)
        ensures
            changes@ == Self::changes_at(now),
    {
        MovieChangeset {
            title: None,
            tagline: None,
            overview: None,
            spoken_languages: None,
            production_countries: None,
            genres: None,
            release_date: None,
            updated: Some(now),
            indexed: None,
            foreign_url: None,
            deleted: Some(now),
        }
    }

    /// The change now, by the system clock.
    pub fn update(&self) -> (changes: MovieChangeset)
        ensures
            changes@.deleted is Some,
            changes@ == Self::changes_at(changes@.deleted->0),
    {
        self.update_at(current_time())
    }
}

/// A record that was struck out is listed no more and is stale from then on,
/// unless the index is ahead of the clock; so the search index gets to know.
pub proof fn lemma_struck_out_waits(row: MovieModel, now: Timestamp)
    ensures
        !applied(DeleteMovie::changes_at(now), row).live(),
        applied(DeleteMovie::changes_at(now), row).stale() <==> (row.indexed matches Some(at)
            ==> at.before(now)),
{
}

/// A record marked as indexed at an instant not before its last change is
/// stale no more; marked at an earlier instant it stays stale.
pub proof fn lemma_marked_is_fresh(row: MovieModel, now: Timestamp)
    ensures
        applied(IndexMovie::changes_at(now), row).stale() <==> now.before(row.updated),
{
}

/// A record that was struck out may be purged once it was marked as indexed
/// at a later instant, and not before: the purge never overtakes the index.
pub proof fn lemma_purge_follows_index(row: MovieModel, now: Timestamp)
    ensures
        applied(IndexMovie::changes_at(now), row).purgeable() <==> (row.deleted matches Some(at)
            && at.before(now)),
{
}

} // verus!
