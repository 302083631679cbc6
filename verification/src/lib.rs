//! A catalog of movie records kept in a primary store and mirrored into a
//! search index: keyset pagination with opaque cursors, hydration of search
//! results against the primary store, and the rules by which the two
//! background synchronisers pick their work.
//!
//! - `record`, `ident`, `time`, `text`: the records and the plain values they
//!   are made of.
//! - `cursor`, `order`, `listing`, `paging`: cursors, the fixed order, the
//!   listing page by page, and what holds of a listing walked to its end.
//! - `db`, `stale`, `change`, `action`: the primary store and what the
//!   catalog does on it.
//! - `idx`, `api`: searches, their hydration, and the answer to a request.
//! - `dmn`: the index synchroniser and the purger.

pub mod action;
pub mod api;
pub mod change;
pub mod cursor;
pub mod db;
pub mod dmn;
pub mod error;
pub mod ident;
pub mod idx;
pub mod listing;
pub mod order;
pub mod paging;
pub mod record;
pub mod stale;
pub mod text;
pub mod time;
