//! The search index, as far as the catalog decides: which window of hits a
//! search asks for, what page the hits make, and what a batch of stale
//! records asks of the index.

use crate::cursor::{
    decode_url_safe, encode_url_safe, pack_page, packed_page, unpack_page, unpacked_page,
    url_safe_bytes, url_safe_char, url_safe_text,
};
use crate::error::Error;
use crate::listing::{nearest, nearest_i64, next_page_number};
use crate::ident::{HasId, Uuid};
use crate::record::{reversed, text_of, views, Movie, MovieModel, Page};
use vstd::prelude::*;
use vstd::string::StringExecFns;

verus! {

/// The place at which a search goes on: only the number of the next page,
/// since the index orders its hits itself.
#[derive(Clone, Copy, Debug, PartialEq, Eq, Structural)]
pub struct MovieAnchor {
    pub page_number: i64,
}

/// The cursor that stands for a page number.
pub open spec fn page_cursor_text(page_number: i64) -> Seq<char> {
    url_safe_text(packed_page(page_number))
}

/// The page number for which a cursor stands, if it stands for one.
pub open spec fn page_cursor_number(text: Seq<char>) -> Option<i64> {
    match url_safe_bytes(text) {
        None => None,
        Some(bytes) => unpacked_page(bytes),
    }
}

/// The cursor of a search anchor. It is made of letters, digits, `-` and `_`
/// only, and `deserialize_anchor` gives the anchor back.
pub fn serialize_anchor(anch: MovieAnchor) -> (text: String)
    ensures
        text@ == page_cursor_text(anch.page_number),
        page_cursor_number(text@) == Some(anch.page_number),
        forall|i: int| 0 <= i < text@.len() ==> url_safe_char(#[trigger] text@[i]),
{
    let bytes = pack_page(anch.page_number);
    encode_url_safe(&bytes)
}

/// The search anchor for which a cursor stands.
///
/// Fails with `AnchorDecodeError` on a text that is no URL-safe base64, and
/// with `AnchorParseError` on one whose bytes do not spell a page number.
pub fn deserialize_anchor(raw: String) -> (anchor: Result<MovieAnchor, Error>)
    ensures
        anchor is Ok <==> page_cursor_number(raw@) is Some,
        anchor matches Ok(a) ==> page_cursor_number(raw@) == Some(a.page_number),
        anchor matches Err(e) ==> (e is AnchorDecodeError <==> url_safe_bytes(raw@) is None) && (
        e is AnchorParseError <==> url_safe_bytes(raw@) is Some),
{
    let bytes = match decode_url_safe(raw.as_str()) {
        Ok(bytes) => bytes,
        Err(e) => {
            return Err(Error::AnchorDecodeError(e));
        },
    };
    match unpack_page(&bytes) {
        Err(e) => Err(Error::AnchorParseError(e)),
        Ok(page_number) => Ok(MovieAnchor { page_number }),
    }
}

/// The number of hits that stand before page `page_number` where a page
/// holds `count` hits.
pub open spec fn hits_before(page_number: i64, count: i64) -> int {
    (page_number - 1) * count
}

/// The page that a search cursor names: the first where none is given.
pub open spec fn page_asked(cursor: Option<Seq<char>>) -> Option<i64> {
    match cursor {
        None => Some(1i64),
        Some(text) => page_cursor_number(text),
    }
}

/// The search term as a phrase: between double quotes.
pub open spec fn phrase_of(term: Seq<char>) -> Seq<char> {
    seq!['"'] + term + seq!['"']
}

/// The name of the field in which a search looks: the title.
pub open spec fn searched_field() -> Seq<char> {
    seq!['t', 'i', 't', 'l', 'e']
}

/// What a search asks of the index: the phrase to look for, the fields in
/// which to look for it, and the window of hits wanted.
#[derive(Debug, PartialEq, Eq)]
pub struct SearchRequest {
    pub page_number: i64,
    pub from: i64,
    pub size: i64,
    pub phrase: String,
    pub fields: Vec<String>,
}

/// The product of two numbers, which 128 bits always hold.
fn product(a: i64, b: i64) -> (r: i128)
    ensures
        r == a * b,
        -0x4000_0000_0000_0000_0000_0000_0000_0000 <= r <= 0x4000_0000_0000_0000_0000_0000_0000_0000,
{
    let x = a as i128;
    let y = b as i128;
    assert(-0x4000_0000_0000_0000_0000_0000_0000_0000 <= x * y
        <= 0x4000_0000_0000_0000_0000_0000_0000_0000) by (nonlinear_arith)
        requires
            -0x8000_0000_0000_0000 <= x <= 0x8000_0000_0000_0000,
            -0x8000_0000_0000_0000 <= y <= 0x8000_0000_0000_0000,
    ;
    x * y
}

/// What to ask of the index for the page of `count` hits that the cursor
/// names: the search term as a phrase, to be looked for in the titles, and
/// the hits from `(page - 1) * count` on, as far as an `i64` holds that
/// number.
///
/// Fails on a cursor that stands for no page number.
pub fn search_request(search_term: &String, count: i64, anchor: &Option<String>) -> (request: Result<
    SearchRequest,
    Error,
>)
    ensures
        request is Ok <==> page_asked(text_of(*anchor)) is Some,
        request matches Ok(r) ==> {
            &&& Some(r.page_number) == page_asked(text_of(*anchor))
            &&& r.from == nearest_i64(hits_before(r.page_number, count))
            &&& r.size == count
            &&& r.phrase@ == phrase_of(search_term@)
            &&& r.fields@.len() == 1 && r.fields@[0]@ == searched_field()
        },
        request matches Err(e) ==> e.client_input() && (e is AnchorDecodeError <==> url_safe_bytes(
            anchor->0@,
        ) is None),
{
    let page_number = match anchor {
        None => 1,
        Some(text) => deserialize_anchor(text.clone())?.page_number,
    };
    let before = if page_number > i64::MIN {
        product(page_number - 1, count)
    } else {
        product(page_number, count) - count as i128
    };
    assert(before == hits_before(page_number, count)) by (nonlinear_arith)
        requires
            before == if page_number > i64::MIN {
                (page_number - 1) * count
            } else {
                page_number * count - count
            },
    ;
    let quote = "\"";
    proof {
        reveal_strlit("\"");
        assert(quote@ =~= seq!['"']);
    }
    let phrase = String::from_str(quote).concat(search_term.as_str()).concat(quote);
    let title = "title";
    proof {
        reveal_strlit("title");
        assert(title@ =~= searched_field());
    }
    let mut fields: Vec<String> = Vec::new();
    fields.push(String::from_str(title));
    Ok(SearchRequest { page_number, from: nearest(before), size: count, phrase, fields })
}

/// A hit of a search as a mathematical value.
pub enum HitModel {
    Placeholder(HasId),
    Record(MovieModel),
}

/// A hit of a search: the record in full, or only its identity where the
/// index did not hold the record in a form that the catalog reads.
#[derive(Debug, PartialEq, Eq)]
pub enum SearchHit {
    Placeholder(HasId),
    Record(Movie),
}

impl View for SearchHit {
    type V = HitModel;

    open spec fn view(&self) -> HitModel {
        match self {
            SearchHit::Placeholder(id) => HitModel::Placeholder(*id),
            SearchHit::Record(movie) => HitModel::Record(movie@),
        }
    }
}

/// What reading one hit of the index's answer gave: the record, where the
/// hit reads as one, and the identity, where the hit names one.
#[derive(Debug, PartialEq, Eq)]
pub struct DecodedHit {
    pub record: Option<Movie>,
    pub id: Option<HasId>,
}

/// What a hit that was read stands for: the record where there is one, else
/// the identity; nothing where the hit gave neither.
pub open spec fn hit_of(hit: DecodedHit) -> Option<HitModel> {
    match (hit.record, hit.id) {
        (Some(movie), _) => Some(HitModel::Record(movie@)),
        (None, Some(id)) => Some(HitModel::Placeholder(id)),
        (None, None) => None,
    }
}

/// The hits that were read, each as what it stands for, in their order; a
/// hit that gave neither a record nor an identity is left out.
pub open spec fn hits_of(hits: Seq<DecodedHit>) -> Seq<HitModel>
    decreases hits.len(),
{
    if hits.len() == 0 {
        Seq::empty()
    } else {
        let rest = hits_of(hits.drop_last());
        match hit_of(hits.last()) {
            Some(hit) => rest.push(hit),
            None => rest,
        }
    }
}

/// The hit that stands for what was read: the record where there is one,
/// else a placeholder.
pub fn resolve_hit(hit: DecodedHit) -> (resolved: Option<SearchHit>)
    ensures
        resolved is Some <==> hit_of(hit) is Some,
        resolved matches Some(h) ==> Some(h@) == hit_of(hit),
{
    match hit.record {
        Some(movie) => Some(SearchHit::Record(movie)),
        None => match hit.id {
            Some(id) => Some(SearchHit::Placeholder(id)),
            None => None,
        },
    }
}

/// The page of a search, made of the index's answer to the request for page
/// `page_number` of `count` hits: its hits in the order of the answer, and a
/// cursor for the next page if the index counts more hits than the pages
/// up to this one hold. Where the index names no total, it counts as none.
///
/// A hit that does not read as a record stays on the page as a placeholder.
/// A hit that names not even an identity is left out: no single hit fails
/// the page.
pub fn search_page(page_number: i64, count: i64, total_hits: Option<i64>, hits: Vec<DecodedHit>) -> (page:
    Page<SearchHit>)
    ensures
        page@.page_number == page_number,
        page@.items == hits_of(hits@),
        page@.next_anchor is Some <==> total_or_none(total_hits) > page_number * count,
        page@.next_anchor matches Some(text) ==> {
            &&& text == page_cursor_text(next_page_number(page_number))
            &&& page_cursor_number(text) == Some(next_page_number(page_number))
        },
{
    let ghost read = hits@;
    let mut items: Vec<SearchHit> = Vec::new();
    let mut rest = reversed(hits);
    assert(read.take(0) =~= Seq::<DecodedHit>::empty());
    while rest.len() > 0
        invariant
            read == hits@,
            rest@.len() <= read.len(),
            forall|i: int| 0 <= i < rest@.len() ==> rest@[i] == read[read.len() - 1 - i],
            views(items@) == hits_of(read.take(read.len() - rest@.len())),
        decreases rest@.len(),
    {
        let ghost k = read.len() - rest@.len();
        let ghost seen = views(items@);
        let hit = rest.pop().unwrap();
        proof {
            assert(hit == read[k]);
            assert(read.take(k + 1).drop_last() =~= read.take(k));
            assert(read.take(k + 1).last() == read[k]);
        }
        match resolve_hit(hit) {
            Some(h) => {
                items.push(h);
                assert(views(items@) =~= seen.push(hit_of(read[k])->0));
            },
            None => {},
        }
    }
    assert(read.take(read.len() as int) =~= read);
    let total = match total_hits {
        Some(n) => n,
        None => 0,
    };
    let next_anchor = if total as i128 > product(page_number, count) {
        let next = MovieAnchor {
            page_number: if page_number < i64::MAX {
                page_number + 1
            } else {
                page_number
            },
        };
        Some(serialize_anchor(next))
    } else {
        None
    };
    Page { page_number, next_anchor, items }
}

/// The number of hits that the index counts; none where it names no number.
pub open spec fn total_or_none(total_hits: Option<i64>) -> int {
    match total_hits {
        Some(n) => n as int,
        None => 0,
    }
}

/// What a batch asks of the index for one record.
#[derive(Clone, Copy, Debug, PartialEq, Eq, Structural)]
pub enum BulkOp {
    /// Put the record's document under its identifier, in place of what is
    /// there.
    Index { id: Uuid },
    /// Remove the document under the identifier.
    Delete { id: Uuid },
}

/// What a batch asks for a record: to remove its document where the record
/// was struck out, else to put it.
pub open spec fn bulk_op(row: MovieModel) -> BulkOp {
    if row.deleted is Some {
        BulkOp::Delete { id: row.id }
    } else {
        BulkOp::Index { id: row.id }
    }
}

/// The operations of the batch that brings `movies` to the index: one for
/// each record, in their order.
pub fn bulk_operations(movies: &Vec<Movie>) -> (ops: Vec<BulkOp>)
    ensures
        ops@.len() == movies@.len(),
        forall|i: int| 0 <= i < ops@.len() ==> ops@[i] == bulk_op(#[trigger] movies@[i]@),
{
    let mut ops: Vec<BulkOp> = Vec::new();
    let mut i: usize = 0;
    while i < movies.len()
        invariant
            i <= movies@.len(),
            ops@.len() == i,
            forall|j: int| 0 <= j < i ==> ops@[j] == bulk_op(#[trigger] movies@[j]@),
        decreases movies@.len() - i,
    {
        let movie = &movies[i];
        if movie.deleted.is_some() {
            ops.push(BulkOp::Delete { id: movie.id });
        } else {
            ops.push(BulkOp::Index { id: movie.id });
        }
        i += 1;
    }
    ops
}

/// What to send to the index to bring `movies` there: the operations of the
/// batch, one for each record in their order; nothing where there is no
/// record, and then the index is not called.
pub fn bulk_request(movies: &Vec<Movie>) -> (request: Option<Vec<BulkOp>>)
    ensures
        request is None <==> movies@.len() == 0,
        request matches Some(ops) ==> {
            &&& ops@.len() == movies@.len()
            &&& forall|i: int| 0 <= i < ops@.len() ==> ops@[i] == bulk_op(#[trigger] movies@[i]@)
        },
{
    if movies.len() == 0 {
        None
    } else {
        Some(bulk_operations(movies))
    }
}

/// The failure that an answer is which does not say whether its batch met
/// errors.
pub fn unreadable_answer() -> (e: Error)
    ensures
        e is IndexQueryError,
{
    Error::IndexQueryError(String::from_str("an answer that does not say whether it met errors"))
}

/// Whether a batch of `count` records counts as brought to the index, given
/// what the index's answer says of errors: a batch without records does, no
/// answer being needed; any other batch only if the answer says that no
/// operation met an error.
pub open spec fn brought(count: nat, errors: Option<bool>) -> bool {
    count == 0 || errors == Some(false)
}

/// What the index's answer to a batch means for the records of the batch.
/// The batch counts as a whole: the records come back as brought to the
/// index only if the answer says that no operation met an error. A batch
/// without records was not sent and comes back as it is, whatever is given
/// as the answer.
///
/// Fails with `IndexQueryPartialError` where the answer reports an error,
/// and with `IndexQueryError` where it does not say whether there was one.
pub fn index_movies(movies: Vec<Movie>, errors: Option<bool>) -> (indexed: Result<Vec<Movie>, Error>)
    ensures
        indexed is Ok <==> brought(movies@.len(), errors),
        indexed matches Ok(m) ==> m == movies,
        indexed matches Err(e) ==> (e is IndexQueryPartialError <==> errors == Some(true)) && (
        e is IndexQueryError <==> errors is None),
{
    if movies.len() == 0 {
        return Ok(movies);
    }
    match errors {
        Some(false) => Ok(movies),
        Some(true) => Err(Error::IndexQueryPartialError),
        None => Err(unreadable_answer()),
    }
}

} // verus!
