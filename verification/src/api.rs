//! What a request for a list of records comes down to: which records to
//! show in place of the placeholders of a search, and where the next page is
//! to be had.

use crate::action::find_movies_with_ids;
use crate::db::{live_with_ids, MovieTable};
use crate::ident::Uuid;
use crate::idx::{HitModel, SearchHit};
use crate::record::{reversed, text_of, views, Movie, MovieModel, Page};
use std::collections::HashMap;
use vstd::prelude::*;
use vstd::string::StringExecFns;
use vstd::utf8::encode_utf8;

verus! {

/// What a request may carry besides its paging: a search term.
#[derive(Debug, PartialEq, Eq)]
pub struct Query {
    pub search: Option<String>,
}

/// Whether every hit is a record in full.
pub open spec fn all_records(hits: Seq<HitModel>) -> bool {
    forall|i: int| 0 <= i < hits.len() ==> (#[trigger] hits[i]) is Record
}

/// The identifiers of the placeholders among the hits, in their order.
pub open spec fn unresolved(hits: Seq<HitModel>) -> Seq<Uuid>
    decreases hits.len(),
{
    if hits.len() == 0 {
        Seq::empty()
    } else {
        let rest = unresolved(hits.drop_last());
        match hits.last() {
            HitModel::Placeholder(h) => rest.push(h.id),
            HitModel::Record(_) => rest,
        }
    }
}

/// The records by identifier; of two records of one identifier the later.
pub open spec fn by_id(rows: Seq<MovieModel>) -> Map<Uuid, MovieModel>
    decreases rows.len(),
{
    if rows.len() == 0 {
        Map::empty()
    } else {
        by_id(rows.drop_last()).insert(rows.last().id, rows.last())
    }
}

/// The hits with each placeholder replaced by the record that `found` holds
/// for its identifier, and left out where it holds none; the records in full
/// stay as they are, and so does the order.
pub open spec fn spliced(hits: Seq<HitModel>, found: Map<Uuid, MovieModel>) -> Seq<MovieModel>
    decreases hits.len(),
{
    if hits.len() == 0 {
        Seq::empty()
    } else {
        let rest = spliced(hits.drop_last(), found);
        match hits.last() {
            HitModel::Record(m) => rest.push(m),
            HitModel::Placeholder(h) => if found.contains_key(h.id) {
                rest.push(found[h.id])
            } else {
                rest
            },
        }
    }
}

/// The row of the identifier that was not struck out, if the table holds one.
pub open spec fn live_row(rows: Seq<MovieModel>, id: Uuid) -> Option<MovieModel>
    decreases rows.len(),
{
    if rows.len() == 0 {
        None
    } else if rows.last().id == id && rows.last().live() {
        Some(rows.last())
    } else {
        live_row(rows.drop_last(), id)
    }
}

/// The hits with each placeholder replaced by the row of its identifier, and
/// left out where the table holds no such row or the row was struck out.
pub open spec fn hydrated(hits: Seq<HitModel>, rows: Seq<MovieModel>) -> Seq<MovieModel>
    decreases hits.len(),
{
    if hits.len() == 0 {
        Seq::empty()
    } else {
        let rest = hydrated(hits.drop_last(), rows);
        match hits.last() {
            HitModel::Record(m) => rest.push(m),
            HitModel::Placeholder(h) => match live_row(rows, h.id) {
                Some(row) => rest.push(row),
                None => rest,
            },
        }
    }
}

/// The records of hits that are all records.
pub open spec fn records_of(hits: Seq<HitModel>) -> Seq<MovieModel> {
    Seq::new(hits.len(), |i: int| hits[i]->Record_0)
}

/// Hits that are all records come out of the splice as they are, whatever
/// was found.
pub proof fn lemma_spliced_records(hits: Seq<HitModel>, found: Map<Uuid, MovieModel>)
    requires
        all_records(hits),
    ensures
        spliced(hits, found) == records_of(hits),
    decreases hits.len(),
{
    if hits.len() > 0 {
        assert(hits[hits.len() - 1] is Record);
        assert forall|i: int| 0 <= i < hits.drop_last().len() implies (
        #[trigger] hits.drop_last()[i]) is Record by {
            assert(hits[i] is Record);
        }
        lemma_spliced_records(hits.drop_last(), found);
        assert(spliced(hits, found) =~= records_of(hits));
    } else {
        assert(spliced(hits, found) =~= records_of(hits));
    }
}

/// Hits that are all records come out of the hydration as they are, whatever
/// the table holds.
pub proof fn lemma_hydrated_records(hits: Seq<HitModel>, rows: Seq<MovieModel>)
    requires
        all_records(hits),
    ensures
        hydrated(hits, rows) == records_of(hits),
    decreases hits.len(),
{
    if hits.len() > 0 {
        assert(hits[hits.len() - 1] is Record);
        assert forall|i: int| 0 <= i < hits.drop_last().len() implies (
        #[trigger] hits.drop_last()[i]) is Record by {
            assert(hits[i] is Record);
        }
        lemma_hydrated_records(hits.drop_last(), rows);
        assert(hydrated(hits, rows) =~= records_of(hits));
    } else {
        assert(hydrated(hits, rows) =~= records_of(hits));
    }
}

/// What the batch lookup finds for an identifier that was asked for is the
/// row of that identifier that was not struck out.
proof fn lemma_found_is_live_row(rows: Seq<MovieModel>, ids: Seq<Uuid>, id: Uuid)
    requires
        ids.contains(id),
    ensures
        by_id(live_with_ids(rows, ids)).contains_key(id) <==> live_row(rows, id) is Some,
        live_row(rows, id) matches Some(row) ==> by_id(live_with_ids(rows, ids))[id] == row,
    decreases rows.len(),
{
    if rows.len() > 0 {
        lemma_found_is_live_row(rows.drop_last(), ids, id);
        let last = rows.last();
        if last.live() && ids.contains(last.id) {
            let fetched = live_with_ids(rows, ids);
            assert(fetched.drop_last() =~= live_with_ids(rows.drop_last(), ids));
            assert(fetched.last() == last);
        }
    }
}

/// Splicing in what the batch lookup of the placeholders finds is hydrating
/// against the table.
proof fn lemma_spliced_is_hydrated(hits: Seq<HitModel>, rows: Seq<MovieModel>, ids: Seq<Uuid>)
    requires
        forall|i: int|
            0 <= i < hits.len() ==> ((#[trigger] hits[i]) matches HitModel::Placeholder(h)
                ==> ids.contains(h.id)),
    ensures
        spliced(hits, by_id(live_with_ids(rows, ids))) == hydrated(hits, rows),
    decreases hits.len(),
{
    if hits.len() > 0 {
        assert forall|i: int| 0 <= i < hits.drop_last().len() implies ((
        #[trigger] hits.drop_last()[i]) matches HitModel::Placeholder(h) ==> ids.contains(h.id)) by {
            assert(hits.drop_last()[i] == hits[i]);
        }
        lemma_spliced_is_hydrated(hits.drop_last(), rows, ids);
        assert(hits[hits.len() - 1] == hits.last());
        if let HitModel::Placeholder(h) = hits.last() {
            lemma_found_is_live_row(rows, ids, h.id);
        }
    }
}

/// Every placeholder's identifier is among the unresolved.
proof fn lemma_unresolved_holds(hits: Seq<HitModel>)
    ensures
        forall|i: int|
            0 <= i < hits.len() ==> ((#[trigger] hits[i]) matches HitModel::Placeholder(h)
                ==> unresolved(hits).contains(h.id)),
    decreases hits.len(),
{
    if hits.len() > 0 {
        lemma_unresolved_holds(hits.drop_last());
        let rest = unresolved(hits.drop_last());
        assert forall|i: int| 0 <= i < hits.len() implies ((#[trigger] hits[i]) matches HitModel::Placeholder(h)
            ==> unresolved(hits).contains(h.id)) by {
            if let HitModel::Placeholder(h) = hits[i] {
                if i < hits.len() - 1 {
                    assert(hits.drop_last()[i] == hits[i]);
                    let at = choose|at: int| 0 <= at < rest.len() && rest[at] == h.id;
                    assert(unresolved(hits)[at] == h.id);
                } else {
                    assert(unresolved(hits)[rest.len() as int] == h.id);
                }
            }
        }
    }
}

/// Whether the page holds a placeholder, so that the primary store has to be
/// asked.
pub fn needs_backfill(found: &Page<SearchHit>) -> (r: bool)
    ensures
        r == !all_records(found@.items),
{
    let mut i: usize = 0;
    while i < found.items.len()
        invariant
            i <= found.items@.len(),
            forall|j: int| 0 <= j < i ==> (#[trigger] found@.items[j]) is Record,
        decreases found.items@.len() - i,
    {
        match &found.items[i] {
            SearchHit::Placeholder(_) => {
                assert(found@.items[i as int] is Placeholder);
                return true;
            },
            SearchHit::Record(_) => {},
        }
        i += 1;
    }
    false
}

/// The identifiers of the placeholders on the page, in their order.
pub fn unresolved_ids(found: &Page<SearchHit>) -> (ids: Vec<Uuid>)
    ensures
        ids@ == unresolved(found@.items),
{
    let mut ids: Vec<Uuid> = Vec::new();
    let mut i: usize = 0;
    assert(found@.items.take(0) =~= Seq::<HitModel>::empty());
    while i < found.items.len()
        invariant
            i <= found.items@.len(),
            ids@ == unresolved(found@.items.take(i as int)),
        decreases found.items@.len() - i,
    {
        proof {
            assert(found@.items.take(i + 1).drop_last() =~= found@.items.take(i as int));
        }
        match &found.items[i] {
            SearchHit::Placeholder(h) => {
                ids.push(h.id);
            },
            SearchHit::Record(_) => {},
        }
        i += 1;
    }
    assert(found@.items.take(found@.items.len() as int) =~= found@.items);
    ids
}

/// The keys of the table as identifiers.
spec fn keyed(found: Map<u128, Movie>) -> Map<Uuid, MovieModel> {
    Map::new(|id: Uuid| found.contains_key(id.bits), |id: Uuid| found[id.bits]@)
}

/// The page with each placeholder replaced by the record that `extra` holds
/// for its identifier, and left out where `extra` holds none. The records in
/// full, the order, the page number and the cursor stay as they are.
pub fn splice(found: Page<SearchHit>, extra: Vec<Movie>) -> (page: Page<Movie>)
    ensures
        page@.items == spliced(found@.items, by_id(views(extra@))),
        page@.next_anchor == found@.next_anchor,
        page@.page_number == found@.page_number,
{
    let ghost hits = found@.items;
    let ghost rows = views(extra@);
    // put what was found under its identifier, a later record over an earlier
    let mut waiting = reversed(extra);
    let mut lookup: HashMap<u128, Movie> = HashMap::new();
    assert(rows.take(0) =~= Seq::<MovieModel>::empty());
    assert(keyed(lookup@) =~= by_id(rows.take(0)));
    while waiting.len() > 0
        invariant
            waiting@.len() <= rows.len(),
            forall|i: int| 0 <= i < waiting@.len() ==> (#[trigger] waiting@[i])@ == rows[rows.len() - 1 - i],
            keyed(lookup@) == by_id(rows.take(rows.len() - waiting@.len())),
        decreases waiting@.len(),
    {
        let ghost k = rows.len() - waiting@.len();
        let ghost before = lookup@;
        let movie = waiting.pop().unwrap();
        proof {
            assert(movie@ == rows[k]);
            assert(rows.take(k + 1).drop_last() =~= rows.take(k));
            assert(rows.take(k + 1).last() == rows[k]);
        }
        let key = movie.id.bits;
        lookup.insert(key, movie);
        proof {
            assert(keyed(lookup@) =~= keyed(before).insert(rows[k].id, rows[k]));
        }
    }
    assert(rows.take(rows.len() as int) =~= rows);
    // then walk the hits in order
    let Page { page_number, next_anchor, items } = found;
    let mut rest = reversed(items);
    let mut out: Vec<Movie> = Vec::new();
    assert(hits.take(0) =~= Seq::<HitModel>::empty());
    while rest.len() > 0
        invariant
            rest@.len() <= hits.len(),
            forall|i: int| 0 <= i < rest@.len() ==> (#[trigger] rest@[i])@ == hits[hits.len() - 1 - i],
            keyed(lookup@) == by_id(rows),
            views(out@) == spliced(hits.take(hits.len() - rest@.len()), by_id(rows)),
        decreases rest@.len(),
    {
        let ghost k = hits.len() - rest@.len();
        let ghost seen = views(out@);
        let hit = rest.pop().unwrap();
        proof {
            assert(hit@ == hits[k]);
            assert(hits.take(k + 1).drop_last() =~= hits.take(k));
            assert(hits.take(k + 1).last() == hits[k]);
        }
        match hit {
            SearchHit::Record(movie) => {
                out.push(movie);
                assert(views(out@) =~= seen.push(hits[k]->Record_0));
            },
            SearchHit::Placeholder(h) => {
                let key = h.id.bits;
                match lookup.get(&key) {
                    Some(movie) => {
                        assert(keyed(lookup@).contains_key(h.id));
                        out.push(movie.clone());
                        assert(views(out@) =~= seen.push(by_id(rows)[h.id]));
                    },
                    None => {
                        assert(!keyed(lookup@).contains_key(h.id));
                    },
                }
            },
        }
    }
    assert(hits.take(hits.len() as int) =~= hits);
    Page { page_number, next_anchor, items: out }
}

/// The page of records for a page of hits: each placeholder replaced by the
/// record of its identifier as the table holds it, and left out where the
/// table holds none or the record was struck out. The records in full, the
/// order, the page number and the cursor stay as they are.
///
/// A page without placeholders comes back as it is, whatever the table
/// holds: the table is not looked at.
pub fn backfill_unresolved_movies(table: &MovieTable, found: Page<SearchHit>) -> (page: Page<Movie>)
    ensures
        page@.items == hydrated(found@.items, table@),
        all_records(found@.items) ==> page@.items == records_of(found@.items),
        page@.next_anchor == found@.next_anchor,
        page@.page_number == found@.page_number,
{
    proof {
        if all_records(found@.items) {
            lemma_hydrated_records(found@.items, table@);
        }
    }
    if !needs_backfill(&found) {
        proof {
            lemma_spliced_records(found@.items, by_id(Seq::<MovieModel>::empty()));
        }
        return splice(found, Vec::new());
    }
    let ids = unresolved_ids(&found);
    let extra = find_movies_with_ids(table, &ids).items;
    proof {
        lemma_unresolved_holds(found@.items);
        lemma_spliced_is_hydrated(found@.items, table@, ids@);
    }
    splice(found, extra)
}

/// The character of a decimal digit.
pub open spec fn digit_char(d: int) -> char {
    (48 + d) as u8 as char
}

/// A natural number in decimal digits, without leading zeros.
pub open spec fn digits(n: nat) -> Seq<char>
    decreases n,
{
    if n < 10 {
        seq![digit_char(n as int)]
    } else {
        digits(n / 10).push(digit_char((n % 10) as int))
    }
}

/// An integer in decimal digits, with `-` before a negative one.
pub open spec fn decimal(n: int) -> Seq<char> {
    if n < 0 {
        seq!['-'] + digits((-n) as nat)
    } else {
        digits(n as nat)
    }
}

/// Whether a byte is an ASCII letter or digit.
pub open spec fn alphanumeric(b: u8) -> bool {
    ||| 0x30 <= b <= 0x39
    ||| 0x41 <= b <= 0x5a
    ||| 0x61 <= b <= 0x7a
}

/// The character of a hexadecimal digit, letters in upper case.
pub open spec fn hex_char(d: int) -> char {
    if d < 10 {
        (48 + d) as u8 as char
    } else {
        (55 + d) as u8 as char
    }
}

/// A byte as it stands in a URL: a letter or digit as itself, any other byte
/// as `%` and its two hexadecimal digits.
pub open spec fn escaped_byte(b: u8) -> Seq<char> {
    if alphanumeric(b) {
        seq![b as char]
    } else {
        seq!['%', hex_char(b as int / 16), hex_char(b as int % 16)]
    }
}

/// Bytes as they stand in a URL, one after the other.
pub open spec fn escaped(bytes: Seq<u8>) -> Seq<char>
    decreases bytes.len(),
{
    if bytes.len() == 0 {
        Seq::empty()
    } else {
        escaped(bytes.drop_last()) + escaped_byte(bytes.last())
    }
}

/// The text of a decimal digit.
fn digit_text(d: u8) -> (text: &'static str)
    requires
        d < 10,
    ensures
        text@ == seq![digit_char(d as int)],
{
    proof {
        reveal_strlit("0");
        reveal_strlit("1");
        reveal_strlit("2");
        reveal_strlit("3");
        reveal_strlit("4");
        reveal_strlit("5");
        reveal_strlit("6");
        reveal_strlit("7");
        reveal_strlit("8");
        reveal_strlit("9");
    }
    let text = match d {
        0 => "0",
        1 => "1",
        2 => "2",
        3 => "3",
        4 => "4",
        5 => "5",
        6 => "6",
        7 => "7",
        8 => "8",
        _ => "9",
    };
    assert(text@ =~= seq![digit_char(d as int)]);
    text
}

/// A natural number in decimal digits.
fn digits_text(n: u64) -> (text: String)
    ensures
        text@ == digits(n as nat),
    decreases n,
{
    if n < 10 {
        String::from_str(digit_text(n as u8))
    } else {
        let head = digits_text(n / 10);
        let text = head.concat(digit_text((n % 10) as u8));
        assert(text@ =~= digits((n / 10) as nat).push(digit_char((n % 10) as int)));
        text
    }
}

/// An integer in decimal digits.
fn decimal_text(n: i64) -> (text: String)
    ensures
        text@ == decimal(n as int),
{
    if n < 0 {
        let size: u64 = if n == i64::MIN {
            0x8000_0000_0000_0000
        } else {
            (-n) as u64
        };
        proof {
            reveal_strlit("-");
        }
        let head = String::from_str("-");
        let text = head.concat(digits_text(size).as_str());
        assert(text@ =~= seq!['-'] + digits((-n) as nat));
        text
    } else {
        digits_text(n as u64)
    }
}

/// Escapes a text with `percent_encoding::utf8_percent_encode` and the set
/// `NON_ALPHANUMERIC`: every byte of the text's UTF-8 form that is no ASCII
/// letter or digit becomes `%` and two hexadecimal digits in upper case.
#[verifier::external_body]
fn percent_encode(text: &str) -> (escaped_text: String)
    ensures
        escaped_text@ == escaped(encode_utf8(text@)),
{
    percent_encoding::utf8_percent_encode(text, percent_encoding::NON_ALPHANUMERIC).to_string()
}

/// The part of the address of the next page that names the page size.
pub open spec fn count_part(count: Option<i64>) -> Seq<char> {
    match count {
        Some(c) => seq!['c', 'o', 'u', 'n', 't', '='] + decimal(c as int) + seq!['&'],
        None => Seq::empty(),
    }
}

/// The part of the address of the next page that names the search term.
pub open spec fn search_part(search_term: Option<Seq<char>>) -> Seq<char> {
    match search_term {
        Some(s) => seq!['s', 'e', 'a', 'r', 'c', 'h', '='] + escaped(encode_utf8(s)) + seq!['&'],
        None => Seq::empty(),
    }
}

/// The address of the next page: the address of this one, with the page
/// size if one was asked for, the search term if there was one, and the
/// cursor.
pub open spec fn next_page_address(
    base_url: Seq<char>,
    count: Option<i64>,
    search_term: Option<Seq<char>>,
    anchor: Seq<char>,
) -> Seq<char> {
    base_url + seq!['?'] + count_part(count) + search_part(search_term) + seq![
        'a',
        'n',
        'c',
        'h',
        'o',
        'r',
        '=',
    ] + anchor
}

/// What a request for a list of records is answered with.
#[derive(Debug, PartialEq, Eq)]
pub struct QueryResponse {
    pub items: Vec<Movie>,
    pub next_page: Option<String>,
}

impl QueryResponse {
    /// The answer for a page: its records, and the address of the next page
    /// where the page names a cursor.
    pub fn from_page(
        page: Page<Movie>,
        count: Option<i64>,
        search_term: Option<String>,
        base_url: String,
    ) -> (response: QueryResponse)
        ensures
            views(response.items@) == page@.items,
            text_of(response.next_page) == match page@.next_anchor {
                Some(anchor) => Some(
                    next_page_address(base_url@, count, text_of(search_term), anchor),
                ),
                None => None,
            },
    {
        let Page { page_number: _, next_anchor, items } = page;
        let next_page = match next_anchor {
            None => None,
            Some(anchor) => {
                proof {
                    reveal_strlit("?");
                    reveal_strlit("count=");
                    reveal_strlit("search=");
                    reveal_strlit("anchor=");
                    reveal_strlit("&");
                }
                let mut address = base_url.concat("?");
                match count {
                    Some(c) => {
                        address = address.concat("count=").concat(decimal_text(c).as_str()).concat(
                            "&",
                        );
                    },
                    None => {},
                }
                assert(address@ =~= base_url@ + seq!['?'] + count_part(count));
                match &search_term {
                    Some(s) => {
                        address = address.concat("search=").concat(
                            percent_encode(s.as_str()).as_str(),
                        ).concat("&");
                    },
                    None => {},
                }
                assert(address@ =~= base_url@ + seq!['?'] + count_part(count) + search_part(
                    text_of(search_term),
                ));
                address = address.concat("anchor=").concat(anchor.as_str());
                assert(address@ =~= next_page_address(
                    base_url@,
                    count,
                    text_of(search_term),
                    anchor@,
                ));
                Some(address)
            },
        };
        QueryResponse { items, next_page }
    }
}

} // verus!
