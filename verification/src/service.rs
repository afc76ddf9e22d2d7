//! Request-shaping layer over the quote store and the pagination codec:
//! turns a listing request with an optional cursor into a range query,
//! builds the next cursor from the result, and exposes the CRUD operations
//! with their not-found and validation rules.

use vstd::prelude::*;

use crate::codec::{
    cursor_fits, cursor_of, decode_cursor, encode_cursor, spec_decode_cursor,
};
use crate::store::{
    contains_id, find_index, insert_pos, min_int, spec_list_from, Quote, QuoteModel, QuoteStore,
};
use crate::text::opt_str_view;

verus! {

/// How a request can fail: the id names no live record, or the cursor does
/// not decode. Storage faults are the storage adapter's to surface.
#[derive(Clone, Copy, Debug, PartialEq, Eq, Structural)]
pub enum ServiceError {
    NotFound,
    Validation,
}

/// One page of a listing: at most three quotes, the page number the caller
/// asked for, and the cursor of the next page if a fourth record remained.
#[derive(Debug)]
pub struct Page {
    pub quotes: Vec<Quote>,
    pub page: u64,
    pub next_token: Option<String>,
}

/// Mathematical image of a page.
pub ghost struct PageModel {
    pub quotes: Seq<QuoteModel>,
    pub page: u64,
    pub next_token: Option<Seq<char>>,
}

impl View for Page {
    type V = PageModel;

    open spec fn view(&self) -> PageModel {
        PageModel {
            quotes: self.quotes.deep_view(),
            page: self.page,
            next_token: match self.next_token {
                Some(t) => Some(t@),
                None => None,
            },
        }
    }
}

/// Page built from the raw result of a limit-4 range query: the first three
/// records are handed out; a fourth means another page exists, and its
/// creation time becomes the watermark inside the next cursor.
pub open spec fn spec_mk_pagination(page: u64, rs: Seq<QuoteModel>) -> PageModel {
    PageModel {
        quotes: rs.take(min_int(3, rs.len() as int)),
        page: page,
        next_token: if rs.len() == 4 && page < u64::MAX && cursor_fits(
            (page + 1) as nat,
            rs[3].created_at as nat,
        ) {
            Some(cursor_of((page + 1) as nat, rs[3].created_at as nat))
        } else {
            None
        },
    }
}

/// Builds the page handed back to the caller from a limit-4 query result.
/// A next cursor is produced exactly when four records came back and both
/// encoded parts leave room for the delimiter in the fixed 16 characters.
pub fn mk_pagination(current_page: u64, results: Vec<Quote>) -> (r: Page)
    ensures
        r@ == spec_mk_pagination(current_page, results.deep_view()),
{
    let n = results.len();
    let next_token: Option<String> = if n == 4 {
        match current_page.checked_add(1) {
            Some(p2) => encode_cursor(p2, results[3].created_at),
            None => None,
        }
    } else {
        None
    };
    let take = if n < 3 {
        n
    } else {
        3
    };
    let mut quotes: Vec<Quote> = Vec::new();
    let mut i: usize = 0;
    while i < take
        invariant
            0 <= i <= take,
            take == min_int(3, results.deep_view().len() as int),
            quotes.deep_view() =~= results.deep_view().take(i as int),
            take <= results@.len(),
        decreases take - i,
    {
        let ghost before = quotes.deep_view();
        let d = results[i].duplicate();
        proof {
            assert(d@ == results.deep_view()[i as int]);
        }
        quotes.push(d);
        proof {
            assert(quotes.deep_view() =~= before.push(results.deep_view()[i as int]));
            assert(quotes.deep_view() =~= results.deep_view().take(i as int + 1));
        }
        i = i + 1;
    }
    let r = Page { quotes, page: current_page, next_token };
    proof {
        assert(r@.quotes =~= spec_mk_pagination(current_page, results.deep_view()).quotes);
        if n == 4 {
            assert(results.deep_view()[3] == results@[3]@);
        }
    }
    r
}

/// What a listing request returns: with no cursor, the first page of the
/// store; with one, a validation failure if it does not decode, else the
/// page at the decoded watermark under the decoded page number.
pub open spec fn spec_list(s: Seq<QuoteModel>, c: Option<Seq<char>>) -> Result<
    PageModel,
    ServiceError,
> {
    match c {
        None => Ok(spec_mk_pagination(1, spec_list_from(s, 0, 4))),
        Some(tok) => match spec_decode_cursor(tok) {
            None => Err(ServiceError::Validation),
            Some((page, ts)) => Ok(spec_mk_pagination(page, spec_list_from(s, ts, 4))),
        },
    }
}

/// Listing. A malformed cursor short-circuits to a validation error before
/// the store is consulted; otherwise the store is asked for four records at
/// or after the watermark and the page is shaped from them.
pub fn list(store: &QuoteStore, cursor: Option<&str>) -> (r: Result<Page, ServiceError>)
    requires
        store.wf(),
    ensures
        match spec_list(store@, opt_str_view(cursor)) {
            Ok(pm) => r matches Ok(p) && p@ == pm,
            Err(e) => r matches Err(e2) && e2 == e,
        },
{
    match cursor {
        None => {
            let rs = store.list_from(0, 4);
            Ok(mk_pagination(1, rs))
        },
        Some(tok) => match decode_cursor(tok) {
            None => Err(ServiceError::Validation),
            Some((page, ts)) => {
                let rs = store.list_from(ts, 4);
                Ok(mk_pagination(page, rs))
            },
        },
    }
}

/// Fetch by id; an unknown id is NotFound.
pub fn get_by_id(store: &QuoteStore, id: u128) -> (r: Result<Quote, ServiceError>)
    ensures
        contains_id(store@, id) ==> (r matches Ok(q) && q@ == store@[find_index(store@, id)]),
        !contains_id(store@, id) ==> (r matches Err(e) && e == ServiceError::NotFound),
{
    match store.get(id) {
        Some(q) => Ok(q),
        None => Err(ServiceError::NotFound),
    }
}

/// Creation: the record enters the store with `version == 1` under the id
/// and creation time the collaborators assigned. `None` without any change
/// if the id is already live, since ids must stay unique.
pub fn create(store: &mut QuoteStore, id: u128, created_at: u64, author: String, text: String) -> (r:
    Option<Quote>)
    requires
        old(store).wf(),
    ensures
        final(store).wf(),
        contains_id(old(store)@, id) ==> r is None && final(store)@ == old(store)@,
        !contains_id(old(store)@, id) ==> (r matches Some(q) && q@ == (QuoteModel {
            id,
            author: author@,
            text: text@,
            created_at,
            version: 1,
        }) && final(store)@ == old(store)@.insert(insert_pos(old(store)@, created_at), q@)),
{
    store.insert(id, created_at, author, text)
}

/// Update: replaces author and text, bumps the version by exactly one,
/// leaves id and creation time untouched. NotFound if the id is unknown.
pub fn update(store: &mut QuoteStore, id: u128, author: String, text: String) -> (r: Result<
    Quote,
    ServiceError,
>)
    requires
        old(store).wf(),
        forall|i: int|
            0 <= i < old(store)@.len() && #[trigger] old(store)@[i].id == id ==> old(store)@[i].version < u64::MAX,
    ensures
        final(store).wf(),
        !contains_id(old(store)@, id) ==> (r matches Err(e) && e == ServiceError::NotFound && final(store)@ == old(store)@),
        contains_id(old(store)@, id) ==> (r matches Ok(q) && q@ == (QuoteModel {
            id,
            author: author@,
            text: text@,
            created_at: old(store)@[find_index(old(store)@, id)].created_at,
            version: (old(store)@[find_index(old(store)@, id)].version + 1) as u64,
        }) && final(store)@ == old(store)@.update(find_index(old(store)@, id), q@)),
{
    match store.update(id, author, text) {
        Some(q) => Ok(q),
        None => Err(ServiceError::NotFound),
    }
}

/// Delete: removes and returns the record; NotFound if the id is unknown.
pub fn delete(store: &mut QuoteStore, id: u128) -> (r: Result<Quote, ServiceError>)
    requires
        old(store).wf(),
    ensures
        final(store).wf(),
        !contains_id(old(store)@, id) ==> (r matches Err(e) && e == ServiceError::NotFound && final(store)@ == old(store)@),
        contains_id(old(store)@, id) ==> (r matches Ok(q) && q@ == old(store)@[find_index(
            old(store)@,
            id,
        )] && final(store)@ == old(store)@.remove(find_index(old(store)@, id))),
{
    match store.delete(id) {
        Some(q) => Ok(q),
        None => Err(ServiceError::NotFound),
    }
}

/// Reset: removes every record.
pub fn reset(store: &mut QuoteStore)
    ensures
        final(store)@ == Seq::<QuoteModel>::empty(),
        final(store).wf(),
{
    store.clear()
}

/// Listing is a pure function of the store contents and the cursor: two
/// listings against an unchanged store return identical pages.
pub proof fn lemma_list_idempotent(
    s: Seq<QuoteModel>,
    c: Option<Seq<char>>,
    r1: Result<PageModel, ServiceError>,
    r2: Result<PageModel, ServiceError>,
)
    requires
        r1 == spec_list(s, c),
        r2 == spec_list(s, c),
    ensures
        r1 == r2,
{
}

/// Creation times strictly ascending: the setting in which pagination
/// neither skips nor repeats a record (equal creation times carry no
/// tie-break key, a known limitation).
pub open spec fn strictly_increasing(s: Seq<QuoteModel>) -> bool {
    forall|i: int, j: int|
        0 <= i < j < s.len() ==> #[trigger] s[i].created_at < #[trigger] s[j].created_at
}

/// The records a client gathers by following `next_token` from the record
/// at index `i`: three at a time while a fourth remains, then the rest.
pub open spec fn pages_from(s: Seq<QuoteModel>, i: int) -> Seq<QuoteModel>
    decreases s.len() - i,
    when 0 <= i <= s.len()
{
    if s.len() - i >= 4 {
        s.subrange(i, i + 3) + pages_from(s, i + 3)
    } else {
        s.subrange(i, s.len() as int)
    }
}

/// Pagination completeness, tiling half: the pages gathered from index `i`
/// are exactly the records from `i` on, each once, in store order.
pub proof fn lemma_pages_from_complete(s: Seq<QuoteModel>, i: int)
    requires
        0 <= i <= s.len(),
    ensures
        pages_from(s, i) =~= s.skip(i),
    decreases s.len() - i,
{
    if s.len() - i >= 4 {
        lemma_pages_from_complete(s, i + 3);
    }
}

/// The first page: a listing without a cursor returns the three earliest
/// records under page number 1, and when a fourth exists its cursor decodes
/// to page 2 and that fourth record's creation time.
pub proof fn lemma_first_page(s: Seq<QuoteModel>)
    ensures
        spec_list(s, None) matches Ok(pm) && pm.page == 1 && pm.quotes =~= s.take(
            min_int(3, s.len() as int),
        ) && (s.len() >= 4 && cursor_fits(2, s[3].created_at as nat) ==> (
        pm.next_token matches Some(tok) && spec_decode_cursor(tok) == Some(
            (2u64, s[3].created_at),
        ))) && (s.len() < 4 ==> pm.next_token is None),
{
    crate::store::lemma_first_ge_at(s, 0, 0);
    let rs = spec_list_from(s, 0, 4);
    assert(rs =~= s.take(min_int(4, s.len() as int)));
    let pm = spec_mk_pagination(1, rs);
    assert(pm.quotes =~= s.take(min_int(3, s.len() as int)));
    if s.len() >= 4 && cursor_fits(2, s[3].created_at as nat) {
        assert(rs[3] == s[3]);
        crate::codec::lemma_cursor_round_trip(2u64, s[3].created_at);
    }
}

/// Pagination completeness, stepping half: over a store of strictly
/// ascending creation times, the page listed at the watermark of record `i`
/// holds exactly records `i`, `i+1`, `i+2`; when a fourth remains its
/// cursor decodes to page `page+1` and the creation time of record `i+3`,
/// so the next request resumes precisely there; when none remains the page
/// holds the records from `i` on and carries no cursor.
pub proof fn lemma_pagination_step(s: Seq<QuoteModel>, page: u64, i: int)
    requires
        strictly_increasing(s),
        0 <= i < s.len(),
    ensures
        s.len() - i >= 4 ==> {
            let pm = spec_mk_pagination(page, spec_list_from(s, s[i].created_at, 4));
            pm.quotes =~= s.subrange(i, i + 3) && (page < u64::MAX && cursor_fits(
                (page + 1) as nat,
                s[i + 3].created_at as nat,
            ) ==> (pm.next_token matches Some(tok) && spec_decode_cursor(tok) == Some(
                (((page + 1) as u64), s[i + 3].created_at),
            )))
        },
        s.len() - i < 4 ==> {
            let pm = spec_mk_pagination(page, spec_list_from(s, s[i].created_at, 4));
            pm.quotes =~= s.skip(i) && pm.next_token is None
        },
{
    let w = s[i].created_at;
    crate::store::lemma_first_ge_at(s, w, i);
    let rs = spec_list_from(s, w, 4);
    if s.len() - i >= 4 {
        assert(rs =~= s.subrange(i, i + 4));
        assert(rs[3] == s[i + 3]);
        assert(rs.take(3) =~= s.subrange(i, i + 3));
        if page < u64::MAX && cursor_fits((page + 1) as nat, s[i + 3].created_at as nat) {
            crate::codec::lemma_cursor_round_trip((page + 1) as u64, s[i + 3].created_at);
        }
    } else {
        assert(rs =~= s.skip(i));
        assert(rs.take(min_int(3, rs.len() as int)) =~= rs);
    }
}

} // verus!
