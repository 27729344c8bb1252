use vstd::prelude::*;

use crate::cursor::{decode, decode_spec};
use crate::error::PaginationError;
use crate::key::KeyTuple;
use crate::meta::{Connection, ConnectionMeta};

verus! {

/// How a request asks for its page; a request may also carry none.
#[derive(Clone, Debug)]
pub enum PaginationSpec {
    /// The 1-based page `page` of `limit` records.
    Pages { page: u64, limit: u64 },
    /// `take` records from the page that holds record `skip`.
    Offset { skip: u64, take: u64 },
    /// Up to `limit` records after the key that `cursor` encodes, or from the start.
    Cursor { cursor: Option<String>, limit: u64 },
}

/// `a / b` rounded up.
pub open spec fn ceil_div_spec(a: nat, b: nat) -> nat {
    if b == 0 {
        0
    } else {
        ((a + b - 1) as nat / b) as nat
    }
}

/// `ceil_div_spec` is `0` on `0`, otherwise one more than `(a - 1) / b`; it never exceeds `a`.
pub proof fn lemma_ceil_div_shape(a: nat, b: nat)
    requires
        b > 0,
    ensures
        a == 0 ==> ceil_div_spec(a, b) == 0,
        a > 0 ==> ceil_div_spec(a, b) == (a - 1) as nat / b + 1,
        ceil_div_spec(a, b) <= a,
{
    if a == 0 {
        vstd::arithmetic::div_mod::lemma_basic_div((b - 1) as int, b as int);
    } else {
        vstd::arithmetic::div_mod::lemma_div_plus_one((a - 1) as int, b as int);
        assert((b + (a - 1)) as int == (a + b - 1) as nat as int);
        vstd::arithmetic::div_mod::lemma_div_nonincreasing((a - 1) as int, b as int);
    }
}

/// Page-number metadata: `offset` is the index after the page's last record.
pub open spec fn page_meta(page: nat, limit: nat, total_count: nat) -> ConnectionMeta
    recommends
        limit > 0,
        limit * page <= u64::MAX,
        total_count <= u64::MAX,
{
    let pages = ceil_div_spec(total_count, limit);
    ConnectionMeta {
        has_previous_page: page != 1,
        has_next_page: page < pages,
        pages: Some(pages as u64),
        current_page: Some(page as u64),
        offset: Some((limit * page) as u64),
        limit: Some(limit as u64),
        total_count: Some(total_count as u64),
    }
}

/// Offset metadata; the next-page flag compares `take` with the total and ignores `skip`.
pub open spec fn offset_meta(skip: nat, take: nat, total_count: nat) -> ConnectionMeta
    recommends
        take > 0,
        skip <= u64::MAX,
        take <= u64::MAX,
        total_count <= u64::MAX,
{
    ConnectionMeta {
        has_previous_page: skip > 0,
        has_next_page: take < total_count,
        pages: Some(ceil_div_spec(total_count, take) as u64),
        current_page: Some((skip / take) as u64),
        offset: Some(skip as u64),
        limit: Some(take as u64),
        total_count: Some(total_count as u64),
    }
}

/// Metadata when the request asks for no pagination: one page holding everything.
pub open spec fn unpaged_meta(total_count: nat) -> ConnectionMeta {
    ConnectionMeta {
        has_previous_page: false,
        has_next_page: false,
        pages: Some(1),
        current_page: Some(1),
        offset: Some(0),
        limit: Some(total_count as u64),
        total_count: Some(total_count as u64),
    }
}

/// `a / b` rounded up, without overflow.
pub fn ceil_div(a: u64, b: u64) -> (r: u64)
    requires
        b > 0,
    ensures
        r == ceil_div_spec(a as nat, b as nat),
        r <= a,
{
    proof {
        lemma_ceil_div_shape(a as nat, b as nat);
    }
    if a == 0 {
        0
    } else {
        (a - 1) / b + 1
    }
}

/// The 0-based index of the store page that holds the 1-based page `page`.
pub fn page_fetch_index(page: u64) -> (r: u64)
    requires
        page >= 1,
    ensures
        r == page - 1,
{
    page - 1
}

/// The 0-based index of the page of size `take` that holds record `skip`.
pub fn offset_page_index(skip: u64, take: u64) -> (r: u64)
    requires
        take > 0,
    ensures
        r == skip / take,
{
    skip / take
}

/// The connection for page `page` of size `limit`, given the records fetched
/// for it and the store's total count.
pub fn page_connection<R>(page: u64, limit: u64, data: Vec<R>, total_count: u64) -> (r:
    Connection<R>)
    requires
        limit > 0,
        page >= 1,
        limit * page <= u64::MAX,
    ensures
        r.edges@ == data@,
        r.page_info == page_meta(page as nat, limit as nat, total_count as nat),
{
    let pages = ceil_div(total_count, limit);
    let meta = ConnectionMeta::empty().connection_info(page != 1, page < pages).page_info(
        pages,
        page,
    ).offset_info(limit * page, limit, total_count);
    Connection { edges: data, page_info: meta }
}

/// The connection for `take` records from offset `skip`, given the records
/// fetched for the enclosing page and the store's total count.
pub fn offset_connection<R>(skip: u64, take: u64, data: Vec<R>, total_count: u64) -> (r:
    Connection<R>)
    requires
        take > 0,
    ensures
        r.edges@ == data@,
        r.page_info == offset_meta(skip as nat, take as nat, total_count as nat),
{
    let page = offset_page_index(skip, take);
    let pages = ceil_div(total_count, take);
    let meta = ConnectionMeta::empty().connection_info(skip > 0, take < total_count).page_info(
        pages,
        page,
    ).offset_info(skip, take, total_count);
    Connection { edges: data, page_info: meta }
}

/// The connection for a request without pagination: every matching record.
pub fn unpaged_connection<R>(data: Vec<R>) -> (r: Connection<R>)
    ensures
        r.edges@ == data@,
        r.page_info == unpaged_meta(data@.len()),
{
    let total_count = data.len() as u64;
    let meta = ConnectionMeta::empty().connection_info(false, false).page_info(1, 1).offset_info(
        0,
        total_count,
        total_count,
    );
    Connection { edges: data, page_info: meta }
}

/// Cursor metadata: the two flags and nothing else.
pub open spec fn cursor_meta(has_previous_page: bool, has_next_page: bool) -> ConnectionMeta {
    ConnectionMeta {
        has_previous_page,
        has_next_page,
        pages: None,
        current_page: None,
        offset: None,
        limit: None,
        total_count: None,
    }
}

/// Where cursor pagination starts for a record type whose key has `arity`
/// columns: from the beginning, or strictly after the key that the token encodes.
pub open spec fn cursor_start_spec(cursor: Option<Seq<char>>, arity: nat) -> Result<
    Option<KeyTuple>,
    PaginationError,
> {
    if !(1 <= arity <= 3) {
        Err(PaginationError::UnsupportedKeyArity)
    } else {
        match cursor {
            None => Ok(None),
            Some(s) => match decode_spec(s) {
                Ok(k) => if k.arity_spec() == arity {
                    Ok(Some(k))
                } else {
                    Err(PaginationError::CursorDecodeError)
                },
                Err(e) => Err(e),
            },
        }
    }
}

/// The optional token as characters.
pub open spec fn token_view(cursor: &Option<String>) -> Option<Seq<char>> {
    match cursor {
        Some(s) => Some(s@),
        None => None,
    }
}

/// Checks the key arity and decodes the incoming token, if any.
pub fn cursor_start(cursor: &Option<String>, arity: usize) -> (r: Result<
    Option<KeyTuple>,
    PaginationError,
>)
    ensures
        r == cursor_start_spec(token_view(cursor), arity as nat),
{
    if arity < 1 || arity > 3 {
        return Err(PaginationError::UnsupportedKeyArity);
    }
    match cursor {
        None => Ok(None),
        Some(s) => match decode(s.as_str()) {
            Ok(k) => {
                if k.arity() == arity {
                    Ok(Some(k))
                } else {
                    Err(PaginationError::CursorDecodeError)
                }
            },
            Err(e) => Err(e),
        },
    }
}

/// The connection for a cursor page, given how many records each probe found:
/// the forward probe after the page's last key and the backward probe before
/// its first key (both zero when the page is empty).
pub fn cursor_connection<R>(data: Vec<R>, next_probe_len: usize, previous_probe_len: usize) -> (r:
    Connection<R>)
    ensures
        r.edges@ == data@,
        r.page_info == cursor_meta(previous_probe_len > 0, next_probe_len > 0),
{
    let meta = ConnectionMeta::empty().connection_info(previous_probe_len > 0, next_probe_len > 0);
    Connection { edges: data, page_info: meta }
}

/// Page-number mode: there is a next page exactly when the page comes before
/// the last one, and a previous page exactly when it is not the first.
pub proof fn lemma_page_flags(page: nat, limit: nat, total_count: nat)
    requires
        limit > 0,
    ensures
        page_meta(page, limit, total_count).has_next_page == (page < ceil_div_spec(
            total_count,
            limit,
        )),
        page_meta(page, limit, total_count).has_previous_page == (page != 1),
{
}

/// Offset mode: the page index is `skip / take` rounded down and the page count
/// is the total over `take` rounded up.
pub proof fn lemma_offset_page_arithmetic(skip: nat, take: nat, total_count: nat)
    requires
        take > 0,
        skip <= u64::MAX,
        take <= u64::MAX,
        total_count <= u64::MAX,
    ensures
        offset_meta(skip, take, total_count).current_page == Some((skip / take) as u64),
        offset_meta(skip, take, total_count).pages == Some(ceil_div_spec(total_count, take) as u64),
        (skip / take) as u64 as nat == skip / take,
        ceil_div_spec(total_count, take) as u64 as nat == ceil_div_spec(total_count, take),
{
    assert(skip / take <= skip) by (nonlinear_arith)
        requires
            take > 0,
    ;
    lemma_ceil_div_shape(total_count, take);
}

} // verus!
