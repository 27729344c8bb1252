use vstd::prelude::*;

use crate::cursor::{encode_spec, lemma_cursor_round_trip};
use crate::error::PaginationError;
use crate::key::{lemma_key_lt_irreflexive, lemma_key_lt_transitive, KeyTuple};
use crate::meta::ConnectionMeta;
use crate::paging::{cursor_start_spec, lemma_ceil_div_shape, PaginationSpec, token_view};
use crate::store::{
    after_boundary, all_of_arity, cursor_page, pagination_valid, resolve_spec, start_after,
    strictly_sorted, window,
};

verus! {

/// The keys that `steps` successive cursor requests of size `limit` visit,
/// each request carrying the token of the last key of the page before.
pub open spec fn cursor_walk(
    keys: Seq<KeyTuple>,
    arity: nat,
    token: Option<Seq<char>>,
    limit: nat,
    steps: nat,
) -> Seq<KeyTuple>
    decreases steps,
{
    match cursor_start_spec(token, arity) {
        Err(_) => Seq::empty(),
        Ok(start) => {
            let page = cursor_page(keys, start, limit);
            if steps == 0 || page.len() == 0 {
                Seq::empty()
            } else {
                page + cursor_walk(keys, arity, Some(encode_spec(page.last())), limit, (steps - 1) as nat)
            }
        },
    }
}

/// The token that resumes after the first `e` keys.
pub open spec fn resume_token(keys: Seq<KeyTuple>, e: int) -> Option<Seq<char>> {
    if e == 0 {
        None
    } else {
        Some(encode_spec(keys[e - 1]))
    }
}

proof fn lemma_start_after_prefix(keys: Seq<KeyTuple>, e: int)
    requires
        strictly_sorted(keys),
        0 < e <= keys.len(),
    ensures
        start_after(keys, keys[e - 1]) == e,
{
    let k = keys[e - 1];
    assert forall|i: int| 0 <= i < e implies !k.lt_spec(#[trigger] keys[i]) by {
        lemma_key_lt_irreflexive(k);
        if i < e - 1 && k.lt_spec(keys[i]) {
            assert(keys[i].lt_spec(k));
            lemma_key_lt_transitive(keys[i], k, keys[i]);
            lemma_key_lt_irreflexive(keys[i]);
        }
    }
    assert forall|i: int| e <= i < keys.len() implies k.lt_spec(#[trigger] keys[i]) by {
        assert(keys[e - 1].lt_spec(keys[i]));
    }
    assert(after_boundary(keys, k, e));
    let j = start_after(keys, k);
    if j < e {
        assert(k.lt_spec(keys[j]));
    } else if j > e {
        assert(!k.lt_spec(keys[e]));
    }
}

proof fn lemma_walk_from(keys: Seq<KeyTuple>, arity: nat, limit: nat, e: int, steps: nat)
    requires
        strictly_sorted(keys),
        all_of_arity(keys, arity),
        1 <= arity <= 3,
        limit > 0,
        0 <= e <= keys.len(),
        steps >= keys.len() - e,
    ensures
        cursor_walk(keys, arity, resume_token(keys, e), limit, steps) == keys.subrange(
            e,
            keys.len() as int,
        ),
    decreases steps,
{
    let start: Option<KeyTuple> = if e == 0 {
        None
    } else {
        Some(keys[e - 1])
    };
    if e > 0 {
        lemma_cursor_round_trip(keys[e - 1]);
        assert(keys[e - 1].arity_spec() == arity);
        lemma_start_after_prefix(keys, e);
    }
    assert(cursor_start_spec(resume_token(keys, e), arity) == Ok::<
        Option<KeyTuple>,
        PaginationError,
    >(start));
    let page = cursor_page(keys, start, limit);
    assert(page == window(keys, e, limit));
    if e == keys.len() {
        assert(keys.subrange(e, keys.len() as int) =~= Seq::<KeyTuple>::empty());
    } else {
        let m = if e + limit < keys.len() {
            e + limit
        } else {
            keys.len() as int
        };
        assert(page == keys.subrange(e, m));
        assert(page.last() == keys[m - 1]);
        lemma_walk_from(keys, arity, limit, m, (steps - 1) as nat);
        assert(resume_token(keys, m) == Some(encode_spec(page.last())));
        assert(keys.subrange(e, keys.len() as int) =~= page + keys.subrange(m, keys.len() as int));
    }
}

/// Cursor pagination is complete: starting with no token and feeding back the
/// token of each page's last key, as many requests as there are keys visit
/// every key exactly once, in key order.
pub proof fn lemma_cursor_walk_complete(keys: Seq<KeyTuple>, arity: nat, limit: nat)
    requires
        strictly_sorted(keys),
        all_of_arity(keys, arity),
        1 <= arity <= 3,
        limit > 0,
    ensures
        cursor_walk(keys, arity, None, limit, keys.len()) == keys,
{
    lemma_walk_from(keys, arity, limit, 0, keys.len());
    assert(keys.subrange(0, keys.len() as int) =~= keys);
}

/// Over an empty collection every mode yields no records and neither flag,
/// for the first page, a zero offset, and a cursor that decodes.
pub proof fn lemma_empty_collection(arity: nat, pagination: Option<PaginationSpec>)
    requires
        pagination_valid(pagination),
        match pagination {
            Some(PaginationSpec::Pages { page, limit }) => page == 1,
            Some(PaginationSpec::Offset { skip, take }) => skip == 0,
            Some(PaginationSpec::Cursor { cursor, limit }) => cursor_start_spec(
                token_view(&cursor),
                arity,
            ) is Ok,
            None => true,
        },
    ensures
        resolve_spec(Seq::empty(), arity, pagination) matches Ok((edges, meta)) && edges.len() == 0
            && !meta.has_previous_page && !meta.has_next_page,
{
    match pagination {
        Some(PaginationSpec::Pages { page, limit }) => {
            lemma_ceil_div_shape(0, limit as nat);
        },
        Some(PaginationSpec::Offset { skip, take }) => {
            lemma_ceil_div_shape(0, take as nat);
        },
        _ => {},
    }
}

/// Cursor pagination over a record type whose key has no column or more than
/// three fails with an unsupported-arity error, whatever the token and size.
pub proof fn lemma_unsupported_key_arity(
    keys: Seq<KeyTuple>,
    arity: nat,
    cursor: Option<String>,
    limit: u64,
)
    requires
        !(1 <= arity <= 3),
    ensures
        resolve_spec(keys, arity, Some(PaginationSpec::Cursor { cursor, limit })) == Err::<
            (Seq<KeyTuple>, ConnectionMeta),
            PaginationError,
        >(PaginationError::UnsupportedKeyArity),
{
}

} // verus!
