use vstd::prelude::*;

use crate::error::PaginationError;
use crate::key::{lemma_key_lt_transitive, KeyTuple};
use crate::meta::Connection;
use crate::paging::{
    cursor_connection, cursor_meta, cursor_start, cursor_start_spec, offset_connection,
    offset_meta, offset_page_index, page_connection, page_fetch_index, page_meta, token_view,
    unpaged_connection, unpaged_meta, PaginationSpec,
};

verus! {

/// Keys in strictly increasing key order.
pub open spec fn strictly_sorted(keys: Seq<KeyTuple>) -> bool {
    forall|i: int, j: int| 0 <= i < j < keys.len() ==> (#[trigger] keys[i]).lt_spec(#[trigger] keys[j])
}

/// Up to `limit` keys from position `j` on.
pub open spec fn window(keys: Seq<KeyTuple>, j: int, limit: nat) -> Seq<KeyTuple> {
    if j < 0 || j >= keys.len() {
        Seq::empty()
    } else if j + limit < keys.len() {
        keys.subrange(j, j + limit)
    } else {
        keys.subrange(j, keys.len() as int)
    }
}

/// `j` splits `keys` into those not after `k` and those strictly after it.
pub open spec fn after_boundary(keys: Seq<KeyTuple>, k: KeyTuple, j: int) -> bool {
    &&& 0 <= j <= keys.len()
    &&& forall|i: int| 0 <= i < j ==> !k.lt_spec(#[trigger] keys[i])
    &&& forall|i: int| j <= i < keys.len() ==> k.lt_spec(#[trigger] keys[i])
}

/// `j` splits `keys` into those strictly before `k` and the others.
pub open spec fn before_boundary(keys: Seq<KeyTuple>, k: KeyTuple, j: int) -> bool {
    &&& 0 <= j <= keys.len()
    &&& forall|i: int| 0 <= i < j ==> (#[trigger] keys[i]).lt_spec(k)
    &&& forall|i: int| j <= i < keys.len() ==> !(#[trigger] keys[i]).lt_spec(k)
}

/// The position of the first key strictly after `k`.
pub open spec fn start_after(keys: Seq<KeyTuple>, k: KeyTuple) -> int {
    choose|j: int| after_boundary(keys, k, j)
}

/// The number of keys strictly before `k`.
pub open spec fn end_before(keys: Seq<KeyTuple>, k: KeyTuple) -> int {
    choose|j: int| before_boundary(keys, k, j)
}

/// Up to `limit` keys strictly after `k`, in order.
pub open spec fn seek_after(keys: Seq<KeyTuple>, k: KeyTuple, limit: nat) -> Seq<KeyTuple> {
    window(keys, start_after(keys, k), limit)
}

/// Up to `limit` keys strictly before `k`, in order from the first.
pub open spec fn seek_before(keys: Seq<KeyTuple>, k: KeyTuple, limit: nat) -> Seq<KeyTuple> {
    window(keys, 0, if limit < end_before(keys, k) { limit } else { end_before(keys, k) as nat })
}

/// The page that cursor pagination returns: from the start, or after a key.
pub open spec fn cursor_page(keys: Seq<KeyTuple>, start: Option<KeyTuple>, limit: nat) -> Seq<
    KeyTuple,
> {
    match start {
        None => window(keys, 0, limit),
        Some(k) => seek_after(keys, k, limit),
    }
}

/// The page and metadata that a request yields over `keys`, or its error.
pub open spec fn resolve_spec(
    keys: Seq<KeyTuple>,
    arity: nat,
    pagination: Option<PaginationSpec>,
) -> Result<(Seq<KeyTuple>, crate::meta::ConnectionMeta), PaginationError> {
    match pagination {
        None => Ok((keys, unpaged_meta(keys.len()))),
        Some(PaginationSpec::Pages { page, limit }) => Ok(
            (
                window(keys, (page - 1) * limit, limit as nat),
                page_meta(page as nat, limit as nat, keys.len()),
            ),
        ),
        Some(PaginationSpec::Offset { skip, take }) => Ok(
            (
                window(keys, (skip / take) * take, take as nat),
                offset_meta(skip as nat, take as nat, keys.len()),
            ),
        ),
        Some(PaginationSpec::Cursor { cursor, limit }) => match cursor_start_spec(
            token_view(&cursor),
            arity,
        ) {
            Err(e) => Err(e),
            Ok(start) => {
                let page = cursor_page(keys, start, limit as nat);
                let has_next = page.len() > 0 && seek_after(keys, page.last(), limit as nat).len()
                    > 0;
                let has_previous = page.len() > 0 && seek_before(keys, page[0], limit as nat).len()
                    > 0;
                Ok((page, cursor_meta(has_previous, has_next)))
            },
        },
    }
}

/// What a request must hold: a positive page size, and a 1-based page whose
/// end offset fits in a `u64`.
pub open spec fn pagination_valid(pagination: Option<PaginationSpec>) -> bool {
    match pagination {
        Some(PaginationSpec::Pages { page, limit }) => limit > 0 && page >= 1 && limit * page
            <= u64::MAX,
        Some(PaginationSpec::Offset { skip, take }) => take > 0,
        _ => true,
    }
}

/// An ordered, already filtered collection of the keys of one record type,
/// held in memory: keys strictly increase, and all have the record type's arity.
pub struct MemoryStore {
    arity: usize,
    keys: Vec<KeyTuple>,
}

impl View for MemoryStore {
    type V = Seq<KeyTuple>;

    closed spec fn view(&self) -> Seq<KeyTuple> {
        self.keys@
    }
}

/// Every key has `arity` columns.
pub open spec fn all_of_arity(keys: Seq<KeyTuple>, arity: nat) -> bool {
    forall|i: int| 0 <= i < keys.len() ==> (#[trigger] keys[i]).arity_spec() == arity
}

fn copy_range(keys: &Vec<KeyTuple>, from: usize, to: usize) -> (r: Vec<KeyTuple>)
    requires
        from <= to <= keys@.len(),
    ensures
        r@ == keys@.subrange(from as int, to as int),
{
    let mut r: Vec<KeyTuple> = Vec::new();
    let mut i = from;
    while i < to
        invariant
            from <= i <= to <= keys@.len(),
            r@ == keys@.subrange(from as int, i as int),
        decreases to - i,
    {
        r.push(keys[i]);
        assert(keys@.subrange(from as int, i + 1) =~= keys@.subrange(from as int, i as int).push(
            keys@[i as int],
        ));
        i += 1;
    }
    r
}

/// The keys of `window(keys, j, limit)`.
fn copy_window(keys: &Vec<KeyTuple>, j: usize, limit: u64) -> (r: Vec<KeyTuple>)
    ensures
        r@ == window(keys@, j as int, limit as nat),
{
    if j >= keys.len() {
        return Vec::new();
    }
    let room = keys.len() - j;
    if (limit as u128) < (room as u128) {
        copy_range(keys, j, j + limit as usize)
    } else {
        copy_range(keys, j, keys.len())
    }
}

proof fn lemma_after_boundary_unique(keys: Seq<KeyTuple>, k: KeyTuple, j1: int, j2: int)
    requires
        after_boundary(keys, k, j1),
        after_boundary(keys, k, j2),
    ensures
        j1 == j2,
{
    if j1 < j2 {
        assert(k.lt_spec(keys[j1]));
    } else if j2 < j1 {
        assert(k.lt_spec(keys[j2]));
    }
}

proof fn lemma_before_boundary_unique(keys: Seq<KeyTuple>, k: KeyTuple, j1: int, j2: int)
    requires
        before_boundary(keys, k, j1),
        before_boundary(keys, k, j2),
    ensures
        j1 == j2,
{
    if j1 < j2 {
        assert(keys[j1].lt_spec(k));
    } else if j2 < j1 {
        assert(keys[j2].lt_spec(k));
    }
}

impl MemoryStore {
    pub closed spec fn arity_spec(&self) -> nat {
        self.arity as nat
    }

    /// The store's invariant.
    pub closed spec fn wf(&self) -> bool {
        &&& strictly_sorted(self.keys@)
        &&& all_of_arity(self.keys@, self.arity as nat)
    }

    /// A store of the given keys for a record type whose key has `arity`
    /// columns; `None` unless the keys strictly increase and all have that arity.
    pub fn from_keys(arity: usize, keys: Vec<KeyTuple>) -> (r: Option<MemoryStore>)
        ensures
            r is Some <==> strictly_sorted(keys@) && all_of_arity(keys@, arity as nat),
            r matches Some(st) ==> st.wf() && st@ == keys@ && st.arity_spec() == arity,
    {
        let mut i: usize = 0;
        while i < keys.len()
            invariant
                i <= keys@.len(),
                strictly_sorted(keys@.subrange(0, i as int)),
                all_of_arity(keys@.subrange(0, i as int), arity as nat),
            decreases keys@.len() - i,
        {
            if keys[i].arity() != arity {
                assert(!all_of_arity(keys@, arity as nat)) by {
                    assert(keys@[i as int].arity_spec() != arity);
                }
                return None;
            }
            if i > 0 && !keys[i - 1].less_than(&keys[i]) {
                assert(!strictly_sorted(keys@)) by {
                    assert(!keys@[i - 1].lt_spec(keys@[i as int]));
                }
                return None;
            }
            proof {
                let s = keys@.subrange(0, i + 1);
                assert forall|a: int, b: int| 0 <= a < b < s.len() implies (#[trigger] s[a]).lt_spec(
                    #[trigger] s[b],
                ) by {
                    if b == i && a < i - 1 {
                        assert(keys@.subrange(0, i as int)[a].lt_spec(keys@.subrange(0, i as int)[i - 1]));
                        lemma_key_lt_transitive(keys@[a], keys@[i - 1], keys@[i as int]);
                    } else if b < i {
                        assert(keys@.subrange(0, i as int)[a].lt_spec(keys@.subrange(0, i as int)[b]));
                    }
                }
                assert forall|a: int| 0 <= a < s.len() implies (#[trigger] s[a]).arity_spec()
                    == arity by {
                    if a < i {
                        assert(keys@.subrange(0, i as int)[a].arity_spec() == arity);
                    }
                }
            }
            i += 1;
        }
        assert(keys@.subrange(0, keys@.len() as int) =~= keys@);
        Some(MemoryStore { arity, keys })
    }

    /// The number of keys.
    pub fn count(&self) -> (r: u64)
        ensures
            r == self@.len(),
    {
        self.keys.len() as u64
    }

    /// All keys, in order.
    pub fn fetch_all(&self) -> (r: Vec<KeyTuple>)
        ensures
            r@ == self@,
    {
        self.keys.clone()
    }

    /// The 0-based page `index` of size `size`.
    pub fn fetch_page(&self, index: u64, size: u64) -> (r: Vec<KeyTuple>)
        requires
            index * size <= u64::MAX,
        ensures
            r@ == window(self@, index * size, size as nat),
    {
        let start = index * size;
        if start >= self.keys.len() as u64 {
            return Vec::new();
        }
        copy_window(&self.keys, start as usize, size)
    }

    /// The position of the first key strictly after `k`.
    fn position_after(&self, k: &KeyTuple) -> (r: usize)
        requires
            self.wf(),
        ensures
            r == start_after(self@, *k),
    {
        let mut j: usize = 0;
        while j < self.keys.len() && !k.less_than(&self.keys[j])
            invariant
                self.wf(),
                j <= self.keys@.len(),
                forall|i: int| 0 <= i < j ==> !k.lt_spec(#[trigger] self.keys@[i]),
            decreases self.keys@.len() - j,
        {
            j += 1;
        }
        proof {
            let keys = self.keys@;
            assert forall|i: int| j <= i < keys.len() implies k.lt_spec(#[trigger] keys[i]) by {
                if i > j {
                    assert(keys[j as int].lt_spec(keys[i]));
                    lemma_key_lt_transitive(*k, keys[j as int], keys[i]);
                }
            }
            assert(after_boundary(keys, *k, j as int));
            lemma_after_boundary_unique(keys, *k, j as int, start_after(keys, *k));
        }
        j
    }

    /// The number of keys strictly before `k`.
    fn position_before(&self, k: &KeyTuple) -> (r: usize)
        requires
            self.wf(),
        ensures
            r == end_before(self@, *k),
    {
        let mut j: usize = 0;
        while j < self.keys.len() && self.keys[j].less_than(k)
            invariant
                self.wf(),
                j <= self.keys@.len(),
                forall|i: int| 0 <= i < j ==> (#[trigger] self.keys@[i]).lt_spec(*k),
            decreases self.keys@.len() - j,
        {
            j += 1;
        }
        proof {
            let keys = self.keys@;
            assert forall|i: int| j <= i < keys.len() implies !(#[trigger] keys[i]).lt_spec(*k) by {
                if i > j && keys[i].lt_spec(*k) {
                    assert(keys[j as int].lt_spec(keys[i]));
                    lemma_key_lt_transitive(keys[j as int], keys[i], *k);
                }
            }
            assert(before_boundary(keys, *k, j as int));
            lemma_before_boundary_unique(keys, *k, j as int, end_before(keys, *k));
        }
        j
    }

    /// Up to `limit` keys from the start.
    pub fn first(&self, limit: u64) -> (r: Vec<KeyTuple>)
        ensures
            r@ == window(self@, 0, limit as nat),
    {
        copy_window(&self.keys, 0, limit)
    }

    /// Up to `limit` keys strictly after `k`.
    pub fn after(&self, k: &KeyTuple, limit: u64) -> (r: Vec<KeyTuple>)
        requires
            self.wf(),
        ensures
            r@ == seek_after(self@, *k, limit as nat),
    {
        let j = self.position_after(k);
        copy_window(&self.keys, j, limit)
    }

    /// Up to `limit` keys strictly before `k`, from the first.
    pub fn before(&self, k: &KeyTuple, limit: u64) -> (r: Vec<KeyTuple>)
        requires
            self.wf(),
        ensures
            r@ == seek_before(self@, *k, limit as nat),
    {
        let j = self.position_before(k);
        let n: u64 = if (limit as u128) < (j as u128) {
            limit
        } else {
            j as u64
        };
        copy_window(&self.keys, 0, n)
    }
}

/// Answers a request over the store: the page of keys with its metadata, or
/// the request's error.
pub fn resolve(store: &MemoryStore, pagination: &Option<PaginationSpec>) -> (r: Result<
    Connection<KeyTuple>,
    PaginationError,
>)
    requires
        store.wf(),
        pagination_valid(*pagination),
    ensures
        match r {
            Ok(c) => resolve_spec(store@, store.arity_spec(), *pagination) == Ok::<
                (Seq<KeyTuple>, crate::meta::ConnectionMeta),
                PaginationError,
            >((c.edges@, c.page_info)),
            Err(e) => resolve_spec(store@, store.arity_spec(), *pagination) == Err::<
                (Seq<KeyTuple>, crate::meta::ConnectionMeta),
                PaginationError,
            >(e),
        },
{
    match pagination {
        None => Ok(unpaged_connection(store.fetch_all())),
        Some(PaginationSpec::Pages { page, limit }) => {
            let index = page_fetch_index(*page);
            assert(index * *limit <= *limit * *page) by (nonlinear_arith)
                requires
                    index == *page - 1,
                    *page >= 1,
            ;
            let data = store.fetch_page(index, *limit);
            let total_count = store.count();
            Ok(page_connection(*page, *limit, data, total_count))
        },
        Some(PaginationSpec::Offset { skip, take }) => {
            let index = offset_page_index(*skip, *take);
            assert(index * *take <= *skip) by (nonlinear_arith)
                requires
                    index == *skip / *take,
                    *take > 0,
            ;
            let data = store.fetch_page(index, *take);
            let total_count = store.count();
            Ok(offset_connection(*skip, *take, data, total_count))
        },
        Some(PaginationSpec::Cursor { cursor, limit }) => {
            let start = match cursor_start(cursor, store.arity) {
                Ok(start) => start,
                Err(e) => {
                    return Err(e);
                },
            };
            let data = match start {
                None => store.first(*limit),
                Some(k) => store.after(&k, *limit),
            };
            let mut next_probe_len: usize = 0;
            let mut previous_probe_len: usize = 0;
            if data.len() > 0 {
                let last = data[data.len() - 1];
                let first = data[0];
                next_probe_len = store.after(&last, *limit).len();
                previous_probe_len = store.before(&first, *limit).len();
            }
            Ok(cursor_connection(data, next_probe_len, previous_probe_len))
        },
    }
}

} // verus!
