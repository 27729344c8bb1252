use vstd::prelude::*;

use crate::error::PaginationError;

verus! {

/// The primary key of a record: one, two or three integer columns.
#[derive(Clone, Copy, Debug, PartialEq, Eq, Structural)]
pub enum KeyTuple {
    One(u64),
    Two(u64, u64),
    Three(u64, u64, u64),
}

impl KeyTuple {
    /// The key's columns, in order.
    pub open spec fn values(self) -> Seq<u64> {
        match self {
            KeyTuple::One(a) => seq![a],
            KeyTuple::Two(a, b) => seq![a, b],
            KeyTuple::Three(a, b, c) => seq![a, b, c],
        }
    }

    pub open spec fn arity_spec(self) -> nat {
        self.values().len()
    }

    /// Lexicographic order on keys of the same arity; keys of different arity are unordered.
    pub open spec fn lt_spec(self, other: KeyTuple) -> bool {
        match (self, other) {
            (KeyTuple::One(a), KeyTuple::One(x)) => a < x,
            (KeyTuple::Two(a, b), KeyTuple::Two(x, y)) => a < x || (a == x && b < y),
            (KeyTuple::Three(a, b, c), KeyTuple::Three(x, y, z)) => a < x || (a == x && (b < y
                || (b == y && c < z))),
            _ => false,
        }
    }

    /// The number of columns of the key.
    pub fn arity(&self) -> (r: usize)
        ensures
            r == self.arity_spec(),
            1 <= r <= 3,
    {
        match self {
            KeyTuple::One(_) => 1,
            KeyTuple::Two(_, _) => 2,
            KeyTuple::Three(_, _, _) => 3,
        }
    }

    /// Builds a key from its column values; fails unless there are one to three of them.
    pub fn from_values(v: &Vec<u64>) -> (r: Result<KeyTuple, PaginationError>)
        ensures
            1 <= v@.len() <= 3 ==> (r matches Ok(k) && k.values() == v@),
            !(1 <= v@.len() <= 3) ==> r == Err::<KeyTuple, PaginationError>(
                PaginationError::UnsupportedKeyArity,
            ),
    {
        if v.len() == 1 {
            let r = KeyTuple::One(v[0]);
            assert(r.values() =~= v@);
            Ok(r)
        } else if v.len() == 2 {
            let r = KeyTuple::Two(v[0], v[1]);
            assert(r.values() =~= v@);
            Ok(r)
        } else if v.len() == 3 {
            let r = KeyTuple::Three(v[0], v[1], v[2]);
            assert(r.values() =~= v@);
            Ok(r)
        } else {
            Err(PaginationError::UnsupportedKeyArity)
        }
    }

    /// Whether `self` comes strictly before `other` in key order.
    pub fn less_than(&self, other: &KeyTuple) -> (r: bool)
        ensures
            r == self.lt_spec(*other),
    {
        match (self, other) {
            (KeyTuple::One(a), KeyTuple::One(x)) => *a < *x,
            (KeyTuple::Two(a, b), KeyTuple::Two(x, y)) => *a < *x || (*a == *x && *b < *y),
            (KeyTuple::Three(a, b, c), KeyTuple::Three(x, y, z)) => *a < *x || (*a == *x && (*b
                < *y || (*b == *y && *c < *z))),
            _ => false,
        }
    }
}

/// Key order is irreflexive.
pub proof fn lemma_key_lt_irreflexive(a: KeyTuple)
    ensures
        !a.lt_spec(a),
{
}

/// Key order is transitive.
pub proof fn lemma_key_lt_transitive(a: KeyTuple, b: KeyTuple, c: KeyTuple)
    requires
        a.lt_spec(b),
        b.lt_spec(c),
    ensures
        a.lt_spec(c),
{
}

} // verus!
