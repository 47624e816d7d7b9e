//! Mathematical models of executable values.

use vstd::prelude::*;

verus! {

/// A type whose values stand for mathematical values. Two executable values
/// with the same model are the same value as far as any contract can tell.
pub trait Model {
    type M;

    spec fn model(&self) -> Self::M;
}

/// The models of the elements, in order.
pub open spec fn models<T: Model>(s: Seq<T>) -> Seq<T::M> {
    Seq::new(s.len(), |i: int| s[i].model())
}

/// A model that can be told apart at run time.
pub trait Key: Model + Sized {
    /// Do the two values stand for the same mathematical value?
    fn same(&self, other: &Self) -> (b: bool)
        ensures
            b == (self.model() == other.model()),
    ;
}

/// A value that a table can hold.
pub trait Stored: Model {
    /// What must hold of the value for it to be put away.
    spec fn sound(&self) -> bool;
}

impl Model for bool {
    type M = bool;

    open spec fn model(&self) -> bool {
        *self
    }
}

impl Model for u32 {
    type M = u32;

    open spec fn model(&self) -> u32 {
        *self
    }
}

impl Model for u64 {
    type M = u64;

    open spec fn model(&self) -> u64 {
        *self
    }
}

impl Model for i64 {
    type M = i64;

    open spec fn model(&self) -> i64 {
        *self
    }
}

/// A fixed run of bytes is its own model.
impl<const N: usize> Model for [u8; N] {
    type M = [u8; N];

    open spec fn model(&self) -> [u8; N] {
        *self
    }
}

/// A byte string is modelled by the sequence of its bytes.
impl Model for Vec<u8> {
    type M = Seq<u8>;

    open spec fn model(&self) -> Seq<u8> {
        self@
    }
}

impl<A: Model, B: Model> Model for (A, B) {
    type M = (A::M, B::M);

    open spec fn model(&self) -> (A::M, B::M) {
        (self.0.model(), self.1.model())
    }
}

impl<A: Model, B: Model, C: Model> Model for (A, B, C) {
    type M = (A::M, B::M, C::M);

    open spec fn model(&self) -> (A::M, B::M, C::M) {
        (self.0.model(), self.1.model(), self.2.model())
    }
}

impl Stored for u64 {
    open spec fn sound(&self) -> bool {
        true
    }
}

impl<const N: usize> Stored for [u8; N] {
    open spec fn sound(&self) -> bool {
        true
    }
}

impl Stored for Vec<u8> {
    open spec fn sound(&self) -> bool {
        true
    }
}

impl<A: Stored, B: Stored> Stored for (A, B) {
    open spec fn sound(&self) -> bool {
        self.0.sound() && self.1.sound()
    }
}

impl Key for u64 {
    fn same(&self, other: &Self) -> (b: bool) {
        *self == *other
    }
}

/// Are two fixed runs of bytes equal?
pub fn same_bytes<const N: usize>(a: &[u8; N], b: &[u8; N]) -> (r: bool)
    ensures
        r == (*a == *b),
{
    let mut i: usize = 0;
    while i < N
        invariant
            i <= N,
            forall|j: int| 0 <= j < i ==> a@[j] == b@[j],
        decreases N - i,
    {
        if a[i] != b[i] {
            assert(a@[i as int] != b@[i as int]);
            return false;
        }
        i += 1;
    }
    assert(*a =~= *b);
    true
}

impl<const N: usize> Key for [u8; N] {
    fn same(&self, other: &Self) -> (b: bool) {
        same_bytes(self, other)
    }
}

impl Key for Vec<u8> {
    fn same(&self, other: &Self) -> (b: bool) {
        if self.len() != other.len() {
            return false;
        }
        let mut i: usize = 0;
        while i < self.len()
            invariant
                i <= self@.len(),
                self@.len() == other@.len(),
                forall|j: int| 0 <= j < i ==> self@[j] == other@[j],
            decreases self@.len() - i,
        {
            if self[i] != other[i] {
                return false;
            }
            i += 1;
        }
        assert(self@ =~= other@);
        true
    }
}

impl<A: Key, B: Key> Key for (A, B) {
    fn same(&self, other: &Self) -> (b: bool) {
        self.0.same(&other.0) && self.1.same(&other.1)
    }
}

impl<A: Key, B: Key, C: Key> Key for (A, B, C) {
    fn same(&self, other: &Self) -> (b: bool) {
        self.0.same(&other.0) && self.1.same(&other.1) && self.2.same(&other.2)
    }
}

} // verus!
