//! Qubit references and the generator that issues them.

use vstd::prelude::*;

verus! {

/// An opaque identifier for a qubit, backed by an unsigned integer.
///
/// The value 0 is the "invalid/none" sentinel and is never held by a
/// `QubitRef`. Equality, ordering and hashing are by underlying value, and
/// are stable for the lifetime of the value, so a reference can key a map.
#[derive(Clone, Copy, Debug, PartialEq, Eq, Structural, Hash, PartialOrd, Ord)]
pub struct QubitRef {
    index: u64,
}

impl QubitRef {
    /// The underlying integer value of this reference.
    pub closed spec fn raw(self) -> u64 {
        self.index
    }

    /// A reference is valid when it is not the 0 sentinel.
    pub open spec fn is_valid(self) -> bool {
        self.raw() >= 1
    }

    /// Two references are the same value exactly when their underlying
    /// integers coincide.
    pub proof fn lemma_raw_eq(a: QubitRef, b: QubitRef)
        ensures
            (a == b) <==> (a.raw() == b.raw()),
    {
    }

    /// Reconstructs a reference from its foreign (integer) representation;
    /// 0 is the invalid sentinel and is rejected.
    pub fn from_foreign(v: u64) -> (r: Option<QubitRef>)
        ensures
            match r {
                Some(q) => v >= 1 && q.raw() == v && q.is_valid(),
                None => v == 0,
            },
    {
        if v == 0 {
            None
        } else {
            Some(QubitRef { index: v })
        }
    }

    /// The foreign (integer) representation of this reference.
    pub fn to_foreign(self) -> (r: u64)
        ensures
            r == self.raw(),
    {
        self.index
    }
}

/// Issues fresh qubit references for one plugin session.
///
/// The generator is a monotonic counter: every reference it has ever issued
/// is unique for the generator's lifetime, and issuance order is strictly
/// increasing. There is no free or recycle operation at this layer.
pub struct QubitRefGenerator {
    counter: u64,
    issued: Ghost<Seq<u64>>,
}

impl QubitRefGenerator {
    /// The underlying value the next allocated reference will carry.
    pub closed spec fn next_index(self) -> u64 {
        self.counter
    }

    /// The underlying values of every reference issued so far, in
    /// issuance order.
    pub closed spec fn issued_refs(self) -> Seq<u64> {
        self.issued@
    }

    /// Well-formedness: references are issued in strictly increasing order,
    /// all issued references are valid (nonzero) and below the counter.
    pub open spec fn wf(self) -> bool {
        &&& self.next_index() >= 1
        &&& forall|i: int, j: int|
            0 <= i < j < self.issued_refs().len()
                ==> self.issued_refs()[i] < self.issued_refs()[j]
        &&& forall|i: int|
            0 <= i < self.issued_refs().len()
                ==> 1 <= #[trigger] self.issued_refs()[i] < self.next_index()
    }

    /// A fresh generator that has issued nothing.
    pub fn new() -> (r: QubitRefGenerator)
        ensures
            r.wf(),
            r.issued_refs().len() == 0,
            r.next_index() == 1,
    {
        QubitRefGenerator { counter: 1, issued: Ghost(Seq::empty()) }
    }

    /// Issues a fresh reference, strictly greater than every reference this
    /// generator issued before; it is never the invalid sentinel.
    pub fn allocate(&mut self) -> (r: QubitRef)
        requires
            old(self).wf(),
            old(self).next_index() < u64::MAX,
        ensures
            final(self).wf(),
            r.is_valid(),
            r.raw() == old(self).next_index(),
            final(self).next_index() == old(self).next_index() + 1,
            final(self).issued_refs() == old(self).issued_refs().push(r.raw()),
            forall|i: int|
                0 <= i < old(self).issued_refs().len()
                    ==> #[trigger] old(self).issued_refs()[i] < r.raw(),
    {
        let r = QubitRef { index: self.counter };
        self.counter = self.counter + 1;
        self.issued = Ghost(self.issued@.push(r.index));
        r
    }
}

/// Law: for all sequences of `allocate` calls on one generator, the
/// returned references are pairwise distinct and observed in strictly
/// increasing issuance order.
pub proof fn lemma_issued_distinct(g: QubitRefGenerator)
    requires
        g.wf(),
    ensures
        forall|i: int, j: int|
            0 <= i < j < g.issued_refs().len()
                ==> g.issued_refs()[i] < g.issued_refs()[j],
        forall|i: int, j: int|
            0 <= i < j < g.issued_refs().len()
                ==> g.issued_refs()[i] != g.issued_refs()[j],
{
}

} // verus!
