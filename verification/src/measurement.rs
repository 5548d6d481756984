//! The measurement result set: a mapping from qubit reference to exactly
//! one measurement result, the unit of exchange for batched outcomes.

use vstd::prelude::*;

use crate::assoc::assoc_map;
use crate::assoc::distinct_keys;
use crate::assoc::lemma_assoc_contains;
use crate::assoc::lemma_assoc_get;
use crate::assoc::lemma_assoc_len;
use crate::assoc::lemma_assoc_remove;
use crate::errors::ErrorKind;
use crate::protocol::MeasurementView;
use crate::protocol::QubitMeasurement;
use crate::qubit::QubitRef;

verus! {

/// A mapping keyed by qubit reference to exactly one measurement result,
/// with unique keys and no ordering guarantee over iteration.
///
/// Created empty; mutated by insert (overwrite on collision), remove, and
/// take (atomic remove-and-return); drained by `take_any`. The set owns
/// the results it holds until they are taken out.
pub struct QubitMeasurementResultSet {
    items: Vec<QubitMeasurement>,
}

impl View for QubitMeasurementResultSet {
    type V = Map<u64, MeasurementView>;

    /// The mapping this set denotes, keyed by the underlying value of the
    /// measured qubit's reference.
    closed spec fn view(&self) -> Map<u64, MeasurementView> {
        assoc_map(self.entries())
    }
}

impl QubitMeasurementResultSet {
    /// The stored entries as key/value pairs, in storage order.
    closed spec fn entries(self) -> Seq<(u64, MeasurementView)> {
        self.items@.map_values(|m: QubitMeasurement| (m@.qubit, m@))
    }

    /// Well-formedness: one entry per qubit.
    pub closed spec fn wf(self) -> bool {
        distinct_keys(self.entries())
    }

    /// An empty set.
    pub fn new() -> (r: QubitMeasurementResultSet)
        ensures
            r.wf(),
            r@ == Map::<u64, MeasurementView>::empty(),
            r@.len() == 0,
    {
        let r = QubitMeasurementResultSet { items: Vec::new() };
        proof {
            assert(r.entries() =~= Seq::<(u64, MeasurementView)>::empty());
        }
        r
    }

    /// Where the entry for this qubit is stored, if anywhere.
    fn index_of(&self, qubit: QubitRef) -> (r: Option<usize>)
        ensures
            match r {
                Some(i) => i < self.entries().len() && self.entries()[i as int].0 == qubit.raw(),
                None => forall|j: int|
                    0 <= j < self.entries().len() ==> (#[trigger] self.entries()[j]).0 != qubit.raw(),
            },
    {
        let mut j: usize = 0;
        while j < self.items.len()
            invariant
                j <= self.items.len(),
                forall|a: int| 0 <= a < j ==> (#[trigger] self.entries()[a]).0 != qubit.raw(),
            decreases self.items.len() - j,
        {
            if self.items[j].qubit == qubit {
                return Some(j);
            }
            proof {
                QubitRef::lemma_raw_eq(self.items@[j as int].qubit, qubit);
            }
            j = j + 1;
        }
        None
    }

    /// The number of measurements held.
    pub fn len(&self) -> (r: usize)
        requires
            self.wf(),
        ensures
            r == self@.len(),
    {
        proof {
            lemma_assoc_len(self.entries());
        }
        self.items.len()
    }

    /// Whether the set holds a measurement for this qubit.
    pub fn contains(&self, qubit: QubitRef) -> (r: bool)
        ensures
            r == self@.contains_key(qubit.raw()),
    {
        proof {
            lemma_assoc_contains(self.entries(), qubit.raw());
        }
        match self.index_of(qubit) {
            Some(_) => true,
            None => false,
        }
    }

    /// Adds a measurement, keyed by its measured qubit. If the set already
    /// held a measurement for that qubit, the previous result is discarded:
    /// overwrite semantics, last write wins. Never fails.
    pub fn insert(&mut self, measurement: QubitMeasurement)
        requires
            old(self).wf(),
        ensures
            final(self).wf(),
            final(self)@ == old(self)@.insert(measurement@.qubit, measurement@),
    {
        let ghost s0 = self.entries();
        let ghost k = measurement@.qubit;
        match self.index_of(measurement.qubit) {
            Some(i) => {
                let _ = self.items.remove(i);
                proof {
                    assert(self.entries() =~= s0.remove(i as int));
                    s0.remove_ensures(i as int);
                    assert(distinct_keys(self.entries()));
                    lemma_assoc_remove(s0, i as int);
                    lemma_assoc_contains(self.entries(), k);
                }
            },
            None => {},
        }
        let ghost s1 = self.entries();
        proof {
            lemma_assoc_contains(s1, k);
            assert(!assoc_map(s1).contains_key(k));
        }
        self.items.push(measurement);
        proof {
            assert(self.entries() =~= s1.push((k, measurement@)));
            assert(self.entries().drop_last() =~= s1);
            assert(forall|j: int| 0 <= j < s1.len() ==> (#[trigger] s1[j]).0 != k);
            assert(distinct_keys(self.entries()));
            assert(final(self)@ =~= old(self)@.insert(k, measurement@));
        }
    }

    /// Returns a copy of the stored result for this qubit, without
    /// removing it; fails with "not found" exactly when the qubit has no
    /// entry.
    pub fn get(&self, qubit: QubitRef) -> (r: Result<QubitMeasurement, ErrorKind>)
        requires
            self.wf(),
        ensures
            match r {
                Ok(m) => self@.contains_key(qubit.raw()) && m@ == self@[qubit.raw()],
                Err(e) => e == ErrorKind::NotFound && !self@.contains_key(qubit.raw()),
            },
    {
        proof {
            lemma_assoc_contains(self.entries(), qubit.raw());
        }
        match self.index_of(qubit) {
            Some(i) => {
                proof {
                    lemma_assoc_get(self.entries(), i as int);
                }
                Ok(self.items[i].clone())
            },
            None => Err(ErrorKind::NotFound),
        }
    }

    /// Removes and returns the stored result for this qubit, atomically;
    /// fails with "not found" exactly when the qubit has no entry, leaving
    /// the set unchanged.
    pub fn take(&mut self, qubit: QubitRef) -> (r: Result<QubitMeasurement, ErrorKind>)
        requires
            old(self).wf(),
        ensures
            final(self).wf(),
            match r {
                Ok(m) => {
                    &&& old(self)@.contains_key(qubit.raw())
                    &&& m@ == old(self)@[qubit.raw()]
                    &&& final(self)@ == old(self)@.remove(qubit.raw())
                    &&& final(self)@.len() == old(self)@.len() - 1
                },
                Err(e) => {
                    &&& e == ErrorKind::NotFound
                    &&& !old(self)@.contains_key(qubit.raw())
                    &&& *final(self) == *old(self)
                },
            },
    {
        let ghost s0 = self.entries();
        proof {
            lemma_assoc_contains(s0, qubit.raw());
            lemma_assoc_len(s0);
        }
        match self.index_of(qubit) {
            Some(i) => {
                proof {
                    lemma_assoc_get(s0, i as int);
                    lemma_assoc_remove(s0, i as int);
                    s0.remove_ensures(i as int);
                }
                let m = self.items.remove(i);
                proof {
                    assert(self.entries() =~= s0.remove(i as int));
                    assert(distinct_keys(self.entries()));
                    lemma_assoc_len(self.entries());
                }
                Ok(m)
            },
            None => Err(ErrorKind::NotFound),
        }
    }

    /// Removes the stored result for this qubit, discarding the value;
    /// fails with "not found" exactly when the qubit has no entry.
    pub fn remove(&mut self, qubit: QubitRef) -> (r: Result<(), ErrorKind>)
        requires
            old(self).wf(),
        ensures
            final(self).wf(),
            match r {
                Ok(()) => {
                    &&& old(self)@.contains_key(qubit.raw())
                    &&& final(self)@ == old(self)@.remove(qubit.raw())
                    &&& final(self)@.len() == old(self)@.len() - 1
                },
                Err(e) => {
                    &&& e == ErrorKind::NotFound
                    &&& !old(self)@.contains_key(qubit.raw())
                    &&& *final(self) == *old(self)
                },
            },
    {
        match self.take(qubit) {
            Ok(_) => Ok(()),
            Err(e) => Err(e),
        }
    }

    /// Removes and returns one arbitrary (implementation-defined) result;
    /// fails with "empty" exactly when the set holds nothing. Intended for
    /// draining iteration: repeated calls empty the set with no element
    /// returned twice.
    pub fn take_any(&mut self) -> (r: Result<QubitMeasurement, ErrorKind>)
        requires
            old(self).wf(),
        ensures
            final(self).wf(),
            match r {
                Ok(m) => {
                    &&& old(self)@.contains_key(m@.qubit)
                    &&& m@ == old(self)@[m@.qubit]
                    &&& final(self)@ == old(self)@.remove(m@.qubit)
                    &&& final(self)@.len() == old(self)@.len() - 1
                },
                Err(e) => {
                    &&& e == ErrorKind::Empty
                    &&& old(self)@.len() == 0
                    &&& *final(self) == *old(self)
                },
            },
    {
        let ghost s0 = self.entries();
        proof {
            lemma_assoc_len(s0);
        }
        if self.items.len() == 0 {
            Err(ErrorKind::Empty)
        } else {
            proof {
                lemma_assoc_get(s0, 0);
                lemma_assoc_remove(s0, 0);
                s0.remove_ensures(0);
            }
            let m = self.items.remove(0);
            proof {
                assert(self.entries() =~= s0.remove(0));
                assert(distinct_keys(self.entries()));
                lemma_assoc_len(self.entries());
            }
            Ok(m)
        }
    }
}

/// Law: after `insert(q, v)`, `get(q)` returns a value equal to `v`, and
/// `take(q)` returns `v` and leaves the set without an entry for `q`.
pub proof fn lemma_insert_then_lookup(s: Map<u64, MeasurementView>, q: u64, v: MeasurementView)
    ensures
        s.insert(q, v).contains_key(q),
        s.insert(q, v)[q] == v,
        !s.insert(q, v).remove(q).contains_key(q),
{
}

/// Law: insert is idempotent under overwrite; after two inserts for the
/// same qubit the stored value is the last one written.
pub proof fn lemma_insert_overwrite(
    s: Map<u64, MeasurementView>,
    q: u64,
    v1: MeasurementView,
    v2: MeasurementView,
)
    ensures
        s.insert(q, v1).insert(q, v2)[q] == v2,
        s.insert(q, v1).insert(q, v2).contains_key(q),
{
}

/// Law: after `remove(q)`, a `get(q)` or `take(q)` fails with "not
/// found": the key is gone from the denoted map.
pub proof fn lemma_remove_then_lookup(s: Map<u64, MeasurementView>, q: u64)
    ensures
        !s.remove(q).contains_key(q),
{
}

/// Law: each successful `take_any` removes exactly one element — the key
/// it returned — and never returns a key again, so repeated calls until
/// the "empty" failure remove exactly `len` elements, each key once.
pub proof fn lemma_take_any_drains(s: Map<u64, MeasurementView>, q: u64)
    requires
        s.dom().finite(),
        s.contains_key(q),
    ensures
        s.remove(q).len() == s.len() - 1,
        !s.remove(q).contains_key(q),
        forall|x: u64| x != q ==> s.remove(q).contains_key(x) == s.contains_key(x),
{
}

} // verus!
