//! A single quantum operation request, carried as plain data.

use vstd::prelude::*;

use crate::arb::ArbData;
use crate::errors::ErrorKind;
use crate::qubit::QubitRef;

verus! {

/// No qubit reference occurs twice in the sequence.
pub open spec fn qubits_distinct(s: Seq<QubitRef>) -> bool {
    forall|i: int, j: int| 0 <= i < j < s.len() ==> s[i] != s[j]
}

/// A single quantum operation request: the operation name, the ordered
/// target and control qubits, zero or more measured qubits, and an opaque
/// parameter payload.
///
/// Invariant: no qubit is simultaneously a target and a control (nor
/// duplicated within either list) of one gate; re-use as a measured qubit
/// is permitted per protocol rules defined by the caller. A gate is
/// immutable once placed on the wire, so construction is the only point of
/// validation.
#[derive(Debug, PartialEq)]
pub struct Gate {
    name: String,
    targets: Vec<QubitRef>,
    controls: Vec<QubitRef>,
    measures: Vec<QubitRef>,
    data: ArbData,
}

impl Gate {
    /// The operation name.
    pub closed spec fn spec_name(self) -> Seq<char> {
        self.name@
    }

    /// The ordered target qubits.
    pub closed spec fn spec_targets(self) -> Seq<QubitRef> {
        self.targets@
    }

    /// The ordered control qubits.
    pub closed spec fn spec_controls(self) -> Seq<QubitRef> {
        self.controls@
    }

    /// The measured qubits.
    pub closed spec fn spec_measures(self) -> Seq<QubitRef> {
        self.measures@
    }

    /// The opaque parameter payload.
    pub closed spec fn spec_data(self) -> crate::arb::ArbDataView {
        self.data@
    }

    /// The construction-time invariant: targets and controls, taken
    /// together, contain no duplicate qubit reference.
    pub open spec fn wf(self) -> bool {
        qubits_distinct(self.spec_targets() + self.spec_controls())
    }

    /// Builds a gate, validating that the union of targets and controls
    /// holds no duplicate qubit; a conflicting list is rejected locally
    /// and never sent on the wire.
    pub fn new(
        name: String,
        targets: Vec<QubitRef>,
        controls: Vec<QubitRef>,
        measures: Vec<QubitRef>,
        data: ArbData,
    ) -> (r: Result<Gate, ErrorKind>)
        ensures
            match r {
                Ok(g) => {
                    &&& qubits_distinct(targets@ + controls@)
                    &&& g.wf()
                    &&& g.spec_name() == name@
                    &&& g.spec_targets() == targets@
                    &&& g.spec_controls() == controls@
                    &&& g.spec_measures() == measures@
                    &&& g.spec_data() == data@
                },
                Err(e) => e == ErrorKind::Validation && !qubits_distinct(targets@ + controls@),
            },
    {
        let mut all: Vec<QubitRef> = Vec::new();
        let mut i: usize = 0;
        while i < targets.len()
            invariant
                i <= targets.len(),
                all@ =~= targets@.subrange(0, i as int),
            decreases targets.len() - i,
        {
            all.push(targets[i]);
            i = i + 1;
        }
        let mut j: usize = 0;
        while j < controls.len()
            invariant
                j <= controls.len(),
                all@ =~= targets@ + controls@.subrange(0, j as int),
            decreases controls.len() - j,
        {
            all.push(controls[j]);
            j = j + 1;
        }
        proof {
            assert(all@ =~= targets@ + controls@);
        }
        if has_duplicate(&all) {
            Err(ErrorKind::Validation)
        } else {
            Ok(Gate { name, targets, controls, measures, data })
        }
    }

    /// The operation name.
    pub fn name(&self) -> (r: &String)
        ensures
            r@ == self.spec_name(),
    {
        &self.name
    }

    /// The ordered target qubits.
    pub fn targets(&self) -> (r: &Vec<QubitRef>)
        ensures
            r@ == self.spec_targets(),
    {
        &self.targets
    }

    /// The ordered control qubits.
    pub fn controls(&self) -> (r: &Vec<QubitRef>)
        ensures
            r@ == self.spec_controls(),
    {
        &self.controls
    }

    /// The measured qubits.
    pub fn measures(&self) -> (r: &Vec<QubitRef>)
        ensures
            r@ == self.spec_measures(),
    {
        &self.measures
    }

    /// The opaque parameter payload.
    pub fn data(&self) -> (r: &ArbData)
        ensures
            r@ == self.spec_data(),
    {
        &self.data
    }
}

/// Whether some qubit reference occurs twice in the list.
fn has_duplicate(qs: &Vec<QubitRef>) -> (r: bool)
    ensures
        r == !qubits_distinct(qs@),
{
    let mut i: usize = 0;
    while i < qs.len()
        invariant
            i <= qs.len(),
            forall|a: int, b: int| 0 <= a < b < i ==> qs@[a] != qs@[b],
        decreases qs.len() - i,
    {
        let mut j: usize = 0;
        while j < i
            invariant
                j <= i < qs.len(),
                forall|a: int, b: int| 0 <= a < b < i ==> qs@[a] != qs@[b],
                forall|b: int| 0 <= b < j ==> qs@[b] != qs@[i as int],
            decreases i - j,
        {
            if qs[j] == qs[i] {
                return true;
            }
            j = j + 1;
        }
        i = i + 1;
    }
    false
}

} // verus!
