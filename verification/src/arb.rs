//! Opaque attachment payloads carried through the protocols uninterpreted.

use vstd::prelude::*;

verus! {

/// The abstract value of an [`ArbData`]: the serialized structured part
/// and the unstructured binary arguments.
#[verifier::ext_equal]
pub struct ArbDataView {
    pub json: Seq<u8>,
    pub args: Seq<Seq<u8>>,
}

/// An arbitrary data payload: a serialized structured part plus a list of
/// unstructured binary arguments. The core carries it through unread.
#[derive(Debug, PartialEq)]
pub struct ArbData {
    /// Serialized structured data (e.g. a JSON document), kept as bytes.
    pub json: Vec<u8>,
    /// Unstructured binary arguments.
    pub args: Vec<Vec<u8>>,
}

impl View for ArbData {
    type V = ArbDataView;

    open spec fn view(&self) -> ArbDataView {
        ArbDataView { json: self.json@, args: self.args.deep_view() }
    }
}

impl Default for ArbData {
    /// An empty payload: no structured data, no arguments.
    fn default() -> (r: ArbData)
        ensures
            r@ == (ArbDataView { json: Seq::<u8>::empty(), args: Seq::<Seq<u8>>::empty() }),
    {
        ArbData { json: Vec::new(), args: Vec::new() }
    }
}

/// Copies a byte vector; the copy carries the same bytes.
fn clone_bytes(v: &Vec<u8>) -> (r: Vec<u8>)
    ensures
        r@ == v@,
{
    let mut r: Vec<u8> = Vec::new();
    let mut i: usize = 0;
    while i < v.len()
        invariant
            i <= v.len(),
            r@ =~= v@.subrange(0, i as int),
        decreases v.len() - i,
    {
        r.push(v[i]);
        i = i + 1;
    }
    proof {
        assert(r@ =~= v@);
    }
    r
}

impl Clone for ArbData {
    /// A clone carries the same abstract value.
    fn clone(&self) -> (r: ArbData)
        ensures
            r@ == self@,
    {
        let mut args: Vec<Vec<u8>> = Vec::new();
        let mut i: usize = 0;
        while i < self.args.len()
            invariant
                i <= self.args.len(),
                args.deep_view() =~~= self.args.deep_view().subrange(0, i as int),
            decreases self.args.len() - i,
        {
            let a = clone_bytes(&self.args[i]);
            proof {
                assert(a.deep_view() =~~= self.args@[i as int].deep_view());
            }
            args.push(a);
            i = i + 1;
        }
        proof {
            assert(args.deep_view() =~~= self.args.deep_view());
        }
        ArbData { json: clone_bytes(&self.json), args }
    }
}

/// An arbitrary command: two identifiers naming the interface and the
/// operation, plus an opaque data payload. The core carries it through
/// unread.
#[derive(Debug, PartialEq)]
pub struct ArbCmd {
    /// Names the interface the command belongs to.
    pub interface_identifier: String,
    /// Names the operation within that interface.
    pub operation_identifier: String,
    /// The opaque payload handed to the operation.
    pub data: ArbData,
}

} // verus!
