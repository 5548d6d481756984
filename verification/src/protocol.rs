//! The messages exchanged over the gatestream link and the plain value
//! types they carry.

use vstd::prelude::*;

use crate::arb::ArbCmd;
use crate::arb::ArbData;
use crate::arb::ArbDataView;
use crate::gate::Gate;
use crate::qubit::QubitRef;

verus! {

/// A number of simulation cycles, or the current simulation time.
/// Monotonically non-decreasing within a session.
#[derive(Clone, Copy, Debug, PartialEq, Eq, Structural, Hash)]
pub struct Cycles(u64);

impl Cycles {
    /// The underlying cycle count.
    pub closed spec fn value(self) -> u64 {
        self.0
    }

    /// Wraps a cycle count.
    pub fn new(v: u64) -> (r: Cycles)
        ensures
            r.value() == v,
    {
        Cycles(v)
    }

    /// The underlying cycle count, for callers.
    pub fn get(self) -> (r: u64)
        ensures
            r == self.value(),
    {
        self.0
    }

    /// Moves the simulation time forward; time never decreases.
    pub fn advance(self, delta: u64) -> (r: Cycles)
        requires
            self.value() + delta <= u64::MAX,
        ensures
            r.value() == self.value() + delta,
            r.value() >= self.value(),
    {
        Cycles(self.0 + delta)
    }
}

/// Identifies one pipelined gatestream message within one direction of one
/// link. Strictly increases by exactly 1 per pipelined message, starting at
/// an agreed initial value; used solely for request/acknowledgement
/// correlation.
#[derive(Clone, Copy, Debug, PartialEq, Eq, Structural, Hash)]
pub struct SequenceNumber(u64);

impl SequenceNumber {
    /// The underlying counter value.
    pub closed spec fn value(self) -> u64 {
        self.0
    }

    /// Wraps a counter value.
    pub fn new(v: u64) -> (r: SequenceNumber)
        ensures
            r.value() == v,
    {
        SequenceNumber(v)
    }

    /// The underlying counter value, for callers.
    pub fn get(self) -> (r: u64)
        ensures
            r == self.value(),
    {
        self.0
    }

    /// The sequence number of the next pipelined message.
    pub fn succ(self) -> (r: SequenceNumber)
        requires
            self.value() < u64::MAX,
        ensures
            r.value() == self.value() + 1,
    {
        SequenceNumber(self.0 + 1)
    }
}

/// The abstract value of a [`QubitMeasurement`].
#[verifier::ext_equal]
pub struct MeasurementView {
    pub qubit: u64,
    pub value: bool,
    pub data: ArbDataView,
}

/// One qubit's measurement outcome: the measured qubit, the boolean value
/// (true = 1, false = 0), and opaque auxiliary data such as the probability
/// of this outcome. Immutable once constructed.
#[derive(Debug, PartialEq)]
pub struct QubitMeasurement {
    /// The measured qubit.
    pub qubit: QubitRef,
    /// The measured value. true = 1, false = 0.
    pub value: bool,
    /// Implementation-specific additional data, such as the probability for
    /// this particular measurement outcome.
    pub data: ArbData,
}

impl View for QubitMeasurement {
    type V = MeasurementView;

    open spec fn view(&self) -> MeasurementView {
        MeasurementView { qubit: self.qubit.raw(), value: self.value, data: self.data@ }
    }
}

impl Clone for QubitMeasurement {
    /// A clone carries the same abstract value.
    fn clone(&self) -> (r: QubitMeasurement)
        ensures
            r@ == self@,
    {
        QubitMeasurement { qubit: self.qubit, value: self.value, data: self.data.clone() }
    }
}

/// A pipelined downstream request; every variant is assigned a sequence
/// number when it is sent.
pub enum PipelinedGatestreamDown {
    /// Execute a gate (and answer its measurement queries, if any).
    Gate(Gate),
    /// Advance the simulation time by the given number of cycles.
    Advance(Cycles),
    /// An arbitrary command for the downstream plugin.
    ArbCmd(ArbCmd),
}

/// A downstream gatestream message, from an upstream plugin to its
/// downstream neighbor.
pub enum GatestreamDown {
    /// A pipelined request, correlated to its responses by the carried
    /// sequence number.
    Pipelined(SequenceNumber, PipelinedGatestreamDown),
    /// Non-pipelined control: tear the link down. Carries no sequence
    /// number and takes effect immediately upon receipt.
    Abort,
}

/// An upstream gatestream message, correlated back to downstream requests
/// by sequence number.
pub enum GatestreamUp {
    /// Cumulative acknowledgement: every request with a sequence number
    /// less than or equal to the carried one has completed.
    CompletedUpTo(SequenceNumber),
    /// The request with the carried sequence number failed.
    Failure(SequenceNumber),
    /// A measurement result, correlated 1:1 to the request that produced
    /// it.
    Measured(SequenceNumber, QubitMeasurement),
}

} // verus!
