//! The pipelined gatestream protocol: sequence-number assignment and
//! in-flight tracking on the sending side, and order-checked reception,
//! deferred processing and ordered response emission on the receiving
//! side.

use vstd::prelude::*;

use crate::errors::ErrorKind;
use crate::protocol::GatestreamDown;
use crate::protocol::GatestreamUp;
use crate::protocol::MeasurementView;
use crate::protocol::PipelinedGatestreamDown;
use crate::protocol::QubitMeasurement;
use crate::protocol::SequenceNumber;

verus! {

/// The sequence is strictly increasing.
pub open spec fn strictly_increasing(s: Seq<u64>) -> bool {
    forall|i: int, j: int| #![trigger s[i], s[j]] 0 <= i < j < s.len() ==> s[i] < s[j]
}

/// The sending side of one direction of a gatestream link.
///
/// Owns the direction's sequence-number counter and the set of in-flight
/// (sent, not yet acknowledged) sequence numbers. Acknowledgements are
/// cumulative; measurement results and per-request failures resolve their
/// own request 1:1.
pub struct GatestreamSender {
    next: u64,
    ack_floor: u64,
    in_flight: Vec<u64>,
}

impl GatestreamSender {
    /// The sequence number the next pipelined message will carry.
    pub closed spec fn next_seq(self) -> u64 {
        self.next
    }

    /// Every cumulative acknowledgement received so far lies below this.
    pub closed spec fn acked_below(self) -> u64 {
        self.ack_floor
    }

    /// The in-flight sequence numbers, oldest first.
    pub closed spec fn in_flight_seq(self) -> Seq<u64> {
        self.in_flight@
    }

    /// Whether a request with this sequence number is in flight.
    pub open spec fn in_flight_has(self, s: u64) -> bool {
        self.in_flight_seq().contains(s)
    }

    /// Well-formedness: in-flight numbers are distinct, kept in send
    /// order, and lie between the acknowledgement floor and the counter.
    pub open spec fn wf(self) -> bool {
        &&& self.acked_below() <= self.next_seq()
        &&& strictly_increasing(self.in_flight_seq())
        &&& forall|i: int|
            0 <= i < self.in_flight_seq().len()
                ==> self.acked_below() <= #[trigger] self.in_flight_seq()[i] < self.next_seq()
    }

    /// A fresh sender whose counter starts at the agreed initial value.
    pub fn new(initial: SequenceNumber) -> (r: GatestreamSender)
        ensures
            r.wf(),
            r.next_seq() == initial.value(),
            r.acked_below() == initial.value(),
            r.in_flight_seq().len() == 0,
    {
        GatestreamSender {
            next: initial.get(),
            ack_floor: initial.get(),
            in_flight: Vec::new(),
        }
    }

    /// Assigns the next sequence number to a pipelined request and records
    /// it as in flight; the enveloped message is returned for the
    /// transport to carry. Sending never waits for acknowledgements.
    pub fn send(&mut self, payload: PipelinedGatestreamDown) -> (msg: GatestreamDown)
        requires
            old(self).wf(),
            old(self).next_seq() < u64::MAX,
        ensures
            final(self).wf(),
            final(self).next_seq() == old(self).next_seq() + 1,
            final(self).acked_below() == old(self).acked_below(),
            final(self).in_flight_seq() == old(self).in_flight_seq().push(old(self).next_seq()),
            msg matches GatestreamDown::Pipelined(s, p) && s.value() == old(self).next_seq()
                && p == payload,
    {
        let s = SequenceNumber::new(self.next);
        self.in_flight.push(self.next);
        self.next = self.next + 1;
        GatestreamDown::Pipelined(s, payload)
    }

    /// Handles a cumulative acknowledgement: resolves and evicts every
    /// in-flight request with a sequence number at or below the
    /// acknowledged one. An acknowledgement below the floor (duplicate or
    /// decreasing) or at or above the counter (never sent) is a fatal
    /// protocol violation and leaves the sender unchanged.
    pub fn receive_completed_up_to(&mut self, s: SequenceNumber) -> (r: Result<(), ErrorKind>)
        requires
            old(self).wf(),
        ensures
            final(self).wf(),
            match r {
                Ok(()) => {
                    &&& old(self).acked_below() <= s.value() < old(self).next_seq()
                    &&& final(self).acked_below() == s.value() + 1
                    &&& final(self).next_seq() == old(self).next_seq()
                    &&& forall|x: u64|
                        final(self).in_flight_has(x) <==> old(self).in_flight_has(x) && x > s.value()
                },
                Err(e) => {
                    &&& e == ErrorKind::ProtocolViolation
                    &&& !(old(self).acked_below() <= s.value() < old(self).next_seq())
                    &&& final(self).next_seq() == old(self).next_seq()
                    &&& final(self).acked_below() == old(self).acked_below()
                    &&& final(self).in_flight_seq() == old(self).in_flight_seq()
                },
            },
    {
        let v = s.get();
        if v < self.ack_floor || v >= self.next {
            return Err(ErrorKind::ProtocolViolation);
        }
        let ghost w0 = self.in_flight@;
        let mut c: usize = 0;
        while c < self.in_flight.len() && self.in_flight[c] <= v
            invariant
                c <= self.in_flight.len(),
                self.in_flight@ == w0,
                self.next == old(self).next,
                self.ack_floor == old(self).ack_floor,
                forall|j: int| 0 <= j < c ==> #[trigger] w0[j] <= v,
            decreases self.in_flight.len() - c,
        {
            c = c + 1;
        }
        let mut out: Vec<u64> = Vec::new();
        let mut j: usize = c;
        while j < self.in_flight.len()
            invariant
                c <= j <= self.in_flight.len(),
                self.in_flight@ == w0,
                self.next == old(self).next,
                self.ack_floor == old(self).ack_floor,
                out@ =~= w0.subrange(c as int, j as int),
            decreases self.in_flight.len() - j,
        {
            out.push(self.in_flight[j]);
            j = j + 1;
        }
        proof {
            assert(out@ =~= w0.subrange(c as int, w0.len() as int));
            assert forall|x: u64| out@.contains(x) implies w0.contains(x) && x > v by {
                let k = choose|k: int| 0 <= k < out@.len() && out@[k] == x;
                assert(w0[c + k] == x);
                assert(c < w0.len());
                assert(w0[c as int] > v);
                assert(c + k >= c);
            };
            assert forall|x: u64| w0.contains(x) && x > v implies out@.contains(x) by {
                let k = choose|k: int| 0 <= k < w0.len() && w0[k] == x;
                assert(k >= c) by {
                    if k < c {
                        assert(w0[k] <= v);
                    }
                };
                assert(out@[k - c] == x);
            };
        }
        self.in_flight = out;
        self.ack_floor = v + 1;
        Ok(())
    }

    /// Resolves exactly one in-flight request, for responses that are
    /// correlated 1:1 (a measurement result, a per-request failure). A
    /// sequence number that is not in flight is a duplicate or spurious
    /// response: a fatal protocol violation, leaving the sender unchanged.
    pub fn resolve_one(&mut self, s: SequenceNumber) -> (r: Result<(), ErrorKind>)
        requires
            old(self).wf(),
        ensures
            final(self).wf(),
            match r {
                Ok(()) => {
                    &&& old(self).in_flight_has(s.value())
                    &&& final(self).acked_below() == old(self).acked_below()
                    &&& final(self).next_seq() == old(self).next_seq()
                    &&& forall|x: u64|
                        final(self).in_flight_has(x) <==> old(self).in_flight_has(x) && x != s.value()
                },
                Err(e) => {
                    &&& e == ErrorKind::ProtocolViolation
                    &&& !old(self).in_flight_has(s.value())
                    &&& final(self).next_seq() == old(self).next_seq()
                    &&& final(self).acked_below() == old(self).acked_below()
                    &&& final(self).in_flight_seq() == old(self).in_flight_seq()
                },
            },
    {
        let v = s.get();
        let ghost w0 = self.in_flight@;
        let mut i: usize = 0;
        while i < self.in_flight.len()
            invariant
                i <= self.in_flight.len(),
                self.in_flight@ == w0,
                self.next == old(self).next,
                self.ack_floor == old(self).ack_floor,
                w0 == old(self).in_flight_seq(),
                old(self).wf(),
                v == s.value(),
                forall|j: int| 0 <= j < i ==> #[trigger] w0[j] != v,
            decreases self.in_flight.len() - i,
        {
            if self.in_flight[i] == v {
                let _ = self.in_flight.remove(i);
                proof {
                    w0.remove_ensures(i as int);
                    let w1 = self.in_flight@;
                    assert forall|x: u64| w1.contains(x) implies w0.contains(x) && x != v by {
                        let k = choose|k: int| 0 <= k < w1.len() && w1[k] == x;
                        if k < i {
                            assert(w0[k] == x);
                            assert(w0[k] < w0[i as int]);
                        } else {
                            assert(w0[k + 1] == x);
                            assert(w0[i as int] < w0[k + 1]);
                        }
                    };
                    assert forall|x: u64| w0.contains(x) && x != v implies w1.contains(x) by {
                        let k = choose|k: int| 0 <= k < w0.len() && w0[k] == x;
                        if k < i {
                            assert(w1[k] == x);
                        } else {
                            assert(k > i);
                            assert(w1[k - 1] == x);
                        }
                    };
                    assert forall|a: int, b: int| 0 <= a < b < w1.len() implies w1[a] < w1[b] by {
                        if b < i {
                            assert(w1[a] == w0[a] && w1[b] == w0[b]);
                        } else if a < i {
                            assert(w1[a] == w0[a] && w1[b] == w0[b + 1]);
                            assert(w0[a] < w0[b + 1]);
                        } else {
                            assert(w1[a] == w0[a + 1] && w1[b] == w0[b + 1]);
                            assert(w0[a + 1] < w0[b + 1]);
                        }
                    };
                    assert(strictly_increasing(w1));
                }
                return Ok(());
            }
            i = i + 1;
        }
        proof {
            assert(!w0.contains(v));
        }
        Err(ErrorKind::ProtocolViolation)
    }

    /// Dispatches one upstream message: a cumulative acknowledgement
    /// evicts everything at or below it, a failure resolves its own
    /// request, and a measurement result resolves its own request and is
    /// handed back to the caller, correlated to the request that produced
    /// it.
    pub fn receive_up(&mut self, msg: GatestreamUp) -> (r: Result<
        Option<QubitMeasurement>,
        ErrorKind,
    >)
        requires
            old(self).wf(),
        ensures
            final(self).wf(),
            match r {
                Ok(res) => match msg {
                    GatestreamUp::CompletedUpTo(s) => {
                        &&& old(self).acked_below() <= s.value() < old(self).next_seq()
                        &&& final(self).acked_below() == s.value() + 1
                        &&& final(self).next_seq() == old(self).next_seq()
                        &&& forall|x: u64|
                            final(self).in_flight_has(x) <==> old(self).in_flight_has(x) && x > s.value()
                        &&& res matches None
                    },
                    GatestreamUp::Failure(s) => {
                        &&& old(self).in_flight_has(s.value())
                        &&& final(self).acked_below() == old(self).acked_below()
                        &&& final(self).next_seq() == old(self).next_seq()
                        &&& forall|x: u64|
                            final(self).in_flight_has(x) <==> old(self).in_flight_has(x) && x != s.value()
                        &&& res matches None
                    },
                    GatestreamUp::Measured(s, m) => {
                        &&& old(self).in_flight_has(s.value())
                        &&& final(self).acked_below() == old(self).acked_below()
                        &&& final(self).next_seq() == old(self).next_seq()
                        &&& forall|x: u64|
                            final(self).in_flight_has(x) <==> old(self).in_flight_has(x) && x != s.value()
                        &&& res == Some(m)
                    },
                },
                Err(e) => {
                    &&& e == ErrorKind::ProtocolViolation
                    &&& final(self).next_seq() == old(self).next_seq()
                    &&& final(self).acked_below() == old(self).acked_below()
                    &&& final(self).in_flight_seq() == old(self).in_flight_seq()
                },
            },
    {
        match msg {
            GatestreamUp::CompletedUpTo(s) => match self.receive_completed_up_to(s) {
                Ok(()) => Ok(None),
                Err(e) => Err(e),
            },
            GatestreamUp::Failure(s) => match self.resolve_one(s) {
                Ok(()) => Ok(None),
                Err(e) => Err(e),
            },
            GatestreamUp::Measured(s, m) => match self.resolve_one(s) {
                Ok(()) => Ok(Some(m)),
                Err(e) => Err(e),
            },
        }
    }

    /// How many requests are in flight. Zero means the link behaves as an
    /// unpipelined request/response protocol.
    pub fn in_flight_count(&self) -> (r: usize)
        ensures
            r == self.in_flight_seq().len(),
    {
        self.in_flight.len()
    }

    /// The in-flight sequence numbers, oldest first. On a transport
    /// failure these requests are lost and must be reported, never
    /// silently assumed successful.
    pub fn in_flight_seqs(&self) -> (r: Vec<SequenceNumber>)
        ensures
            r@.len() == self.in_flight_seq().len(),
            forall|i: int|
                0 <= i < r@.len() ==> (#[trigger] r@[i]).value() == self.in_flight_seq()[i],
    {
        let mut r: Vec<SequenceNumber> = Vec::new();
        let mut i: usize = 0;
        while i < self.in_flight.len()
            invariant
                i <= self.in_flight.len(),
                r@.len() == i,
                forall|j: int|
                    0 <= j < i ==> (#[trigger] r@[j]).value() == self.in_flight_seq()[j],
            decreases self.in_flight.len() - i,
        {
            r.push(SequenceNumber::new(self.in_flight[i]));
            i = i + 1;
        }
        r
    }
}

/// The outcome a completed request is waiting to report upstream: nothing
/// beyond an acknowledgement, or a measurement result.
pub open spec fn opt_meas_view(m: Option<QubitMeasurement>) -> Option<MeasurementView> {
    match m {
        Some(x) => Some(x@),
        None => None,
    }
}

/// The response owed for sequence number `s`, given the completed-request
/// map `m0`: a measurement result where one was produced, a plain
/// acknowledgement where the request completed without one, and an
/// explicit failure where the request never completed.
pub open spec fn response_for(
    m0: Map<u64, Option<MeasurementView>>,
    s: u64,
    up: GatestreamUp,
) -> bool {
    match up {
        GatestreamUp::Measured(sn, meas) => sn.value() == s && m0.contains_key(s) && m0[s]
            == Some(meas@),
        GatestreamUp::CompletedUpTo(sn) => sn.value() == s && m0.contains_key(s) && m0[s]
            == None::<MeasurementView>,
        GatestreamUp::Failure(sn) => sn.value() == s && !m0.contains_key(s),
    }
}

/// The sequence number an upstream response carries.
pub open spec fn up_seq_value(up: GatestreamUp) -> u64 {
    match up {
        GatestreamUp::Measured(sn, _) => sn.value(),
        GatestreamUp::CompletedUpTo(sn) => sn.value(),
        GatestreamUp::Failure(sn) => sn.value(),
    }
}

/// The receiving side of one direction of a gatestream link.
///
/// Checks that downstream sequence numbers arrive strictly increasing by
/// exactly one, lets processing be deferred and finish out of order, and
/// emits upstream responses in request order: a response is never emitted
/// while an earlier request still has none.
pub struct GatestreamReceiver {
    expected: u64,
    acked: u64,
    pending: Vec<(u64, Option<QubitMeasurement>)>,
}

impl GatestreamReceiver {
    /// The sequence number the next downstream message must carry.
    pub closed spec fn expected_seq(self) -> u64 {
        self.expected
    }

    /// Every sequence number below this has had its response emitted.
    pub closed spec fn acked_seq(self) -> u64 {
        self.acked
    }

    /// The completed requests whose responses are not yet emitted.
    closed spec fn entries(self) -> Seq<(u64, Option<MeasurementView>)> {
        self.pending@.map_values(
            |p: (u64, Option<QubitMeasurement>)| (p.0, opt_meas_view(p.1)),
        )
    }

    /// The completed requests whose responses are not yet emitted, as a
    /// map from sequence number to the optional measurement produced.
    pub closed spec fn pending_map(self) -> Map<u64, Option<MeasurementView>> {
        crate::assoc::assoc_map(self.entries())
    }

    /// Well-formedness: one pending response per sequence number, and all
    /// of them between the emission point and the reception point.
    pub closed spec fn wf(self) -> bool {
        &&& self.acked_seq() <= self.expected_seq()
        &&& crate::assoc::distinct_keys(self.entries())
        &&& forall|i: int|
            0 <= i < self.entries().len()
                ==> self.acked_seq() <= (#[trigger] self.entries()[i]).0 < self.expected_seq()
    }

    /// A fresh receiver expecting the agreed initial sequence number.
    pub fn new(initial: SequenceNumber) -> (r: GatestreamReceiver)
        ensures
            r.wf(),
            r.expected_seq() == initial.value(),
            r.acked_seq() == initial.value(),
            r.pending_map() == Map::<u64, Option<MeasurementView>>::empty(),
    {
        let r = GatestreamReceiver {
            expected: initial.get(),
            acked: initial.get(),
            pending: Vec::new(),
        };
        proof {
            assert(r.entries() =~= Seq::<(u64, Option<MeasurementView>)>::empty());
        }
        r
    }

    /// Records the arrival of a pipelined downstream message. The
    /// transport delivers in order, so the sequence number must be exactly
    /// the expected one; a duplicate, decreasing or skipping number is a
    /// fatal protocol violation and leaves the receiver unchanged.
    pub fn receive_pipelined(&mut self, s: SequenceNumber) -> (r: Result<(), ErrorKind>)
        requires
            old(self).wf(),
            old(self).expected_seq() < u64::MAX,
        ensures
            final(self).wf(),
            final(self).acked_seq() == old(self).acked_seq(),
            final(self).pending_map() == old(self).pending_map(),
            match r {
                Ok(()) => {
                    &&& s.value() == old(self).expected_seq()
                    &&& final(self).expected_seq() == old(self).expected_seq() + 1
                },
                Err(e) => {
                    &&& e == ErrorKind::ProtocolViolation
                    &&& s.value() != old(self).expected_seq()
                    &&& final(self).expected_seq() == old(self).expected_seq()
                },
            },
    {
        if s.get() == self.expected {
            self.expected = self.expected + 1;
            Ok(())
        } else {
            Err(ErrorKind::ProtocolViolation)
        }
    }

    /// Records that a received request has been processed, together with
    /// the measurement result it produced, if any; its response is owed
    /// but not yet emitted. Completing a request that was never received,
    /// was already completed, or already had its response emitted is a
    /// fatal protocol violation, leaving the receiver unchanged.
    pub fn complete(&mut self, s: SequenceNumber, measurement: Option<QubitMeasurement>) -> (r:
        Result<(), ErrorKind>)
        requires
            old(self).wf(),
        ensures
            final(self).wf(),
            final(self).expected_seq() == old(self).expected_seq(),
            final(self).acked_seq() == old(self).acked_seq(),
            match r {
                Ok(()) => {
                    &&& old(self).acked_seq() <= s.value() < old(self).expected_seq()
                    &&& !old(self).pending_map().contains_key(s.value())
                    &&& final(self).pending_map() == old(self).pending_map().insert(
                        s.value(),
                        opt_meas_view(measurement),
                    )
                },
                Err(e) => {
                    &&& e == ErrorKind::ProtocolViolation
                    &&& !(old(self).acked_seq() <= s.value() < old(self).expected_seq()
                        && !old(self).pending_map().contains_key(s.value()))
                    &&& final(self).pending_map() == old(self).pending_map()
                },
            },
    {
        let v = s.get();
        proof {
            crate::assoc::lemma_assoc_contains(self.entries(), v);
        }
        if v < self.acked || v >= self.expected {
            return Err(ErrorKind::ProtocolViolation);
        }
        match self.index_of_key(v) {
            Some(_) => Err(ErrorKind::ProtocolViolation),
            None => {
                let ghost s1 = self.entries();
                self.pending.push((v, measurement));
                proof {
                    assert(self.entries() =~= s1.push((v, opt_meas_view(measurement))));
                    assert(self.entries().drop_last() =~= s1);
                    assert(crate::assoc::distinct_keys(self.entries()));
                }
                Ok(())
            },
        }
    }

    /// Where the pending response for this sequence number is stored, if
    /// anywhere.
    fn index_of_key(&self, k: u64) -> (r: Option<usize>)
        ensures
            match r {
                Some(i) => i < self.entries().len() && self.entries()[i as int].0 == k,
                None => forall|j: int|
                    0 <= j < self.entries().len() ==> (#[trigger] self.entries()[j]).0 != k,
            },
    {
        let mut j: usize = 0;
        while j < self.pending.len()
            invariant
                j <= self.pending.len(),
                forall|a: int| 0 <= a < j ==> (#[trigger] self.entries()[a]).0 != k,
            decreases self.pending.len() - j,
        {
            if self.pending[j].0 == k {
                return Some(j);
            }
            j = j + 1;
        }
        None
    }

    /// Removes the pending response stored at `i`, whose sequence number
    /// must be the next one owed, and builds the upstream message for it;
    /// the emission point advances past it. `m0` is the baseline the
    /// caller correlates against: the pending map before emission began.
    fn take_pending(
        &mut self,
        i: usize,
        Ghost(m0): Ghost<Map<u64, Option<MeasurementView>>>,
    ) -> (up: GatestreamUp)
        requires
            old(self).wf(),
            i < old(self).entries().len(),
            old(self).entries()[i as int].0 == old(self).acked_seq(),
            forall|x: u64|
                old(self).pending_map().contains_key(x)
                    <==> m0.contains_key(x) && x >= old(self).acked_seq(),
            forall|x: u64|
                #[trigger] old(self).pending_map().contains_key(x) ==> old(self).pending_map()[x]
                    == m0[x],
        ensures
            final(self).wf(),
            final(self).expected_seq() == old(self).expected_seq(),
            final(self).acked_seq() == old(self).acked_seq() + 1,
            m0.contains_key(old(self).acked_seq()),
            response_for(m0, old(self).acked_seq(), up),
            forall|x: u64|
                final(self).pending_map().contains_key(x)
                    <==> m0.contains_key(x) && x >= final(self).acked_seq(),
            forall|x: u64|
                #[trigger] final(self).pending_map().contains_key(x) ==> final(self).pending_map()[x]
                    == m0[x],
    {
        let ghost s0 = self.entries();
        let ghost p0 = old(self).pending_map();
        let ghost a_here = old(self).acked_seq();
        proof {
            crate::assoc::lemma_assoc_get(s0, i as int);
            crate::assoc::lemma_assoc_remove(s0, i as int);
            s0.remove_ensures(i as int);
        }
        let e = self.pending.remove(i);
        proof {
            assert(self.entries() =~= s0.remove(i as int));
            assert(crate::assoc::distinct_keys(self.entries()));
            assert(e.0 == a_here);
        }
        self.acked = self.acked + 1;
        proof {
            assert(self.pending_map() == p0.remove(a_here));
            assert(p0.contains_key(a_here));
            assert(m0.contains_key(a_here));
            assert(m0[a_here] == p0[a_here]);
            assert forall|x: u64|
                self.pending_map().contains_key(x) implies m0.contains_key(x) && x
                >= self.acked_seq() by {
                assert(p0.contains_key(x));
                assert(x != a_here);
            };
            assert forall|x: u64|
                m0.contains_key(x) && x >= self.acked_seq() implies self.pending_map().contains_key(
                x,
            ) by {
                assert(p0.contains_key(x));
            };
        }
        let sn = SequenceNumber::new(e.0);
        match e.1 {
            Some(m) => GatestreamUp::Measured(sn, m),
            None => GatestreamUp::CompletedUpTo(sn),
        }
    }

    /// Emits the responses that are ready: in strictly increasing sequence
    /// order, one response per completed request, stopping at the first
    /// request whose processing is still outstanding. A response for a
    /// later request is never emitted before one for an earlier request.
    pub fn flush(&mut self) -> (r: Vec<GatestreamUp>)
        requires
            old(self).wf(),
        ensures
            final(self).wf(),
            final(self).expected_seq() == old(self).expected_seq(),
            final(self).acked_seq() >= old(self).acked_seq(),
            r@.len() == final(self).acked_seq() - old(self).acked_seq(),
            forall|k: int|
                0 <= k < r@.len() ==> response_for(
                    old(self).pending_map(),
                    (old(self).acked_seq() + k) as u64,
                    #[trigger] r@[k],
                ) && old(self).pending_map().contains_key((old(self).acked_seq() + k) as u64),
            !old(self).pending_map().contains_key(final(self).acked_seq()),
            forall|x: u64|
                final(self).pending_map().contains_key(x) <==> old(self).pending_map().contains_key(
                    x,
                ) && x >= final(self).acked_seq(),
            forall|x: u64|
                #[trigger] final(self).pending_map().contains_key(x)
                    ==> final(self).pending_map()[x] == old(self).pending_map()[x],
    {
        let ghost m0 = old(self).pending_map();
        let ghost a0 = old(self).acked_seq();
        proof {
            assert forall|x: u64| m0.contains_key(x) implies a0 <= x < old(self).expected_seq() by {
                crate::assoc::lemma_assoc_contains(old(self).entries(), x);
            };
        }
        let mut out: Vec<GatestreamUp> = Vec::new();
        let mut go = true;
        while go
            invariant
                self.wf(),
                self.expected_seq() == old(self).expected_seq(),
                a0 <= self.acked_seq(),
                m0 == old(self).pending_map(),
                a0 == old(self).acked_seq(),
                out@.len() == self.acked_seq() - a0,
                forall|k: int|
                    0 <= k < out@.len() ==> response_for(m0, (a0 + k) as u64, #[trigger] out@[k])
                        && m0.contains_key((a0 + k) as u64),
                forall|x: u64|
                    self.pending_map().contains_key(x) <==> m0.contains_key(x) && x
                        >= self.acked_seq(),
                forall|x: u64|
                    #[trigger] self.pending_map().contains_key(x) ==> self.pending_map()[x]
                        == m0[x],
                !go ==> !m0.contains_key(self.acked_seq()),
            decreases self.expected_seq() - self.acked_seq() + (if go { 1int } else { 0int }),
        {
            let ghost acked_here = self.acked_seq();
            match self.index_of_key(self.acked) {
                Some(i) => {
                    let up = self.take_pending(i, Ghost(m0));
                    let ghost out0 = out@;
                    out.push(up);
                    proof {
                        assert forall|k: int| #![trigger out@[k]]
                            0 <= k < out@.len() implies m0.contains_key((a0 + k) as u64)
                            && response_for(m0, (a0 + k) as u64, out@[k]) by {
                            if k < out@.len() - 1 {
                                assert(out@[k] == out0[k]);
                            } else {
                                assert(out@[k] == up);
                                assert((a0 + k) as u64 == acked_here);
                            }
                        };
                    }
                },
                None => {
                    proof {
                        crate::assoc::lemma_assoc_contains(self.entries(), self.acked_seq());
                        assert(!self.pending_map().contains_key(self.acked_seq()));
                    }
                    go = false;
                },
            }
        }
        out
    }

    /// Quiesces the link for teardown: emits, in strictly increasing
    /// sequence order, exactly one response for every request received but
    /// not yet answered — the produced measurement or acknowledgement for
    /// a completed request (never silently dropped), an explicit failure
    /// for one still outstanding. Afterwards nothing is pending.
    pub fn abort(&mut self) -> (r: Vec<GatestreamUp>)
        requires
            old(self).wf(),
        ensures
            final(self).wf(),
            final(self).expected_seq() == old(self).expected_seq(),
            final(self).acked_seq() == old(self).expected_seq(),
            final(self).pending_map() == Map::<u64, Option<MeasurementView>>::empty(),
            r@.len() == old(self).expected_seq() - old(self).acked_seq(),
            forall|k: int|
                0 <= k < r@.len() ==> response_for(
                    old(self).pending_map(),
                    (old(self).acked_seq() + k) as u64,
                    #[trigger] r@[k],
                ),
    {
        let ghost m0 = old(self).pending_map();
        let ghost a0 = old(self).acked_seq();
        proof {
            assert forall|x: u64| m0.contains_key(x) implies a0 <= x < old(self).expected_seq() by {
                crate::assoc::lemma_assoc_contains(old(self).entries(), x);
            };
        }
        let mut out: Vec<GatestreamUp> = Vec::new();
        while self.acked < self.expected
            invariant
                self.wf(),
                self.expected_seq() == old(self).expected_seq(),
                a0 <= self.acked_seq(),
                m0 == old(self).pending_map(),
                a0 == old(self).acked_seq(),
                out@.len() == self.acked_seq() - a0,
                forall|k: int|
                    0 <= k < out@.len() ==> response_for(m0, (a0 + k) as u64, #[trigger] out@[k]),
                forall|x: u64|
                    self.pending_map().contains_key(x) <==> m0.contains_key(x) && x
                        >= self.acked_seq(),
                forall|x: u64|
                    #[trigger] self.pending_map().contains_key(x) ==> self.pending_map()[x]
                        == m0[x],
            decreases self.expected_seq() - self.acked_seq(),
        {
            let ghost acked_here = self.acked_seq();
            match self.index_of_key(self.acked) {
                Some(i) => {
                    let up = self.take_pending(i, Ghost(m0));
                    let ghost out0 = out@;
                    out.push(up);
                    proof {
                        assert forall|k: int| #![trigger out@[k]]
                            0 <= k < out@.len() implies response_for(m0, (a0 + k) as u64, out@[k]) by {
                            if k < out@.len() - 1 {
                                assert(out@[k] == out0[k]);
                            } else {
                                assert(out@[k] == up);
                                assert((a0 + k) as u64 == acked_here);
                            }
                        };
                    }
                },
                None => {
                    proof {
                        crate::assoc::lemma_assoc_contains(self.entries(), self.acked_seq());
                        assert(!self.pending_map().contains_key(acked_here));
                        assert(!m0.contains_key(acked_here));
                    }
                    out.push(GatestreamUp::Failure(SequenceNumber::new(self.acked)));
                    self.acked = self.acked + 1;
                },
            }
        }
        proof {
            assert forall|x: u64| !self.pending_map().contains_key(x) by {
                if self.pending_map().contains_key(x) {
                    assert(m0.contains_key(x) && x >= self.acked_seq());
                }
            };
            assert(self.pending_map() =~= Map::<u64, Option<MeasurementView>>::empty());
        }
        out
    }
}

/// Law: within one emission batch, responses carry strictly increasing
/// sequence numbers — no response for a later request is observed before
/// one for an earlier request.
pub proof fn lemma_emission_ordered(
    m0: Map<u64, Option<MeasurementView>>,
    base: u64,
    r: Seq<GatestreamUp>,
)
    requires
        base + r.len() <= u64::MAX + 1,
        forall|k: int| 0 <= k < r.len() ==> response_for(m0, (base + k) as u64, #[trigger] r[k]),
    ensures
        forall|k1: int, k2: int|
            0 <= k1 < k2 < r.len() ==> up_seq_value(r[k1]) < up_seq_value(r[k2]),
{
    assert forall|k1: int, k2: int|
        0 <= k1 < k2 < r.len() implies up_seq_value(r[k1]) < up_seq_value(r[k2]) by {
        assert(response_for(m0, (base + k1) as u64, r[k1]));
        assert(response_for(m0, (base + k2) as u64, r[k2]));
    }
}

} // verus!
