use gatestream_core::arb::ArbData;
use gatestream_core::errors::ErrorKind;
use gatestream_core::gatestream::GatestreamReceiver;
use gatestream_core::gatestream::GatestreamSender;
use gatestream_core::protocol::Cycles;
use gatestream_core::protocol::GatestreamDown;
use gatestream_core::protocol::GatestreamUp;
use gatestream_core::protocol::PipelinedGatestreamDown;
use gatestream_core::protocol::QubitMeasurement;
use gatestream_core::protocol::SequenceNumber;
use gatestream_core::qubit::QubitRef;

fn advance(cycles: u64) -> PipelinedGatestreamDown {
    PipelinedGatestreamDown::Advance(Cycles::new(cycles))
}

fn up_seq(up: &GatestreamUp) -> u64 {
    match up {
        GatestreamUp::CompletedUpTo(s) => s.get(),
        GatestreamUp::Failure(s) => s.get(),
        GatestreamUp::Measured(s, _) => s.get(),
    }
}

fn sample_measurement(q: u64, value: bool) -> QubitMeasurement {
    QubitMeasurement {
        qubit: QubitRef::from_foreign(q).unwrap(),
        value,
        data: ArbData::default(),
    }
}

#[test]
fn sender_assigns_consecutive_sequence_numbers() {
    let mut tx = GatestreamSender::new(SequenceNumber::new(0));
    for expected in 0..4u64 {
        match tx.send(advance(10)) {
            GatestreamDown::Pipelined(s, _) => assert_eq!(s.get(), expected),
            GatestreamDown::Abort => panic!("send never builds a control message"),
        }
    }
    assert_eq!(tx.in_flight_count(), 4);
}

#[test]
fn cumulative_ack_evicts_everything_at_or_below() {
    let mut tx = GatestreamSender::new(SequenceNumber::new(0));
    for _ in 0..3 {
        tx.send(advance(1));
    }
    tx.receive_completed_up_to(SequenceNumber::new(1)).expect("valid cumulative ack");
    assert_eq!(tx.in_flight_count(), 1);
    let left = tx.in_flight_seqs();
    assert_eq!(left.len(), 1);
    assert_eq!(left[0].get(), 2);
}

#[test]
fn duplicate_or_unsent_ack_is_a_protocol_violation() {
    let mut tx = GatestreamSender::new(SequenceNumber::new(0));
    tx.send(advance(1));
    tx.send(advance(2));
    tx.receive_completed_up_to(SequenceNumber::new(0)).expect("first ack");
    assert_eq!(
        tx.receive_completed_up_to(SequenceNumber::new(0)).unwrap_err(),
        ErrorKind::ProtocolViolation,
        "a duplicate acknowledgement is fatal"
    );
    assert_eq!(
        tx.receive_completed_up_to(SequenceNumber::new(9)).unwrap_err(),
        ErrorKind::ProtocolViolation,
        "acknowledging an unsent request is fatal"
    );
    assert_eq!(tx.in_flight_count(), 1);
}

#[test]
fn measurement_results_resolve_their_own_request() {
    let mut tx = GatestreamSender::new(SequenceNumber::new(0));
    tx.send(advance(1));
    tx.send(advance(2));
    let m = sample_measurement(7, true);
    let got = tx
        .receive_up(GatestreamUp::Measured(SequenceNumber::new(0), m))
        .expect("correlates 1:1");
    let got = got.expect("a measurement is handed back");
    assert_eq!(got.qubit.to_foreign(), 7);
    assert!(got.value);
    assert_eq!(tx.in_flight_count(), 1);
    assert_eq!(
        tx.receive_up(GatestreamUp::Failure(SequenceNumber::new(0))).unwrap_err(),
        ErrorKind::ProtocolViolation,
        "resolving the same request twice is fatal"
    );
}

#[test]
fn zero_in_flight_degenerates_to_request_response() {
    let mut tx = GatestreamSender::new(SequenceNumber::new(0));
    assert_eq!(tx.in_flight_count(), 0);
    tx.send(advance(1));
    tx.receive_completed_up_to(SequenceNumber::new(0)).expect("ack the only request");
    assert_eq!(tx.in_flight_count(), 0);
}

#[test]
fn receiver_rejects_out_of_order_sequence_numbers() {
    let mut rx = GatestreamReceiver::new(SequenceNumber::new(0));
    rx.receive_pipelined(SequenceNumber::new(0)).expect("expected number");
    assert_eq!(
        rx.receive_pipelined(SequenceNumber::new(0)).unwrap_err(),
        ErrorKind::ProtocolViolation,
        "a duplicate downstream number is fatal"
    );
    assert_eq!(
        rx.receive_pipelined(SequenceNumber::new(5)).unwrap_err(),
        ErrorKind::ProtocolViolation,
        "a skipped downstream number is fatal"
    );
    rx.receive_pipelined(SequenceNumber::new(1)).expect("next number");
}

#[test]
fn completing_unknown_or_finished_requests_is_rejected() {
    let mut rx = GatestreamReceiver::new(SequenceNumber::new(0));
    rx.receive_pipelined(SequenceNumber::new(0)).unwrap();
    assert_eq!(
        rx.complete(SequenceNumber::new(3), None).unwrap_err(),
        ErrorKind::ProtocolViolation,
        "completing a request never received is fatal"
    );
    rx.complete(SequenceNumber::new(0), None).unwrap();
    assert_eq!(
        rx.complete(SequenceNumber::new(0), None).unwrap_err(),
        ErrorKind::ProtocolViolation,
        "completing a request twice is fatal"
    );
}

#[test]
fn pipelined_acks_stay_ordered_under_delayed_processing() {
    let mut rx = GatestreamReceiver::new(SequenceNumber::new(0));
    let n: u64 = 3;
    for s in 0..n {
        rx.receive_pipelined(SequenceNumber::new(s)).expect("in order");
    }
    // Deliberately delay request 0: finish request 1 first.
    rx.complete(SequenceNumber::new(1), None).unwrap();
    let early = rx.flush();
    assert!(
        early.is_empty(),
        "no acknowledgement for a later request may be observed before one for an earlier request"
    );
    rx.complete(SequenceNumber::new(0), None).unwrap();
    let first = rx.flush();
    let seqs: Vec<u64> = first.iter().map(up_seq).collect();
    assert_eq!(seqs, vec![0, 1], "responses come out in request order");
    rx.complete(SequenceNumber::new(2), None).unwrap();
    let second = rx.flush();
    let seqs2: Vec<u64> = second.iter().map(up_seq).collect();
    assert_eq!(seqs2, vec![2]);
}

#[test]
fn flush_carries_measurements_back() {
    let mut rx = GatestreamReceiver::new(SequenceNumber::new(0));
    rx.receive_pipelined(SequenceNumber::new(0)).unwrap();
    rx.receive_pipelined(SequenceNumber::new(1)).unwrap();
    rx.complete(SequenceNumber::new(0), Some(sample_measurement(4, false))).unwrap();
    rx.complete(SequenceNumber::new(1), None).unwrap();
    let out = rx.flush();
    assert_eq!(out.len(), 2);
    match &out[0] {
        GatestreamUp::Measured(s, m) => {
            assert_eq!(s.get(), 0);
            assert_eq!(m.qubit.to_foreign(), 4);
            assert!(!m.value);
        }
        other => panic!("expected a measurement for request 0, got seq {}", up_seq(other)),
    }
    match &out[1] {
        GatestreamUp::CompletedUpTo(s) => assert_eq!(s.get(), 1),
        other => panic!("expected an acknowledgement for request 1, got seq {}", up_seq(other)),
    }
}

#[test]
fn abort_flushes_every_request_in_flight() {
    let mut rx = GatestreamReceiver::new(SequenceNumber::new(0));
    for s in 0..3u64 {
        rx.receive_pipelined(SequenceNumber::new(s)).unwrap();
    }
    // Request 0 and 1 processed and acknowledged; 2 still in flight.
    rx.complete(SequenceNumber::new(0), None).unwrap();
    rx.complete(SequenceNumber::new(1), None).unwrap();
    let acked = rx.flush();
    assert_eq!(acked.len(), 2);
    let out = rx.abort();
    assert_eq!(out.len(), 1, "sequence number 2 must be flushed before abort completes");
    match &out[0] {
        GatestreamUp::Failure(s) => assert_eq!(s.get(), 2),
        other => panic!("request 2 was never processed; got seq {}", up_seq(other)),
    }
    assert!(rx.flush().is_empty(), "nothing is pending after abort");
}

#[test]
fn abort_does_not_drop_produced_measurements() {
    let mut rx = GatestreamReceiver::new(SequenceNumber::new(0));
    rx.receive_pipelined(SequenceNumber::new(0)).unwrap();
    rx.receive_pipelined(SequenceNumber::new(1)).unwrap();
    rx.complete(SequenceNumber::new(1), Some(sample_measurement(6, true))).unwrap();
    let out = rx.abort();
    let seqs: Vec<u64> = out.iter().map(up_seq).collect();
    assert_eq!(seqs, vec![0, 1]);
    match &out[0] {
        GatestreamUp::Failure(_) => {}
        _ => panic!("request 0 never completed; it must be explicitly failed"),
    }
    match &out[1] {
        GatestreamUp::Measured(_, m) => {
            assert_eq!(m.qubit.to_foreign(), 6);
            assert!(m.value);
        }
        _ => panic!("the produced measurement must be flushed, not dropped"),
    }
}
