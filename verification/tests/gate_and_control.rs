use std::cell::RefCell;
use std::rc::Rc;

use gatestream_core::arb::ArbData;
use gatestream_core::errors::ErrorKind;
use gatestream_core::gate::Gate;
use gatestream_core::logproxy::LogProxy;
use gatestream_core::logproxy::Loglevel;
use gatestream_core::logproxy::LoglevelFilter;
use gatestream_core::logproxy::Record;
use gatestream_core::logproxy::Sender;
use gatestream_core::protocol::Cycles;
use gatestream_core::protocol::GatestreamUp;
use gatestream_core::protocol::SequenceNumber;
use gatestream_core::session::PluginToSimulator;
use gatestream_core::qubit::QubitRef;
use gatestream_core::session::PluginInitializeRequest;
use gatestream_core::session::PluginSession;
use gatestream_core::session::SessionStatus;
use gatestream_core::session::SimulatorToPlugin;

fn qref(v: u64) -> QubitRef {
    QubitRef::from_foreign(v).unwrap()
}

#[test]
fn cycles_and_sequence_numbers_are_plain_counters() {
    let c = Cycles::new(41);
    assert_eq!(c.get(), 41);
    assert_eq!(c.advance(9).get(), 50);
    let s = SequenceNumber::new(7);
    assert_eq!(s.get(), 7);
    assert_eq!(s.succ().get(), 8);
}

#[test]
fn gate_rejects_conflicting_qubit_roles() {
    let err = Gate::new(
        "cnot".to_string(),
        vec![qref(1)],
        vec![qref(1)],
        vec![],
        ArbData::default(),
    )
    .unwrap_err();
    assert_eq!(err, ErrorKind::Validation);

    let err = Gate::new(
        "swap".to_string(),
        vec![qref(2), qref(2)],
        vec![],
        vec![],
        ArbData::default(),
    )
    .unwrap_err();
    assert_eq!(err, ErrorKind::Validation);
}

#[test]
fn gate_keeps_its_fields_and_allows_measured_reuse() {
    let g = Gate::new(
        "measure".to_string(),
        vec![qref(1), qref(2)],
        vec![qref(3)],
        vec![qref(1)],
        ArbData::default(),
    )
    .expect("a measured qubit may repeat a target");
    assert_eq!(g.name().as_str(), "measure");
    assert_eq!(g.targets().len(), 2);
    assert_eq!(g.controls().len(), 1);
    assert_eq!(g.measures().len(), 1);
    assert_eq!(g.targets()[0], qref(1));
    assert_eq!(g.controls()[0], qref(3));
}

#[test]
fn arb_data_clones_deeply() {
    let data = ArbData { json: vec![1, 2, 3], args: vec![vec![4], vec![5, 6]] };
    let copy = data.clone();
    assert_eq!(copy, data);
    assert_eq!(ArbData::default(), ArbData { json: vec![], args: vec![] });
}

#[derive(Clone)]
struct ChannelSender {
    sent: Rc<RefCell<Vec<Record>>>,
    open: bool,
}

impl Sender for ChannelSender {
    type Item = Record;

    fn send(&self, item: Record) -> Result<(), ErrorKind> {
        if self.open {
            self.sent.borrow_mut().push(item);
            Ok(())
        } else {
            Err(ErrorKind::Transport)
        }
    }
}

#[test]
fn log_proxy_forwards_records_in_order() {
    let sent = Rc::new(RefCell::new(Vec::new()));
    let proxy = LogProxy::boxed(
        "front".to_string(),
        LoglevelFilter::Info,
        ChannelSender { sent: sent.clone(), open: true },
    );
    assert_eq!(proxy.name(), "front");
    for i in 0..3 {
        proxy
            .log(Record {
                logger: "front".to_string(),
                level: Loglevel::Info,
                message: format!("step {}", i),
            })
            .expect("channel open");
    }
    let records = sent.borrow();
    assert_eq!(records.len(), 3);
    assert_eq!(records[0].message, "step 0");
    assert_eq!(records[2].message, "step 2");
}

#[test]
fn log_proxy_reports_a_closed_channel() {
    let sent = Rc::new(RefCell::new(Vec::new()));
    let proxy = LogProxy::new(
        "back".to_string(),
        LoglevelFilter::Trace,
        ChannelSender { sent, open: false },
    );
    let r = proxy.log(Record {
        logger: "back".to_string(),
        level: Loglevel::Error,
        message: "lost".to_string(),
    });
    assert_eq!(r.unwrap_err(), ErrorKind::Transport);
}

#[test]
fn log_proxy_filters_by_configured_level() {
    let sent = Rc::new(RefCell::new(Vec::new()));
    let strict = LogProxy::new(
        "p".to_string(),
        LoglevelFilter::Fatal,
        ChannelSender { sent: sent.clone(), open: true },
    );
    assert!(strict.enabled(Loglevel::Fatal), "fatal errors pass a fatal-only filter");
    assert!(!strict.enabled(Loglevel::Trace), "trace detail does not pass a fatal-only filter");
    let verbose = LogProxy::new(
        "q".to_string(),
        LoglevelFilter::Trace,
        ChannelSender { sent: sent.clone(), open: true },
    );
    assert!(verbose.enabled(Loglevel::Trace), "a trace filter admits everything");
    assert!(verbose.enabled(Loglevel::Fatal));
    let off = LogProxy::new("r".to_string(), LoglevelFilter::Off, ChannelSender { sent, open: true });
    assert!(!off.enabled(Loglevel::Fatal), "an off filter silences everything");
    assert!(!off.enabled(Loglevel::Trace));
}

fn init_request() -> SimulatorToPlugin {
    SimulatorToPlugin::Initialize(PluginInitializeRequest {
        prefix: "front".to_string(),
        level: LoglevelFilter::Info,
        downstream: Some("downstream-endpoint".to_string()),
    })
}

#[test]
fn session_initializes_exactly_once() {
    let mut session = PluginSession::new(Some("upstream-endpoint".to_string()));
    assert_eq!(session.status, SessionStatus::AwaitingInitialize);
    let (resp, flush) = session.handle_request(init_request());
    assert!(flush.is_empty());
    match resp {
        PluginToSimulator::Initialized(r) => {
            assert_eq!(r.upstream.as_deref(), Some("upstream-endpoint"))
        }
        _ => panic!("initialize must be honored on a fresh session"),
    }
    assert_eq!(session.status, SessionStatus::Active);
    let (again, _) = session.handle_request(init_request());
    match again {
        PluginToSimulator::Failure(e) => assert_eq!(e, ErrorKind::ProtocolViolation),
        _ => panic!("initializing twice is a protocol violation"),
    }
}

#[test]
fn abort_before_initialize_is_a_protocol_violation() {
    let mut session = PluginSession::new(None);
    let (resp, flush) = session.handle_request(SimulatorToPlugin::Abort);
    assert!(flush.is_empty());
    match resp {
        PluginToSimulator::Failure(e) => assert_eq!(e, ErrorKind::ProtocolViolation),
        _ => panic!("abort cannot be honored before initialize"),
    }
}

#[test]
fn abort_quiesces_the_gatestream_before_completing() {
    let mut session = PluginSession::new(None);
    session.handle_request(init_request());
    // Downstream sends gate requests 0, 1, 2.
    for s in 0..3u64 {
        session.gatestream.receive_pipelined(SequenceNumber::new(s)).unwrap();
    }
    // 0 and 1 complete and are acknowledged; 2 is still in flight.
    session.gatestream.complete(SequenceNumber::new(0), None).unwrap();
    session.gatestream.complete(SequenceNumber::new(1), None).unwrap();
    let acked = session.gatestream.flush();
    assert_eq!(acked.len(), 2);
    let (resp, flush) = session.handle_request(SimulatorToPlugin::Abort);
    match resp {
        PluginToSimulator::Success => {}
        _ => panic!("abort on an active session must succeed"),
    }
    assert_eq!(flush.len(), 1, "sequence number 2 must be flushed before abort completes");
    match &flush[0] {
        GatestreamUp::Failure(s) => assert_eq!(s.get(), 2),
        _ => panic!("the unprocessed request must be explicitly failed"),
    }
    assert_eq!(session.status, SessionStatus::Finished);
}
