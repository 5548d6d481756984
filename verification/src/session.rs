//! The simulator-to-plugin control envelope and its coupling to a
//! gatestream session: initialize, then gate-level traffic, then an abort
//! or end-of-run that quiesces the gatestream before it is acknowledged.

use vstd::prelude::*;

use crate::errors::ErrorKind;
use crate::gatestream::response_for;
use crate::gatestream::GatestreamReceiver;
use crate::logproxy::LoglevelFilter;
use crate::protocol::GatestreamUp;
use crate::protocol::SequenceNumber;

verus! {

/// A session-scoped initialize request: the plugin's logging prefix and
/// verbosity, and the downstream endpoint it must connect to, if any.
pub struct PluginInitializeRequest {
    /// The logging prefix (logger name) the plugin must use.
    pub prefix: String,
    /// The verbosity the plugin's log proxy must be configured with.
    pub level: LoglevelFilter,
    /// The downstream endpoint to connect to; the last plugin in the
    /// chain has none.
    pub downstream: Option<String>,
}

/// The response to an initialize request: the plugin's own upstream
/// endpoint, if it exposes one, to be relayed along the chain.
pub struct PluginInitializeResponse {
    /// The endpoint the plugin's upstream neighbor must connect to.
    pub upstream: Option<String>,
}

/// A control request from the simulator to a plugin.
pub enum SimulatorToPlugin {
    /// Establish the session: configuration, logging, endpoints.
    Initialize(PluginInitializeRequest),
    /// End the session; actionable even while gatestream requests are in
    /// flight.
    Abort,
}

/// A control response from a plugin to the simulator.
pub enum PluginToSimulator {
    /// The session is established.
    Initialized(PluginInitializeResponse),
    /// The request completed.
    Success,
    /// The request failed, with the kind of failure.
    Failure(ErrorKind),
}

/// Where a plugin session stands in its control-protocol lifecycle.
#[derive(Clone, Copy, Debug, PartialEq, Eq, Structural)]
pub enum SessionStatus {
    /// Created; nothing may happen before an initialize request.
    AwaitingInitialize,
    /// Initialized; gatestream traffic flows.
    Active,
    /// Torn down; no further request is honored.
    Finished,
}

/// One plugin's side of a control-protocol session, owning the receiving
/// end of its upstream gatestream link.
///
/// The control layer supervises the gatestream: an abort must quiesce the
/// link — every received request acknowledged or explicitly failed —
/// before the abort itself is acknowledged.
pub struct PluginSession {
    /// Where the session stands in its lifecycle.
    pub status: SessionStatus,
    /// The receiving end of the session's gatestream link; gate-level
    /// traffic between control requests goes through it directly.
    pub gatestream: GatestreamReceiver,
    /// The upstream endpoint reported when the session initializes.
    pub upstream: Option<String>,
    /// The logging prefix configured at initialization.
    pub prefix: String,
    /// The verbosity configured at initialization.
    pub level: LoglevelFilter,
}

impl PluginSession {
    /// Well-formedness: the gatestream state is itself well-formed.
    pub open spec fn wf(self) -> bool {
        self.gatestream.wf()
    }

    /// A fresh session, not yet initialized, that will expose the given
    /// upstream endpoint to its neighbor.
    pub fn new(upstream: Option<String>) -> (r: PluginSession)
        ensures
            r.wf(),
            r.status == SessionStatus::AwaitingInitialize,
            r.upstream == upstream,
    {
        PluginSession {
            status: SessionStatus::AwaitingInitialize,
            gatestream: GatestreamReceiver::new(SequenceNumber::new(0)),
            upstream,
            prefix: String::new(),
            level: LoglevelFilter::Info,
        }
    }

    /// Handles one control request. Initialize is honored exactly once,
    /// before anything else; abort is honored exactly when the session is
    /// active, quiesces the gatestream — the returned upstream messages
    /// flush every received-but-unanswered request, in order — and only
    /// then reports success. A request in any other state fails as a
    /// protocol violation and changes nothing.
    pub fn handle_request(&mut self, req: SimulatorToPlugin) -> (r: (
        PluginToSimulator,
        Vec<GatestreamUp>,
    ))
        requires
            old(self).wf(),
        ensures
            final(self).wf(),
            match req {
                SimulatorToPlugin::Initialize(init) => {
                    if old(self).status == SessionStatus::AwaitingInitialize {
                        &&& final(self).status == SessionStatus::Active
                        &&& final(self).prefix@ == init.prefix@
                        &&& final(self).level == init.level
                        &&& final(self).gatestream.expected_seq() == 0
                        &&& final(self).gatestream.acked_seq() == 0
                        &&& (r.0 matches PluginToSimulator::Initialized(resp) && resp.upstream
                            == old(self).upstream)
                        &&& final(self).upstream is None
                        &&& r.1@.len() == 0
                    } else {
                        &&& final(self).status == old(self).status
                        &&& final(self).gatestream == old(self).gatestream
                        &&& final(self).upstream == old(self).upstream
                        &&& final(self).prefix@ == old(self).prefix@
                        &&& final(self).level == old(self).level
                        &&& (r.0 matches PluginToSimulator::Failure(e) && e
                            == ErrorKind::ProtocolViolation)
                        &&& r.1@.len() == 0
                    }
                },
                SimulatorToPlugin::Abort => {
                    if old(self).status == SessionStatus::Active {
                        &&& final(self).status == SessionStatus::Finished
                        &&& final(self).gatestream.expected_seq() == old(
                            self,
                        ).gatestream.expected_seq()
                        &&& final(self).gatestream.acked_seq() == old(
                            self,
                        ).gatestream.expected_seq()
                        &&& final(self).gatestream.pending_map().len() == 0
                        &&& final(self).upstream == old(self).upstream
                        &&& final(self).prefix@ == old(self).prefix@
                        &&& final(self).level == old(self).level
                        &&& (r.0 matches PluginToSimulator::Success)
                        &&& r.1@.len() == old(self).gatestream.expected_seq() - old(
                            self,
                        ).gatestream.acked_seq()
                        &&& forall|k: int|
                            0 <= k < r.1@.len() ==> response_for(
                                old(self).gatestream.pending_map(),
                                (old(self).gatestream.acked_seq() + k) as u64,
                                #[trigger] r.1@[k],
                            )
                    } else {
                        &&& final(self).status == old(self).status
                        &&& final(self).gatestream == old(self).gatestream
                        &&& final(self).upstream == old(self).upstream
                        &&& final(self).prefix@ == old(self).prefix@
                        &&& final(self).level == old(self).level
                        &&& (r.0 matches PluginToSimulator::Failure(e) && e
                            == ErrorKind::ProtocolViolation)
                        &&& r.1@.len() == 0
                    }
                },
            },
    {
        match req {
            SimulatorToPlugin::Initialize(init) => {
                if matches!(self.status, SessionStatus::AwaitingInitialize) {
                    self.status = SessionStatus::Active;
                    self.prefix = init.prefix;
                    self.level = init.level;
                    self.gatestream = GatestreamReceiver::new(SequenceNumber::new(0));
                    let mut up: Option<String> = None;
                    core::mem::swap(&mut up, &mut self.upstream);
                    let resp = PluginInitializeResponse { upstream: up };
                    (PluginToSimulator::Initialized(resp), Vec::new())
                } else {
                    (PluginToSimulator::Failure(ErrorKind::ProtocolViolation), Vec::new())
                }
            },
            SimulatorToPlugin::Abort => {
                if matches!(self.status, SessionStatus::Active) {
                    let flush = self.gatestream.abort();
                    self.status = SessionStatus::Finished;
                    (PluginToSimulator::Success, flush)
                } else {
                    (PluginToSimulator::Failure(ErrorKind::ProtocolViolation), Vec::new())
                }
            },
        }
    }
}

} // verus!
