//! Core of a plugin-based quantum-circuit simulator's inter-process
//! communication layer: qubit references and their generator, measurement
//! results and the set that collects them, gates, the pipelined
//! gatestream protocol that correlates downstream requests with upstream
//! acknowledgements by sequence number, the control-protocol envelope
//! that supervises a gatestream session, and the log proxy.
//!
//! Transport, wire encoding and handle tables are external collaborators;
//! this crate holds the data types and the protocol rules themselves.

pub mod arb;
pub mod assoc;
pub mod errors;
pub mod gate;
pub mod gatestream;
pub mod logproxy;
pub mod measurement;
pub mod protocol;
pub mod qubit;
pub mod session;
