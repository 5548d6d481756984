//! Structured log records and the proxy that forwards them to a central
//! ordering point over a channel handed in at construction time.

use vstd::prelude::*;

use crate::errors::ErrorKind;
use vstd::std_specs::convert::FromSpec;

verus! {

/// The severity of one log record.
#[derive(Clone, Copy, Debug, PartialEq, Eq, Structural)]
pub enum Loglevel {
    /// A fatal error; the originator cannot continue.
    Fatal,
    /// A recoverable error.
    Error,
    /// A condition worth warning about.
    Warn,
    /// A notable, always-interesting event.
    Note,
    /// An informational event.
    Info,
    /// Detail useful when debugging.
    Debug,
    /// The finest-grained detail.
    Trace,
}

/// The verbosity limit of a logger: off, or everything up to a severity.
#[derive(Clone, Copy, Debug, PartialEq, Eq, Structural)]
pub enum LoglevelFilter {
    /// Log nothing at all.
    Off,
    /// Log fatal errors only.
    Fatal,
    /// Log errors and worse.
    Error,
    /// Log warnings and worse.
    Warn,
    /// Log notable events and worse.
    Note,
    /// Log informational events and worse.
    Info,
    /// Log debug detail and worse.
    Debug,
    /// Log everything.
    Trace,
}

/// The rank of a verbosity filter.
pub open spec fn filter_rank(f: LoglevelFilter) -> int {
    match f {
        LoglevelFilter::Off => 0,
        LoglevelFilter::Fatal => 1,
        LoglevelFilter::Error => 2,
        LoglevelFilter::Warn => 3,
        LoglevelFilter::Note => 4,
        LoglevelFilter::Info => 5,
        LoglevelFilter::Debug => 6,
        LoglevelFilter::Trace => 7,
    }
}

impl From<Loglevel> for LoglevelFilter {
    /// The filter that admits exactly this severity and worse.
    fn from(l: Loglevel) -> (r: LoglevelFilter) {
        match l {
            Loglevel::Fatal => LoglevelFilter::Fatal,
            Loglevel::Error => LoglevelFilter::Error,
            Loglevel::Warn => LoglevelFilter::Warn,
            Loglevel::Note => LoglevelFilter::Note,
            Loglevel::Info => LoglevelFilter::Info,
            Loglevel::Debug => LoglevelFilter::Debug,
            Loglevel::Trace => LoglevelFilter::Trace,
        }
    }
}

impl vstd::std_specs::convert::FromSpecImpl<Loglevel> for LoglevelFilter {
    open spec fn obeys_from_spec() -> bool {
        true
    }

    open spec fn from_spec(l: Loglevel) -> LoglevelFilter {
        match l {
            Loglevel::Fatal => LoglevelFilter::Fatal,
            Loglevel::Error => LoglevelFilter::Error,
            Loglevel::Warn => LoglevelFilter::Warn,
            Loglevel::Note => LoglevelFilter::Note,
            Loglevel::Info => LoglevelFilter::Info,
            Loglevel::Debug => LoglevelFilter::Debug,
            Loglevel::Trace => LoglevelFilter::Trace,
        }
    }
}

/// Whether a record of severity `l` passes the filter `f`: the record's
/// severity, seen as a filter, must be within the configured limit, so
/// `Off` silences everything and `Trace` admits everything.
pub open spec fn spec_enabled(f: LoglevelFilter, l: Loglevel) -> bool {
    filter_rank(LoglevelFilter::from_spec(l)) <= filter_rank(f)
}

/// One structured log record: the originating logger's name, the
/// severity, and the message.
#[derive(Debug, Clone, PartialEq)]
pub struct Record {
    /// The name of the logger that produced the record.
    pub logger: String,
    /// The record's severity.
    pub level: Loglevel,
    /// The message text.
    pub message: String,
}

/// The sending half of a channel to the central log-ordering point.
/// Implementations are supplied by the embedding application; the proxy
/// only relies on the channel preserving the order of `send` calls from
/// one origin.
pub trait Sender {
    /// What the channel carries.
    type Item;

    /// Hands one item to the channel; fails when the receiving side is
    /// gone.
    fn send(&self, item: Self::Item) -> Result<(), ErrorKind>;
}

/// A logger that forwards each record through its channel sender to the
/// central ordering point.
#[derive(Debug)]
pub struct LogProxy<T: Sender> {
    name: String,
    level: LoglevelFilter,
    sender: T,
}

impl<T: Sender<Item = Record>> LogProxy<T> {
    /// The proxy's logger name.
    pub closed spec fn spec_name(self) -> Seq<char> {
        self.name@
    }

    /// The proxy's verbosity filter.
    pub closed spec fn spec_level(self) -> LoglevelFilter {
        self.level
    }

    /// The channel sender the proxy forwards records through.
    pub closed spec fn spec_sender(self) -> T {
        self.sender
    }

    /// A proxy for the given name, filter and channel sender.
    pub fn new(name: String, level: LoglevelFilter, sender: T) -> (r: LogProxy<T>)
        ensures
            r.spec_name() == name@,
            r.spec_level() == level,
            r.spec_sender() == sender,
    {
        LogProxy { name, level, sender }
    }

    /// A new boxed proxy for the provided name, filter and sender.
    pub fn boxed(name: String, level: LoglevelFilter, sender: T) -> (r: Box<LogProxy<T>>)
        ensures
            r.spec_name() == name@,
            r.spec_level() == level,
            r.spec_sender() == sender,
    {
        Box::new(LogProxy::new(name, level, sender))
    }

    /// The proxy's logger name.
    pub fn name(&self) -> (r: &str)
        ensures
            r@ == self.spec_name(),
    {
        self.name.as_str()
    }

    /// Whether a record of this severity passes the proxy's filter.
    pub fn enabled(&self, level: Loglevel) -> (r: bool)
        ensures
            r == spec_enabled(self.spec_level(), level),
    {
        let record_filter = LoglevelFilter::from(level);
        filter_rank_value(record_filter) <= filter_rank_value(self.level)
    }

    /// Forwards one record to the central ordering point; fails when the
    /// channel's receiving side is gone.
    pub fn log(&self, record: Record) -> (r: Result<(), ErrorKind>) {
        self.sender.send(record)
    }
}

/// The rank of a verbosity filter, for callers.
fn filter_rank_value(f: LoglevelFilter) -> (r: u64)
    ensures
        r == filter_rank(f),
{
    match f {
        LoglevelFilter::Off => 0,
        LoglevelFilter::Fatal => 1,
        LoglevelFilter::Error => 2,
        LoglevelFilter::Warn => 3,
        LoglevelFilter::Note => 4,
        LoglevelFilter::Info => 5,
        LoglevelFilter::Debug => 6,
        LoglevelFilter::Trace => 7,
    }
}

} // verus!
