//! Core of a structured logging system: event metadata, the level/module
//! filter engine, the bounded asynchronous dispatch queue with its consumer
//! routing, and the decision logic of a reconnecting network sink.
use vstd::prelude::*;

pub mod airbrake;
pub mod builder;
pub mod event;
pub mod filter;
pub mod kv;
pub mod metadata;
pub mod queue;
pub mod service;
pub mod tcp;
pub mod text;

pub use airbrake::{
    parse_backtrace, AirbrakeFormatter, AirbrakeLogger, BacktraceInfo, Context, ErrorInfo, Notice,
    NotifierInfo, Severity, UserInfo,
};
pub use builder::{BuildError, DefaultLoggerBuilder, LoggerPlan, SinkPlan, CHANNEL_SIZE};
pub use event::{capture_backtrace, AsyncEvent};
pub use filter::{
    Directive, Filter, FilterParseError, LevelFilter, StandardFilter, StandardFilterBuilder,
};
pub use kv::{FieldMap, Key};
pub use metadata::{Level, LevelParseError, Metadata};
pub use queue::DispatchQueue;
pub use service::{
    DefaultLoggerService, LoggerServiceDispatcher, LoggerServiceEvent, RecordOutcome, ServiceAction,
};
pub use tcp::{TcpAction, TcpOutcome, TcpStreamHandler, WriteCall};

verus! {

/// A sink's output: takes one fully rendered log line.
pub trait Writer {
    fn write(&self, log: String);
}

/// Whether an HTTP status code acknowledges a delivered report.
pub fn status_accepted(status: u16) -> (r: bool)
    ensures
        r == (status == 200 || status == 201),
{
    status == 200 || status == 201
}

} // verus!
