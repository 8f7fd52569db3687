//! Runtime build configuration: the link transport, its validation, and the
//! build and shutdown errors.
use vstd::prelude::*;

use crate::domain::dup_opt_string;
use crate::ledger::concat;

verus! {

/// Default capacity of the runtime's event broadcast.
pub const DEFAULT_EVENT_CHANNEL_CAPACITY: usize = 512;

/// Which transport carries the runtime↔authority-server link.
#[derive(Debug, PartialEq, Eq)]
pub enum BackendTransportConfig {
    /// The co-located authority server, called in process (the default).
    InProcess,
    /// An authority server serving the link wire elsewhere, with an optional
    /// bearer token.
    Remote { base_url: String, token: Option<String> },
}

impl Default for BackendTransportConfig {
    fn default() -> (r: Self)
        ensures
            r == BackendTransportConfig::InProcess,
    {
        BackendTransportConfig::InProcess
    }
}

impl BackendTransportConfig {
    pub fn duplicate(&self) -> (r: Self)
        ensures
            r == *self,
    {
        match self {
            BackendTransportConfig::InProcess => BackendTransportConfig::InProcess,
            BackendTransportConfig::Remote { base_url, token } => BackendTransportConfig::Remote {
                base_url: base_url.clone(),
                token: dup_opt_string(token),
            },
        }
    }
}

/// Why a runtime could not be built. Errors of the store, the service and the
/// config loader are carried as their messages.
#[derive(Debug, PartialEq, Eq)]
pub enum RuntimeBuildError {
    Config(String),
    Store(String),
    Service(String),
    InvalidConfig(String),
    Io { path: String, message: String },
    BootstrapRead { path: String, message: String },
    BootstrapParse { path: String, message: String },
    Clock(String),
}

pub open spec fn spec_build_error_message(e: RuntimeBuildError) -> Seq<char> {
    match e {
        RuntimeBuildError::Config(m) => "config error: "@ + m@,
        RuntimeBuildError::Store(m) => "store error: "@ + m@,
        RuntimeBuildError::Service(m) => "service error: "@ + m@,
        RuntimeBuildError::InvalidConfig(m) => "invalid runtime build config: "@ + m@,
        RuntimeBuildError::Io { path, message } => "io error for "@ + path@ + ": "@ + message@,
        RuntimeBuildError::BootstrapRead { path, message } => "failed to read bootstrap config "@
            + path@ + ": "@ + message@,
        RuntimeBuildError::BootstrapParse { path, message } => "failed to parse bootstrap config "@
            + path@ + ": "@ + message@,
        RuntimeBuildError::Clock(m) => "failed to read runtime clock: "@ + m@,
    }
}

fn join3(a: &str, b: &str, c: &str) -> (r: String)
    ensures
        r@ == a@ + b@ + c@,
{
    let head = concat(a, b);
    concat(head.as_str(), c)
}

fn join4(a: &str, b: &str, c: &str, d: &str) -> (r: String)
    ensures
        r@ == a@ + b@ + c@ + d@,
{
    let head = join3(a, b, c);
    concat(head.as_str(), d)
}

impl RuntimeBuildError {
    /// The error's display text.
    pub fn message(&self) -> (r: String)
        ensures
            r@ == spec_build_error_message(*self),
    {
        match self {
            RuntimeBuildError::Config(m) => concat("config error: ", m.as_str()),
            RuntimeBuildError::Store(m) => concat("store error: ", m.as_str()),
            RuntimeBuildError::Service(m) => concat("service error: ", m.as_str()),
            RuntimeBuildError::InvalidConfig(m) => concat(
                "invalid runtime build config: ",
                m.as_str(),
            ),
            RuntimeBuildError::Io { path, message } => join4(
                "io error for ",
                path.as_str(),
                ": ",
                message.as_str(),
            ),
            RuntimeBuildError::BootstrapRead { path, message } => join4(
                "failed to read bootstrap config ",
                path.as_str(),
                ": ",
                message.as_str(),
            ),
            RuntimeBuildError::BootstrapParse { path, message } => join4(
                "failed to parse bootstrap config ",
                path.as_str(),
                ": ",
                message.as_str(),
            ),
            RuntimeBuildError::Clock(m) => concat("failed to read runtime clock: ", m.as_str()),
        }
    }
}

/// Why a runtime shutdown failed.
#[derive(Debug, PartialEq, Eq)]
pub enum RuntimeShutdownError {
    Failed(String),
}

impl RuntimeShutdownError {
    /// The error's display text.
    pub fn message(&self) -> (r: String)
        ensures
            r@ == "runtime shutdown failed: "@ + match self {
                RuntimeShutdownError::Failed(m) => m@,
            },
    {
        match self {
            RuntimeShutdownError::Failed(m) => concat("runtime shutdown failed: ", m.as_str()),
        }
    }
}

pub const ZERO_CAPACITY_MESSAGE: &'static str = "event_channel_capacity must be greater than zero";

pub const REMOTE_REQUIRED_MESSAGE: &'static str =
    "a remote runtime requires a remote backend transport";

/// The remote link a near-node runtime is built over: its base URL and
/// token. The event channel must have room, and the transport must be remote.
pub fn remote_link_target(event_channel_capacity: usize, transport: BackendTransportConfig) -> (r:
    Result<(String, Option<String>), RuntimeBuildError>)
    ensures
        event_channel_capacity == 0 ==> (r matches Err(RuntimeBuildError::InvalidConfig(m)) && m@
            == ZERO_CAPACITY_MESSAGE@),
        event_channel_capacity > 0 ==> match transport {
            BackendTransportConfig::InProcess => (r matches Err(
                RuntimeBuildError::InvalidConfig(m),
            ) && m@ == REMOTE_REQUIRED_MESSAGE@),
            BackendTransportConfig::Remote { base_url, token } => r == Ok::<
                (String, Option<String>),
                RuntimeBuildError,
            >((base_url, token)),
        },
{
    if event_channel_capacity == 0 {
        return Err(RuntimeBuildError::InvalidConfig(crate::errors::owned(ZERO_CAPACITY_MESSAGE)));
    }
    match transport {
        BackendTransportConfig::Remote { base_url, token } => Ok((base_url, token)),
        BackendTransportConfig::InProcess => Err(
            RuntimeBuildError::InvalidConfig(crate::errors::owned(REMOTE_REQUIRED_MESSAGE)),
        ),
    }
}

/// `base_url` without trailing `/`, so `base_url + path` never doubles it.
pub fn trim_base_url(base_url: &str) -> (r: String)
    ensures
        r@ == crate::text::spec_trim_end_char(base_url@, '/'),
{
    let v = crate::text::chars_of(base_url);
    let t = crate::text::trim_end_char(v.as_slice(), '/');
    crate::text::string_of(t.as_slice())
}

} // verus!
