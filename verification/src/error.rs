//! Errors of the monitor.

use vstd::prelude::*;

verus! {

/// What can go wrong in the monitor.
#[derive(Debug)]
pub enum MonitorError {
    /// The system's baseline figures could not be read at start.
    SystemInit(String),
    /// A tick could not be collected.
    Collection(String),
    /// No supported graphics processor is present.
    GpuNotAvailable,
    /// The configuration could not be read or written.
    Config(String),
    /// The terminal could not be set up or restored.
    Terminal(String),
    /// An input or output operation failed.
    Io(String),
}

/// The text before the detail of each error that carries one.
pub open spec fn error_prefix(error: MonitorError) -> Seq<char> {
    match error {
        MonitorError::SystemInit(_) => "Failed to initialize system info: "@,
        MonitorError::Collection(_) => "Failed to collect metrics: "@,
        MonitorError::GpuNotAvailable => "GPU not available or not supported"@,
        MonitorError::Config(_) => "Configuration error: "@,
        MonitorError::Terminal(_) => "Terminal error: "@,
        MonitorError::Io(_) => "IO error: "@,
    }
}

/// The detail that an error carries, empty where it carries none.
pub open spec fn error_detail(error: MonitorError) -> Seq<char> {
    match error {
        MonitorError::SystemInit(detail) => detail@,
        MonitorError::Collection(detail) => detail@,
        MonitorError::GpuNotAvailable => Seq::empty(),
        MonitorError::Config(detail) => detail@,
        MonitorError::Terminal(detail) => detail@,
        MonitorError::Io(detail) => detail@,
    }
}

impl MonitorError {
    /// The message that describes the error to the user.
    pub fn message(&self) -> (text: String)
        ensures
            text@ == error_prefix(*self) + error_detail(*self),
    {
        let (prefix, detail): (&str, &str) = match self {
            MonitorError::SystemInit(detail) => (
                "Failed to initialize system info: ",
                detail.as_str(),
            ),
            MonitorError::Collection(detail) => ("Failed to collect metrics: ", detail.as_str()),
            MonitorError::GpuNotAvailable => ("GPU not available or not supported", ""),
            MonitorError::Config(detail) => ("Configuration error: ", detail.as_str()),
            MonitorError::Terminal(detail) => ("Terminal error: ", detail.as_str()),
            MonitorError::Io(detail) => ("IO error: ", detail.as_str()),
        };
        proof {
            reveal_strlit("");
        }
        let mut text = String::from_str(prefix);
        text.append(detail);
        assert(text@ =~= error_prefix(*self) + error_detail(*self));
        text
    }
}

} // verus!
