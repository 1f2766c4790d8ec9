//! The library's error type.
use vstd::prelude::*;

verus! {

/// Errors reported by the library. Each variant carries a human-readable
/// detail message.
#[derive(Debug, Clone)]
pub enum Error {
    DeckLink(String),
    Uvc(String),
    Gpu(String),
    Pipeline(String),
    Config(String),
    DeviceNotFound(String),
    DeviceDisconnected(String),
}

/// The prefix under which each kind of error is displayed.
pub open spec fn error_prefix(e: Error) -> Seq<char> {
    match e {
        Error::DeckLink(_) => "DeckLink error: "@,
        Error::Uvc(_) => "UVC error: "@,
        Error::Gpu(_) => "GPU error: "@,
        Error::Pipeline(_) => "Pipeline error: "@,
        Error::Config(_) => "Config error: "@,
        Error::DeviceNotFound(_) => "Device not found: "@,
        Error::DeviceDisconnected(_) => "Device disconnected: "@,
    }
}

/// The detail message carried by an error.
pub open spec fn error_detail(e: Error) -> Seq<char> {
    match e {
        Error::DeckLink(m) => m@,
        Error::Uvc(m) => m@,
        Error::Gpu(m) => m@,
        Error::Pipeline(m) => m@,
        Error::Config(m) => m@,
        Error::DeviceNotFound(m) => m@,
        Error::DeviceDisconnected(m) => m@,
    }
}

impl Error {
    /// The displayed form of the error: its kind's prefix followed by the
    /// detail message, e.g. "Config error: at least one output is required".
    pub fn to_string(&self) -> (s: String)
        ensures
            s@ == error_prefix(*self) + error_detail(*self),
    {
        let (prefix, detail): (&str, &String) = match self {
            Error::DeckLink(m) => ("DeckLink error: ", m),
            Error::Uvc(m) => ("UVC error: ", m),
            Error::Gpu(m) => ("GPU error: ", m),
            Error::Pipeline(m) => ("Pipeline error: ", m),
            Error::Config(m) => ("Config error: ", m),
            Error::DeviceNotFound(m) => ("Device not found: ", m),
            Error::DeviceDisconnected(m) => ("Device disconnected: ", m),
        };
        String::from_str(prefix).concat(detail.as_str())
    }
}

} // verus!
