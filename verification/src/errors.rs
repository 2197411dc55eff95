//! The error type of the library.

use vstd::prelude::*;
use vstd::string::StringExecFns;

verus! {

/// What went wrong. Each variant carries the message shown to the user;
/// errors that come from the network layer or from an outside parser carry
/// that layer's own description.
#[derive(Debug, Clone)]
pub enum BombError {
    /// Configuration-related errors (command line, validation, ...).
    Config(String),
    /// Network transport errors (connection, protocol, ...).
    Transport(String),
    /// Test execution errors (client failures, timeouts, ...).
    TestExecution(String),
    /// Message processing errors (serialization, ID extraction, ...).
    Message(String),
    /// URL parse errors.
    UrlParse(String),
    /// HTTP request errors.
    HttpRequest(String),
    /// JSON (de)serialization errors.
    JsonSerialization(String),
    /// WebSocket errors.
    WebSocket(String),
}

/// Result type using `BombError`.
pub type Result<T> = std::result::Result<T, BombError>;

/// The label that the user sees before the message of each kind of error.
pub open spec fn error_label(e: BombError) -> Seq<char> {
    match e {
        BombError::Config(_) => "Configuration error: "@,
        BombError::Transport(_) => "Transport error: "@,
        BombError::TestExecution(_) => "Test execution error: "@,
        BombError::Message(_) => "Message error: "@,
        BombError::UrlParse(_) => "URL parse error: "@,
        BombError::HttpRequest(_) => "HTTP request error: "@,
        BombError::JsonSerialization(_) => "JSON serialization error: "@,
        BombError::WebSocket(_) => "WebSocket error: "@,
    }
}

/// The message an error carries.
pub open spec fn error_detail(e: BombError) -> Seq<char> {
    match e {
        BombError::Config(m) => m@,
        BombError::Transport(m) => m@,
        BombError::TestExecution(m) => m@,
        BombError::Message(m) => m@,
        BombError::UrlParse(m) => m@,
        BombError::HttpRequest(m) => m@,
        BombError::JsonSerialization(m) => m@,
        BombError::WebSocket(m) => m@,
    }
}

impl BombError {
    /// A configuration error with the message `msg`.
    pub fn config(msg: String) -> (e: BombError)
        ensures
            e == BombError::Config(msg),
    {
        BombError::Config(msg)
    }

    /// A test execution error with the message `msg`.
    pub fn execution(msg: String) -> (e: BombError)
        ensures
            e == BombError::TestExecution(msg),
    {
        BombError::TestExecution(msg)
    }

    /// The text shown to the user: the kind of error, then its message.
    pub fn describe(&self) -> (s: String)
        ensures
            s@ == error_label(*self) + error_detail(*self),
    {
        let mut s = String::new();
        let detail = match self {
            BombError::Config(m) => {
                s.append("Configuration error: ");
                m
            },
            BombError::Transport(m) => {
                s.append("Transport error: ");
                m
            },
            BombError::TestExecution(m) => {
                s.append("Test execution error: ");
                m
            },
            BombError::Message(m) => {
                s.append("Message error: ");
                m
            },
            BombError::UrlParse(m) => {
                s.append("URL parse error: ");
                m
            },
            BombError::HttpRequest(m) => {
                s.append("HTTP request error: ");
                m
            },
            BombError::JsonSerialization(m) => {
                s.append("JSON serialization error: ");
                m
            },
            BombError::WebSocket(m) => {
                s.append("WebSocket error: ");
                m
            },
        };
        s.append(detail.as_str());
        s
    }
}

/// Turns a missing value into an error of a chosen kind.
pub trait ErrorContext<T>: Sized {
    fn with_config_context(self, msg: &str) -> Result<T>;

    fn with_transport_context(self, msg: &str) -> Result<T>;

    fn with_message_context(self, msg: &str) -> Result<T>;
}

/// A text as a new `String`.
pub fn owned(t: &str) -> (s: String)
    ensures
        s@ == t@,
{
    let mut s = String::new();
    s.append(t);
    s
}

impl<T> ErrorContext<T> for Option<T> {
    fn with_config_context(self, msg: &str) -> (r: Result<T>)
        ensures
            match self {
                Some(v) => r == Ok::<T, BombError>(v),
                None => r matches Err(BombError::Config(m)) && m@ == msg@,
            },
    {
        match self {
            Some(v) => Ok(v),
            None => Err(BombError::Config(owned(msg))),
        }
    }

    fn with_transport_context(self, msg: &str) -> (r: Result<T>)
        ensures
            match self {
                Some(v) => r == Ok::<T, BombError>(v),
                None => r matches Err(BombError::Transport(m)) && m@ == msg@,
            },
    {
        match self {
            Some(v) => Ok(v),
            None => Err(BombError::Transport(owned(msg))),
        }
    }

    fn with_message_context(self, msg: &str) -> (r: Result<T>)
        ensures
            match self {
                Some(v) => r == Ok::<T, BombError>(v),
                None => r matches Err(BombError::Message(m)) && m@ == msg@,
            },
    {
        match self {
            Some(v) => Ok(v),
            None => Err(BombError::Message(owned(msg))),
        }
    }
}

} // verus!
