//! A minimal key-value store speaking a custom binary protocol: byte-level
//! codecs for values, commands and messages, a frame reader over a streaming
//! buffer, a concurrent store keyed by strings, and the dispatch logic that
//! applies a decoded command to the store and produces the reply.

use vstd::prelude::*;
use vstd::string::StringExecFns;

pub mod command;
pub mod connection;
pub mod dispatch;
pub mod message;
pub mod store;
pub mod value;
pub mod wire;

pub use command::Command;
pub use message::Message;
pub use store::Store;
pub use value::Value;

verus! {

/// The default TCP port the service listens on.
pub const DEFAULT_PORT: u16 = 7676;

/// Everything that can go wrong between receiving bytes and producing a
/// reply, layered by where it arose. Transport failures live with the I/O
/// code; only their protocol-level outcome (`ConnectionReset`) is named here.
#[derive(Debug, Clone, Copy, PartialEq, Eq, Structural)]
pub enum Error {
    /// A length-prefixed string holds bytes that are not valid UTF-8.
    InvalidUtf8,
    /// The peer closed the connection in the middle of a frame.
    ConnectionReset,
    /// A string or byte argument is too long for its 16-bit length prefix.
    StringTooLarge,
    /// A buffer failed to yield a message.
    ParseMessage(message::Error),
    /// A message payload failed to yield a command.
    ParseCommand(command::Error),
    /// A stored value blob failed to decode.
    ParseValue(value::Error),
}

impl Error {
    /// The short text of this error, as reported back to a client.
    pub open spec fn spec_text(self) -> Seq<char> {
        match self {
            Error::InvalidUtf8 => "invalid utf8"@,
            Error::ConnectionReset => "connection reset by peer"@,
            Error::StringTooLarge => "string too large"@,
            Error::ParseMessage(_) => "failed to parse message"@,
            Error::ParseCommand(_) => "failed to parse command"@,
            Error::ParseValue(_) => "failed to parse value"@,
        }
    }

    /// Writes the short text of this error.
    pub fn describe(&self) -> (r: String)
        ensures
            r@ == self.spec_text(),
    {
        match self {
            Error::InvalidUtf8 => String::from_str("invalid utf8"),
            Error::ConnectionReset => String::from_str("connection reset by peer"),
            Error::StringTooLarge => String::from_str("string too large"),
            Error::ParseMessage(_) => String::from_str("failed to parse message"),
            Error::ParseCommand(_) => String::from_str("failed to parse command"),
            Error::ParseValue(_) => String::from_str("failed to parse value"),
        }
    }
}

} // verus!
