//! The kinds of failure of the protocol.

use vstd::prelude::*;
use vstd::string::*;

verus! {

/// Why a message could not be encoded, decoded or delivered.
#[derive(Clone, Copy, Debug, PartialEq, Eq, Structural)]
pub enum ProtocolError {
    /// A complete frame held a payload that is no message of the format.
    MalformedPayload,
    /// The stream ended before a complete frame was read.
    ConnectionClosed,
    /// A payload is longer than the frame limit.
    OversizedFrame,
    /// A subscriber of the fan-out channel fell behind and lost the oldest
    /// items that were waiting for it.
    ChannelOverflow,
}

impl ProtocolError {
    /// Whether the connection on which the failure occurred has to be dropped.
    /// Only an overflow of the fan-out channel leaves it open.
    pub open spec fn is_fatal(self) -> bool {
        self != ProtocolError::ChannelOverflow
    }

    /// Whether the connection on which the failure occurred has to be dropped.
    pub fn fatal(&self) -> (fatal: bool)
        ensures
            fatal == self.is_fatal(),
    {
        match self {
            ProtocolError::ChannelOverflow => false,
            _ => true,
        }
    }

    /// The words that describe the failure.
    pub open spec fn text(self) -> Seq<char> {
        match self {
            ProtocolError::MalformedPayload => "malformed payload"@,
            ProtocolError::ConnectionClosed => "connection closed"@,
            ProtocolError::OversizedFrame => "oversized frame"@,
            ProtocolError::ChannelOverflow => "channel overflow"@,
        }
    }

    /// The words that describe the failure.
    pub fn describe(&self) -> (words: String)
        ensures
            words@ == self.text(),
    {
        match self {
            ProtocolError::MalformedPayload => String::from_str("malformed payload"),
            ProtocolError::ConnectionClosed => String::from_str("connection closed"),
            ProtocolError::OversizedFrame => String::from_str("oversized frame"),
            ProtocolError::ChannelOverflow => String::from_str("channel overflow"),
        }
    }
}

} // verus!
