use vstd::prelude::*;

verus! {

/// Why an event could not be decoded as the expected packet.
#[derive(Debug, Clone, Copy, PartialEq, Eq, Structural)]
pub enum DecodeError {
    /// The event code is not the one the decoder expects.
    UnexpectedEvent,
    /// A command-complete event answers a different command.
    OpcodeMismatch,
    /// The payload is shorter or longer than its layout requires.
    BadLength,
    /// An LE-Meta event carries a sub-event other than the expected one.
    UnexpectedSubEvent,
    /// A field holds a value outside its enumeration or range.
    BadField,
}

/// Every error the adapter reports.
#[derive(Debug, Clone, Copy, PartialEq, Eq, Structural)]
pub enum Error {
    /// A caller-supplied value violates a local precondition; nothing was sent.
    BadParameter,
    /// The controller answered with a non-zero status, carried verbatim.
    ControllerStatus(u8),
    /// The transport failed to write or to read.
    Transport,
    /// A received event could not be parsed as expected.
    Decode(DecodeError),
}

} // verus!
