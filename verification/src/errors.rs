use vstd::prelude::*;

verus! {

/// Reasons a state machine guard refuses a caller's request.
#[derive(Clone, Copy, Debug, PartialEq, Eq, Structural)]
pub enum MessagingError {
    /// The caller is not a recognized participant of the thread, or not the
    /// owner of the channel.
    UnauthorizedSender,
    /// The supplied message index differs from the next expected sequence
    /// value.
    InvalidMessageIndex,
    /// A channel name longer than 32 bytes was supplied at creation.
    ChannelNameTooLong,
    /// Declared for callers, but raised by no operation: closing a thread
    /// removes its record outright, so no operation ever finds a thread in a
    /// closed state.
    ThreadClosed,
}

/// Outcome of an operation against the record store: either a guard of a
/// state machine refused it, or the store itself could not complete it.
#[derive(Clone, Copy, Debug, PartialEq, Eq, Structural)]
pub enum OpError {
    /// A state machine guard rejected the request.
    Refused(MessagingError),
    /// A create operation targeted an address that already holds a record.
    AddressAlreadyExists,
    /// The operation targeted an address that holds no record of the
    /// expected kind.
    AddressNotFound,
    /// A counter increment would exceed its storage width.
    ArithmeticOverflow,
    /// No usable address could be derived from the given inputs.
    DerivationFailed,
}

} // verus!
