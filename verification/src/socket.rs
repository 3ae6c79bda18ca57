//! The socket a queue moves datagrams through, and how its errors are read.

use vstd::prelude::*;
use crate::inet::SocketAddress;

verus! {

/// A transport error, as far as the engines need to understand it.
///
/// The three queries are independent. An error that answers `false` to all of
/// them is one the engines cannot absorb.
///
/// How an error is classified depends on the error alone: asked again, it
/// answers the same. [`Error::class`] names the three answers, and each query
/// returns its part of them.
pub trait Error {
    /// The answers of this error to the three queries.
    spec fn class(&self) -> ErrorClass;

    /// No datagram is ready, or the send buffer is full.
    fn would_block(&self) -> (answer: bool)
        ensures
            answer == self.class().would_block,
    ;

    /// The call was interrupted before it did anything.
    fn was_interrupted(&self) -> (answer: bool)
        ensures
            answer == self.class().was_interrupted,
    ;

    /// The destination may not be sent to.
    fn permission_denied(&self) -> (answer: bool)
        ensures
            answer == self.class().permission_denied,
    ;
}

/// A connectionless datagram socket that never blocks.
pub trait Socket {
    type Error: Error;

    /// Receives one datagram into `buf` and returns the length the transport
    /// reports and the source address, if it could be determined.
    ///
    /// `buf` is never empty. It keeps its length: a slice cannot grow or
    /// shrink behind a mutable borrow.
    fn recv_from(&self, buf: &mut [u8]) -> (result: Result<(usize, Option<SocketAddress>), Self::Error>)
        requires
            old(buf)@.len() > 0,
        ensures
            final(buf)@.len() == old(buf)@.len(),
    ;

    /// Sends `buf` to `addr` and returns the length sent.
    ///
    /// `buf` is the datagram of one slot. It is empty only if the slot holds
    /// an empty datagram.
    fn send_to(&self, buf: &[u8], addr: &SocketAddress) -> (result: Result<usize, Self::Error>);
}

/// The answers of one error to the three queries of [`Error`].
#[derive(Clone, Copy, Debug, PartialEq, Eq, Structural)]
pub struct ErrorClass {
    pub would_block: bool,
    pub was_interrupted: bool,
    pub permission_denied: bool,
}

/// Asks `error` the three queries and returns its answers.
pub(crate) fn classify<E: Error>(error: &E) -> (class: ErrorClass)
    ensures
        class == error.class(),
{
    ErrorClass {
        would_block: error.would_block(),
        was_interrupted: error.was_interrupted(),
        permission_denied: error.permission_denied(),
    }
}

/// What an engine does with a failed socket call.
#[derive(Clone, Copy, Debug, PartialEq, Eq, Structural)]
pub enum Disposition {
    /// End the batch quietly and report what was moved so far.
    Stop,
    /// End the batch, report the error as telemetry and return it.
    Fail,
}

/// Whether a failed send ends a transmit batch quietly, given that `sent`
/// datagrams of the batch went out before it.
///
/// A full send buffer is absorbed once something was sent; an interrupted
/// call and a rejected destination always are.
pub open spec fn tx_stops(sent: nat, class: ErrorClass) -> bool {
    (sent > 0 && class.would_block) || class.was_interrupted || class.permission_denied
}

/// Whether a failed receive ends a receive batch quietly, given that
/// `received` datagrams of the batch came in before it.
///
/// An empty socket is absorbed once something was received; an interrupted
/// call always is.
pub open spec fn rx_stops(received: nat, class: ErrorClass) -> bool {
    (received > 0 && class.would_block) || class.was_interrupted
}

/// Decides what a transmit batch does with a failed send.
pub fn tx_disposition(sent: usize, class: ErrorClass) -> (disposition: Disposition)
    ensures
        disposition == if tx_stops(sent as nat, class) {
            Disposition::Stop
        } else {
            Disposition::Fail
        },
{
    if (sent > 0 && class.would_block) || class.was_interrupted || class.permission_denied {
        Disposition::Stop
    } else {
        Disposition::Fail
    }
}

/// Decides what a receive batch does with a failed receive.
pub fn rx_disposition(received: usize, class: ErrorClass) -> (disposition: Disposition)
    ensures
        disposition == if rx_stops(received as nat, class) {
            Disposition::Stop
        } else {
            Disposition::Fail
        },
{
    if (received > 0 && class.would_block) || class.was_interrupted {
        Disposition::Stop
    } else {
        Disposition::Fail
    }
}

/// Makes [`std::io::Error`] known to the verifier as an opaque type, so that
/// it can be the error of a socket. Nothing is claimed of its contents.
#[verifier::external_type_specification]
#[verifier::external_body]
pub struct ExIoError(std::io::Error);

/// The kinds of [`std::io::Error`] the engines tell apart.
#[derive(Clone, Copy, Debug, PartialEq, Eq, Structural)]
pub enum IoErrorKind {
    WouldBlock,
    Interrupted,
    PermissionDenied,
    Other,
}

/// The kind that `std::io::Error::kind` reports of `error`, with every kind
/// but the three that the engines absorb counted as `Other`. The kind of an
/// error is part of the error: it does not change while the error lives.
pub uninterp spec fn io_error_kind_of(error: &std::io::Error) -> IoErrorKind;

/// Reads the kind of an I/O error with `std::io::Error::kind` and sorts it
/// into the three kinds the engines absorb and everything else. The contract
/// only gives the answer its name, [`io_error_kind_of`].
#[verifier::external_body]
fn io_error_kind(error: &std::io::Error) -> (kind: IoErrorKind)
    ensures
        kind == io_error_kind_of(error),
{
    match error.kind() {
        std::io::ErrorKind::WouldBlock => IoErrorKind::WouldBlock,
        std::io::ErrorKind::Interrupted => IoErrorKind::Interrupted,
        std::io::ErrorKind::PermissionDenied => IoErrorKind::PermissionDenied,
        _ => IoErrorKind::Other,
    }
}

impl Error for std::io::Error {
    /// An I/O error answers by its kind, so it answers `true` to at most one
    /// query.
    open spec fn class(&self) -> ErrorClass {
        ErrorClass {
            would_block: io_error_kind_of(self) == IoErrorKind::WouldBlock,
            was_interrupted: io_error_kind_of(self) == IoErrorKind::Interrupted,
            permission_denied: io_error_kind_of(self) == IoErrorKind::PermissionDenied,
        }
    }

    fn would_block(&self) -> (answer: bool) {
        io_error_kind(self) == IoErrorKind::WouldBlock
    }

    fn was_interrupted(&self) -> (answer: bool) {
        io_error_kind(self) == IoErrorKind::Interrupted
    }

    fn permission_denied(&self) -> (answer: bool) {
        io_error_kind(self) == IoErrorKind::PermissionDenied
    }
}

/// Reads the calling thread's operating-system error number with
/// `errno::errno`. Nothing is claimed of the value: it is whatever the last
/// failing system call on this thread left behind.
#[verifier::external_body]
pub(crate) fn last_os_error() -> i32 {
    errno::errno().0
}

} // verus!
