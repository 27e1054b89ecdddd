//! The two channel capabilities that every layer of the stack offers, and the
//! errors they report.

use core::time::Duration;
use vstd::prelude::*;

verus! {

/// The ways in which a channel operation can fail.
#[derive(Debug, Copy, Clone, PartialEq, Eq, Structural)]
#[non_exhaustive]
pub enum CommunicationError {
    /// A receive failed: the destination was too small, the incoming unit was
    /// malformed or not authentic, or nothing complete arrived in time.
    RecvError,
    /// A send failed: the message was too large for a layer, or the transport
    /// rejected it.
    SendError,
    /// A defect of the implementation; never expected.
    InternalError,
}

/// The inbound half of a channel.
pub trait RxChannel {
    /// Receives one unit into the front of `dest` and returns its length.
    ///
    /// An implementation never writes past `dest` and never changes its
    /// length; whether and what arrives is up to the other side. A failure
    /// is a `RecvError`, or an `InternalError` on a defect.
    fn recv(&mut self, dest: &mut [u8], timeout: Duration) -> (res: Result<
        usize,
        CommunicationError,
    >)
        ensures
            final(dest)@.len() == old(dest)@.len(),
            res matches Ok(n) ==> n <= old(dest)@.len(),
            res matches Err(e) ==> e == CommunicationError::RecvError || e
                == CommunicationError::InternalError,
    ;
}

/// The outbound half of a channel.
pub trait TxChannel {
    /// Sends all of `src` as one unit. The buffer may be used as scratch
    /// space and holds no particular content afterwards. A failure is a
    /// `SendError`, or an `InternalError` on a defect.
    fn send(&mut self, src: &mut [u8]) -> (res: Result<(), CommunicationError>)
        ensures
            final(src)@.len() == old(src)@.len(),
            res matches Err(e) ==> e == CommunicationError::SendError || e
                == CommunicationError::InternalError,
    ;
}

} // verus!
