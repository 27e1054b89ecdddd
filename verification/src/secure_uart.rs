//! The two transports of the system, put together from the layers: one that
//! passes bytes through as they are, and one that frames, encrypts and
//! authenticates every message.

use crate::communication::{CommunicationError, RxChannel, TxChannel};
use crate::crypto::{
    received_from, secured_unit_is_received_whole, sent_as, XChacha20Poly1305RxChannel,
    XChacha20Poly1305TxChannel, MAX_PLAINTEXT, METADATA_LEN, NONCE_LEN,
};
use crate::framing::{payload_of, taken_between, FramedRxChannel, FramedTxChannel};
use crate::random::Csprng;
use core::time::Duration;
use vstd::prelude::*;

verus! {

/// A transport for a link that needs no protection: the raw stream in both
/// directions, with nothing added.
pub struct UnauthenticatedController<T: TxChannel, R: RxChannel> {
    tx: T,
    rx: R,
    handed: Ghost<Seq<Seq<u8>>>,
    taken: Ghost<Seq<Seq<u8>>>,
}

impl<T: TxChannel, R: RxChannel> UnauthenticatedController<T, R> {
    /// The outbound stream.
    pub closed spec fn tx(&self) -> T {
        self.tx
    }

    /// The inbound stream.
    pub closed spec fn rx(&self) -> R {
        self.rx
    }

    /// Everything that was handed to the outbound stream so far, oldest
    /// first, whether the stream took it or not.
    pub closed spec fn handed(&self) -> Seq<Seq<u8>> {
        self.handed@
    }

    /// Everything that the inbound stream has delivered so far, oldest
    /// first.
    pub closed spec fn taken(&self) -> Seq<Seq<u8>> {
        self.taken@
    }

    /// A transport over the two halves of a raw stream.
    pub fn without_key(tx: T, rx: R) -> (controller: Self)
        ensures
            controller.tx() == tx,
            controller.rx() == rx,
            controller.handed() == Seq::<Seq<u8>>::empty(),
            controller.taken() == Seq::<Seq<u8>>::empty(),
    {
        UnauthenticatedController { tx, rx, handed: Ghost(Seq::empty()), taken: Ghost(Seq::empty()) }
    }
}

impl<T: TxChannel, R: RxChannel> TxChannel for UnauthenticatedController<T, R> {
    /// Hands `src` to the outbound stream as it is and returns the stream's
    /// answer; the inbound half is not involved.
    fn send(&mut self, src: &mut [u8]) -> (res: Result<(), CommunicationError>)
        ensures
            final(self).handed() == old(self).handed().push(old(src)@),
            final(self).rx() == old(self).rx(),
            final(self).taken() == old(self).taken(),
    {
        self.handed = Ghost(self.handed@.push(src@));
        self.tx.send(src)
    }
}

impl<T: TxChannel, R: RxChannel> RxChannel for UnauthenticatedController<T, R> {
    /// Receives from the inbound stream straight into `dest` and returns
    /// the stream's answer; the outbound half is not involved.
    fn recv(&mut self, dest: &mut [u8], timeout: Duration) -> (res: Result<
        usize,
        CommunicationError,
    >)
        ensures
            final(self).tx() == old(self).tx(),
            final(self).handed() == old(self).handed(),
            res matches Ok(n) ==> final(self).taken() == old(self).taken().push(
                final(dest)@.take(n as int),
            ),
            res is Err ==> final(self).taken() == old(self).taken(),
    {
        let res = self.rx.recv(dest, timeout);
        if let Ok(n) = res {
            self.taken = Ghost(self.taken@.push(dest@.take(n as int)));
        }
        res
    }
}

/// A transport for the protected link: every message is sealed under the
/// outbound key and framed; every frame that comes in is opened under the
/// inbound key before anything is released.
pub struct AuthenticatedController<T: TxChannel, R: RxChannel> {
    tx: XChacha20Poly1305TxChannel<T>,
    rx: XChacha20Poly1305RxChannel<R>,
}

impl<T: TxChannel, R: RxChannel> AuthenticatedController<T, R> {
    /// The key that outgoing messages are sealed with.
    pub closed spec fn tx_key(&self) -> Seq<u8> {
        self.tx.key()
    }

    /// The key that incoming messages are opened with.
    pub closed spec fn rx_key(&self) -> Seq<u8> {
        self.rx.key()
    }

    /// The generator that the nonces are drawn from.
    pub closed spec fn nonces(&self) -> Csprng {
        self.tx.nonces()
    }

    /// Every frame that was handed to the outbound stream so far, oldest
    /// first, whether the stream took it or not.
    pub closed spec fn handed(&self) -> Seq<Seq<u8>> {
        self.tx.inner().handed()
    }

    /// Every byte that the inbound stream has delivered so far.
    pub closed spec fn taken(&self) -> Seq<u8> {
        self.rx.inner().taken()
    }

    /// A transport over the two halves of a raw stream, with one key for
    /// each direction and nonces drawn from `nonces`.
    pub fn new(tx: T, rx: R, rx_key: &[u8; 32], tx_key: &[u8; 32], nonces: Csprng) -> (controller:
        Self)
        ensures
            controller.tx_key() == tx_key@,
            controller.rx_key() == rx_key@,
            controller.nonces() == nonces,
            controller.handed() == Seq::<Seq<u8>>::empty(),
            controller.taken() == Seq::<u8>::empty(),
    {
        AuthenticatedController {
            tx: XChacha20Poly1305TxChannel::new(FramedTxChannel::new(tx), tx_key, nonces),
            rx: XChacha20Poly1305RxChannel::new(FramedRxChannel::new(rx), rx_key),
        }
    }
}

impl<T: TxChannel, R: RxChannel> TxChannel for AuthenticatedController<T, R> {
    /// Seals `src` under the outbound key with a nonce drawn from the
    /// generator and sends the unit as one frame; the answer of the stream
    /// is returned. A message over the maximum is refused with nothing sent
    /// and nothing changed. `src` itself is never changed, and the inbound
    /// side is not involved.
    fn send(&mut self, src: &mut [u8]) -> (res: Result<(), CommunicationError>)
        ensures
            final(src)@ == old(src)@,
            final(self).tx_key() == old(self).tx_key(),
            final(self).rx_key() == old(self).rx_key(),
            final(self).taken() == old(self).taken(),
            old(src)@.len() > MAX_PLAINTEXT ==> res == Err::<(), CommunicationError>(
                CommunicationError::SendError,
            ) && *final(self) == *old(self),
            old(src)@.len() <= MAX_PLAINTEXT ==> sent_as(
                old(self).tx_key(),
                old(src)@,
                old(self).nonces(),
                final(self).nonces(),
                old(self).handed(),
                final(self).handed(),
            ),
    {
        self.tx.send(src)
    }
}

impl<T: TxChannel, R: RxChannel> RxChannel for AuthenticatedController<T, R> {
    /// Reads one frame into `dest`, which has to hold the whole secured
    /// unit, and opens the unit under the inbound key.
    ///
    /// The outcome follows from what was taken from the stream alone: see
    /// `received_from`. A frame that does not fit, a frame that breaks the
    /// framing rules, a stream that fails or runs dry, and a unit that the
    /// cipher refuses each give `RecvError`; nothing is tried again. The
    /// outbound side is not involved.
    fn recv(&mut self, dest: &mut [u8], timeout: Duration) -> (res: Result<
        usize,
        CommunicationError,
    >)
        ensures
            final(self).tx_key() == old(self).tx_key(),
            final(self).rx_key() == old(self).rx_key(),
            final(self).nonces() == old(self).nonces(),
            final(self).handed() == old(self).handed(),
            old(self).taken().is_prefix_of(final(self).taken()),
            received_from(
                old(self).rx_key(),
                taken_between(old(self).taken(), final(self).taken()),
                old(dest)@,
                res,
                final(dest)@,
            ),
    {
        self.rx.recv(dest, timeout)
    }
}

/// What is sent comes back: when a receive under the same key takes from
/// its stream exactly the frame that a send handed on, into a buffer with
/// room for the whole secured unit, it succeeds and the payload stands at
/// the front of the buffer, exactly as it was sent.
pub proof fn sent_message_is_received(
    key: Seq<u8>,
    payload: Seq<u8>,
    nonces_before: Csprng,
    nonces_after: Csprng,
    handed_before: Seq<Seq<u8>>,
    handed_after: Seq<Seq<u8>>,
    before: Seq<u8>,
    res: Result<usize, CommunicationError>,
    after: Seq<u8>,
)
    requires
        sent_as(key, payload, nonces_before, nonces_after, handed_before, handed_after),
        before.len() >= payload.len() + METADATA_LEN,
        received_from(key, handed_after.last(), before, res, after),
    ensures
        res == Ok::<usize, CommunicationError>(payload.len() as usize),
        after.take(payload.len() as int) == payload,
{
    let frame = handed_after.last();
    let unit = payload_of(frame);
    let nonce = nonces_before.upcoming(NONCE_LEN as nat);
    let front = after.take(unit.len() as int);
    secured_unit_is_received_whole(key, nonce, payload, unit, res, front);
    assert(after.take(payload.len() as int) =~= front.take(payload.len() as int));
    assert(front.take(payload.len() as int) =~= payload);
}

/// A buffer without room for the whole secured unit is refused: when a
/// receive takes from its stream the frame that a send handed on, into a
/// buffer shorter than payload, nonce and tag together, it fails with
/// `RecvError` and the buffer is untouched.
pub proof fn undersized_buffer_is_refused(
    key: Seq<u8>,
    payload: Seq<u8>,
    nonces_before: Csprng,
    nonces_after: Csprng,
    handed_before: Seq<Seq<u8>>,
    handed_after: Seq<Seq<u8>>,
    before: Seq<u8>,
    res: Result<usize, CommunicationError>,
    after: Seq<u8>,
)
    requires
        sent_as(key, payload, nonces_before, nonces_after, handed_before, handed_after),
        before.len() < payload.len() + METADATA_LEN,
        received_from(key, handed_after.last(), before, res, after),
    ensures
        res == Err::<usize, CommunicationError>(CommunicationError::RecvError),
        after == before,
{
}

} // verus!
