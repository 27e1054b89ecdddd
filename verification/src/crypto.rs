//! Authenticated encryption of one message with XChaCha20-Poly1305, and the
//! layout of a secured unit: nonce, then ciphertext, then tag.

use crate::communication::{CommunicationError, RxChannel, TxChannel};
use crate::framing::{
    declared_len, frame_of, frame_round_trip, is_frame, payload_of, taken_between,
    FramedRxChannel, FramedTxChannel,
};
use crate::random::{drawn_from, Csprng};
use core::time::Duration;
use chacha20poly1305::{AeadInPlace, KeyInit, XChaCha20Poly1305};
use vstd::prelude::*;

verus! {

/// The length of a key in bytes.
pub const KEY_LEN: usize = 32;

/// The length of a nonce in bytes.
pub const NONCE_LEN: usize = 24;

/// The length of an authentication tag in bytes.
pub const TAG_LEN: usize = 16;

/// What a secured unit carries besides the ciphertext: nonce and tag.
pub const METADATA_LEN: usize = 40;

/// The largest payload that still fits one frame once it is secured.
pub const MAX_PLAINTEXT: usize = 984;

/// The largest secured unit: the largest payload with its nonce and tag,
/// which is also the most that one frame carries.
pub const MAX_UNIT_LEN: usize = 1024;

/// The error type of the cipher; it says nothing beyond "failed".
#[verifier::external_type_specification]
#[verifier::external_body]
pub struct ExAeadError(chacha20poly1305::Error);

/// The ciphertext followed by the tag that XChaCha20-Poly1305 produces for
/// `plaintext` under `key` and `nonce`, with no associated data.
pub uninterp spec fn xchacha20poly1305_seal(key: Seq<u8>, nonce: Seq<u8>, plaintext: Seq<u8>) -> Seq<u8>;

/// The plaintext that XChaCha20-Poly1305 releases for `sealed` (ciphertext
/// followed by tag) under `key` and `nonce`, or `None` where it refuses.
pub uninterp spec fn xchacha20poly1305_open(key: Seq<u8>, nonce: Seq<u8>, sealed: Seq<u8>) -> Option<Seq<u8>>;

/// `sealed` is the sealing of `plaintext` under `key` and `nonce`: it is what
/// the cipher produces, it is one tag longer than the plaintext, and the
/// cipher opens it to the plaintext again.
pub open spec fn seals(key: Seq<u8>, nonce: Seq<u8>, plaintext: Seq<u8>, sealed: Seq<u8>) -> bool {
    &&& sealed == xchacha20poly1305_seal(key, nonce, plaintext)
    &&& sealed.len() == plaintext.len() + TAG_LEN
    &&& xchacha20poly1305_open(key, nonce, sealed) == Some(plaintext)
}

/// Encrypts `buffer` in place with `XChaCha20Poly1305::encrypt_in_place_detached`
/// (no associated data), on a cipher made from `key` with
/// `XChaCha20Poly1305::new`, and returns the tag.
///
/// Only for a buffer no longer than the largest payload. Trusted: on such a
/// buffer the cipher succeeds and keeps the length, and what it produces is
/// the sealing of what was in the buffer, which the same key and nonce open
/// again.
#[verifier::external_body]
fn seal_in_place(key: &[u8; 32], nonce: &[u8; 24], buffer: &mut Vec<u8>) -> (res: Result<
    [u8; 16],
    chacha20poly1305::Error,
>)
    requires
        old(buffer)@.len() <= MAX_PLAINTEXT,
    ensures
        final(buffer)@.len() == old(buffer)@.len(),
        res is Ok,
        res matches Ok(tag) ==> final(buffer)@ + tag@ == xchacha20poly1305_seal(
            key@,
            nonce@,
            old(buffer)@,
        ),
        res matches Ok(tag) ==> xchacha20poly1305_open(key@, nonce@, final(buffer)@ + tag@)
            == Some(old(buffer)@),
{
    let cipher = XChaCha20Poly1305::new(key.into());
    let tag = cipher.encrypt_in_place_detached(nonce.into(), &[], buffer.as_mut_slice())?;
    Ok(tag.into())
}

/// Verifies `tag` over `buffer` and, if it matches, decrypts `buffer` in
/// place, with `XChaCha20Poly1305::decrypt_in_place_detached` (no associated
/// data) on a cipher made from `key` with `XChaCha20Poly1305::new`.
///
/// Only for a buffer no longer than the largest payload. Trusted: the
/// cipher keeps the length; on failure it leaves the buffer untouched; on
/// success the buffer holds the plaintext, and sealing that plaintext under
/// the same key and nonce gives back exactly the ciphertext and tag that
/// were presented.
#[verifier::external_body]
fn open_in_place(key: &[u8; 32], nonce: &[u8; 24], buffer: &mut Vec<u8>, tag: &[u8; 16]) -> (res:
    Result<(), chacha20poly1305::Error>)
    requires
        old(buffer)@.len() <= MAX_PLAINTEXT,
    ensures
        final(buffer)@.len() == old(buffer)@.len(),
        res is Ok <==> xchacha20poly1305_open(key@, nonce@, old(buffer)@ + tag@) is Some,
        res is Ok ==> xchacha20poly1305_open(key@, nonce@, old(buffer)@ + tag@) == Some(
            final(buffer)@,
        ),
        res is Ok ==> xchacha20poly1305_seal(key@, nonce@, final(buffer)@) == old(buffer)@
            + tag@,
        res is Err ==> final(buffer)@ == old(buffer)@,
{
    let cipher = XChaCha20Poly1305::new(key.into());
    cipher.decrypt_in_place_detached(nonce.into(), &[], buffer.as_mut_slice(), tag.into())
}

/// `n` zero bytes.
pub open spec fn zeros(n: int) -> Seq<u8> {
    Seq::new(n as nat, |i: int| 0u8)
}

/// What the receiving side releases for `unit`: nothing for a unit too short
/// to hold a nonce and a tag or longer than any unit that is ever sent, else
/// what the cipher releases for the bytes after the nonce.
pub open spec fn opened_unit(key: Seq<u8>, unit: Seq<u8>) -> Option<Seq<u8>> {
    if unit.len() < METADATA_LEN || unit.len() > MAX_UNIT_LEN {
        None
    } else {
        xchacha20poly1305_open(key, unit.take(NONCE_LEN as int), unit.skip(NONCE_LEN as int))
    }
}

/// `unit` is the secured form of `payload` under `key` and `nonce`: the nonce,
/// then the sealing of the payload, which is within the maximum.
pub open spec fn is_secured_unit(
    key: Seq<u8>,
    nonce: Seq<u8>,
    payload: Seq<u8>,
    unit: Seq<u8>,
) -> bool {
    &&& payload.len() <= MAX_PLAINTEXT
    &&& nonce.len() == NONCE_LEN
    &&& unit.len() == payload.len() + METADATA_LEN
    &&& unit.take(NONCE_LEN as int) == nonce
    &&& seals(key, nonce, payload, unit.skip(NONCE_LEN as int))
}

/// The receiving side under `key` releases `payload` for `unit`, and `unit`
/// is the very unit that securing `payload` with the unit's nonce gives.
pub open spec fn releases(key: Seq<u8>, unit: Seq<u8>, payload: Seq<u8>) -> bool {
    &&& unit.len() == payload.len() + METADATA_LEN
    &&& opened_unit(key, unit) == Some(payload)
    &&& seals(key, unit.take(NONCE_LEN as int), payload, unit.skip(NONCE_LEN as int))
}

/// How a receive under `key` ends once the channel underneath has delivered
/// `unit` to the front of the buffer: if the cipher releases a payload, with
/// the payload in the unit's place and the rest of that place wiped; else
/// with `RecvError` and the whole place wiped. `front` is the buffer
/// afterwards, as far as the unit reached.
pub open spec fn received_as(
    key: Seq<u8>,
    unit: Seq<u8>,
    res: Result<usize, CommunicationError>,
    front: Seq<u8>,
) -> bool {
    match opened_unit(key, unit) {
        Some(payload) => {
            &&& res == Ok::<usize, CommunicationError>((unit.len() - METADATA_LEN) as usize)
            &&& releases(key, unit, payload)
            &&& front == payload + zeros(METADATA_LEN as int)
        },
        None => {
            &&& res == Err::<usize, CommunicationError>(CommunicationError::RecvError)
            &&& front == zeros(unit.len() as int)
        },
    }
}

/// Copies `src[from..to]` into a fresh vector.
fn copy_range(src: &[u8], from: usize, to: usize) -> (out: Vec<u8>)
    requires
        from <= to <= src@.len(),
    ensures
        out@ == src@.subrange(from as int, to as int),
{
    let mut out: Vec<u8> = Vec::new();
    let mut i: usize = from;
    while i < to
        invariant
            from <= i <= to <= src@.len(),
            out@ == src@.subrange(from as int, i as int),
        decreases to - i,
    {
        out.push(src[i]);
        i += 1;
    }
    out
}

/// Lays out a secured unit: the nonce, then the ciphertext, then the tag.
pub fn assemble_unit(nonce: &[u8; 24], ciphertext: &[u8], tag: &[u8; 16]) -> (unit: Vec<u8>)
    ensures
        unit@ == nonce@ + ciphertext@ + tag@,
{
    let n: usize = ciphertext.len();
    let mut unit: Vec<u8> = Vec::new();
    let mut i: usize = 0;
    while i < NONCE_LEN
        invariant
            i <= NONCE_LEN,
            unit@ == nonce@.take(i as int),
        decreases NONCE_LEN - i,
    {
        unit.push(nonce[i]);
        i += 1;
    }
    let mut j: usize = 0;
    while j < n
        invariant
            j <= n,
            n == ciphertext@.len(),
            unit@ == nonce@ + ciphertext@.take(j as int),
        decreases n - j,
    {
        unit.push(ciphertext[j]);
        j += 1;
    }
    let mut k: usize = 0;
    while k < TAG_LEN
        invariant
            k <= TAG_LEN,
            unit@ == nonce@ + ciphertext@ + tag@.take(k as int),
        decreases TAG_LEN - k,
    {
        unit.push(tag[k]);
        k += 1;
    }
    unit
}

/// Secures `payload`: the result is the nonce, then the ciphertext, then the
/// tag. A payload over the maximum is refused.
pub fn secure_unit(key: &[u8; 32], nonce: &[u8; 24], payload: &[u8]) -> (res: Result<
    Vec<u8>,
    CommunicationError,
>)
    ensures
        res is Ok <==> payload@.len() <= MAX_PLAINTEXT,
        res matches Ok(unit) ==> is_secured_unit(key@, nonce@, payload@, unit@),
        res matches Err(e) ==> e == CommunicationError::SendError,
{
    let n: usize = payload.len();
    if n > MAX_PLAINTEXT {
        return Err(CommunicationError::SendError);
    }
    let mut body: Vec<u8> = copy_range(payload, 0, n);
    assert(body@ == payload@);
    match seal_in_place(key, nonce, &mut body) {
        Err(_) => Err(CommunicationError::SendError),
        Ok(tag) => {
            let unit = assemble_unit(nonce, body.as_slice(), &tag);
            assert(unit@.take(NONCE_LEN as int) == nonce@);
            assert(unit@.skip(NONCE_LEN as int) == body@ + tag@);
            Ok(unit)
        },
    }
}

/// The three parts of a secured unit.
pub struct UnitParts {
    /// The nonce the unit was sealed with.
    pub nonce: [u8; 24],
    /// The encrypted payload.
    pub ciphertext: Vec<u8>,
    /// The authentication tag.
    pub tag: [u8; 16],
}

/// Takes a unit apart into nonce, ciphertext and tag. A unit too short to
/// hold a nonce and a tag has no parts.
pub fn split_unit(unit: &[u8]) -> (parts: Option<UnitParts>)
    ensures
        parts is Some <==> unit@.len() >= METADATA_LEN,
        parts matches Some(p) ==> {
            &&& p.nonce@ == unit@.take(NONCE_LEN as int)
            &&& p.ciphertext@ == unit@.subrange(NONCE_LEN as int, unit@.len() - TAG_LEN)
            &&& p.tag@ == unit@.skip(unit@.len() - TAG_LEN)
        },
{
    let n: usize = unit.len();
    if n < METADATA_LEN {
        return None;
    }
    let m: usize = n - METADATA_LEN;
    let mut nonce: [u8; 24] = [0u8; 24];
    let mut i: usize = 0;
    while i < NONCE_LEN
        invariant
            i <= NONCE_LEN <= n,
            n == unit@.len(),
            forall|j: int| 0 <= j < i ==> nonce@[j] == unit@[j],
        decreases NONCE_LEN - i,
    {
        nonce[i] = unit[i];
        i += 1;
    }
    let mut tag: [u8; 16] = [0u8; 16];
    let mut k: usize = 0;
    while k < TAG_LEN
        invariant
            k <= TAG_LEN,
            n == m + METADATA_LEN,
            n == unit@.len(),
            forall|j: int| 0 <= j < k ==> tag@[j] == unit@[NONCE_LEN + m + j],
        decreases TAG_LEN - k,
    {
        tag[k] = unit[NONCE_LEN + m + k];
        k += 1;
    }
    let ciphertext: Vec<u8> = copy_range(unit, NONCE_LEN, NONCE_LEN + m);
    Some(UnitParts { nonce, ciphertext, tag })
}

/// Overwrites `dest[from..to]` with zero bytes.
fn wipe(dest: &mut [u8], from: usize, to: usize)
    requires
        from <= to <= old(dest)@.len(),
    ensures
        final(dest)@ == old(dest)@.take(from as int) + zeros(to - from) + old(dest)@.skip(
            to as int,
        ),
{
    let mut i: usize = from;
    while i < to
        invariant
            from <= i <= to <= dest@.len(),
            dest@.len() == old(dest)@.len(),
            dest@ == old(dest)@.take(from as int) + zeros(i - from) + old(dest)@.skip(i as int),
        decreases to - i,
    {
        dest[i] = 0;
        i += 1;
    }
}

/// Settles a received unit of `n` bytes at the front of `dest` once the
/// cipher has spoken.
///
/// If the cipher released a payload, it is put at the front of `dest`, the
/// rest of the unit's bytes are wiped and the payload's length is returned.
/// If it released nothing, the whole unit is wiped and the result is
/// `RecvError`. Bytes of `dest` past the unit are never touched. A count
/// larger than `dest`, or a payload that is not exactly a nonce and a tag
/// shorter than the unit, can only come from a defect and gives
/// `InternalError`.
pub fn settle_unit(dest: &mut [u8], n: usize, released: Option<Vec<u8>>) -> (res: Result<
    usize,
    CommunicationError,
>)
    ensures
        final(dest)@.len() == old(dest)@.len(),
        res is Ok <==> n <= old(dest)@.len() && (released matches Some(p) && p@.len()
            + METADATA_LEN == n),
        res matches Ok(m) ==> m == released->0@.len() && final(dest)@ == released->0@ + zeros(
            METADATA_LEN as int,
        ) + old(dest)@.skip(n as int),
        res matches Err(e) ==> if n > old(dest)@.len() {
            e == CommunicationError::InternalError && final(dest)@ == old(dest)@
        } else {
            &&& final(dest)@ == zeros(n as int) + old(dest)@.skip(n as int)
            &&& released is None ==> e == CommunicationError::RecvError
            &&& released is Some ==> e == CommunicationError::InternalError
        },
{
    if n > dest.len() {
        return Err(CommunicationError::InternalError);
    }
    match released {
        None => {
            wipe(dest, 0, n);
            Err(CommunicationError::RecvError)
        },
        Some(payload) => {
            let m: usize = payload.len();
            if n < METADATA_LEN || m != n - METADATA_LEN {
                wipe(dest, 0, n);
                return Err(CommunicationError::InternalError);
            }
            let mut p: usize = 0;
            while p < m
                invariant
                    p <= m,
                    m == payload@.len(),
                    n == m + METADATA_LEN,
                    n <= dest@.len(),
                    dest@.len() == old(dest)@.len(),
                    dest@ == payload@.take(p as int) + old(dest)@.skip(p as int),
                decreases m - p,
            {
                dest[p] = payload[p];
                p += 1;
            }
            wipe(dest, m, n);
            Ok(m)
        },
    }
}

/// Opens the secured unit that occupies the first `n` bytes of `dest`, in
/// place.
///
/// On success the payload stands at the front of `dest` and its length is
/// returned; the rest of the unit's bytes are wiped. A unit that is too
/// short, longer than any unit that is ever sent, or that the cipher refuses
/// gives `RecvError`, and the whole unit is wiped: nothing that was not
/// authenticated stays behind. Bytes of `dest`
/// past the unit are never touched. A count larger than `dest` cannot have
/// come from a channel and gives `InternalError`.
pub fn open_unit(key: &[u8; 32], dest: &mut [u8], n: usize) -> (res: Result<
    usize,
    CommunicationError,
>)
    ensures
        final(dest)@.len() == old(dest)@.len(),
        res is Ok <==> n <= old(dest)@.len() && opened_unit(key@, old(dest)@.take(n as int))
            is Some,
        res matches Ok(m) ==> {
            let unit = old(dest)@.take(n as int);
            let payload = final(dest)@.take(m as int);
            &&& m == n - METADATA_LEN
            &&& opened_unit(key@, unit) == Some(payload)
            &&& seals(key@, unit.take(NONCE_LEN as int), payload, unit.skip(NONCE_LEN as int))
            &&& final(dest)@ == payload + zeros(METADATA_LEN as int) + old(dest)@.skip(n as int)
        },
        res matches Err(e) ==> if n > old(dest)@.len() {
            e == CommunicationError::InternalError && final(dest)@ == old(dest)@
        } else {
            e == CommunicationError::RecvError && final(dest)@ == zeros(n as int) + old(dest)@.skip(
                n as int,
            )
        },
{
    if n > dest.len() {
        return Err(CommunicationError::InternalError);
    }
    let ghost unit = dest@.take(n as int);
    if n > MAX_UNIT_LEN {
        return settle_unit(dest, n, None);
    }
    let received: Vec<u8> = copy_range(dest, 0, n);
    match split_unit(received.as_slice()) {
        None => settle_unit(dest, n, None),
        Some(parts) => {
            let mut body: Vec<u8> = parts.ciphertext;
            assert(body@ + parts.tag@ == unit.skip(NONCE_LEN as int));
            match open_in_place(key, &parts.nonce, &mut body, &parts.tag) {
                Err(_) => settle_unit(dest, n, None),
                Ok(()) => settle_unit(dest, n, Some(body)),
            }
        },
    }
}

/// Securing loses nothing: a receive to which the channel underneath
/// delivers the secured form of a payload succeeds, and the payload stands
/// at the front of the buffer, exactly as it was sent.
pub proof fn secured_unit_is_received_whole(
    key: Seq<u8>,
    nonce: Seq<u8>,
    payload: Seq<u8>,
    unit: Seq<u8>,
    res: Result<usize, CommunicationError>,
    front: Seq<u8>,
)
    requires
        is_secured_unit(key, nonce, payload, unit),
        received_as(key, unit, res, front),
    ensures
        opened_unit(key, unit) == Some(payload),
        res == Ok::<usize, CommunicationError>(payload.len() as usize),
        front == payload + zeros(METADATA_LEN as int),
{
}

/// A changed unit never passes for the one that was sent: if ciphertext or
/// tag differ from those that were sent, the receive either fails with
/// `RecvError` and leaves nothing of the unit behind, or releases something
/// other than the payload that was sent.
pub proof fn changed_unit_is_not_what_was_sent(
    key: Seq<u8>,
    nonce: Seq<u8>,
    payload: Seq<u8>,
    unit: Seq<u8>,
    changed: Seq<u8>,
    res: Result<usize, CommunicationError>,
    front: Seq<u8>,
)
    requires
        is_secured_unit(key, nonce, payload, unit),
        changed.len() == unit.len(),
        changed.take(NONCE_LEN as int) == nonce,
        changed != unit,
        received_as(key, changed, res, front),
    ensures
        res matches Ok(m) ==> front.take(m as int) != payload,
        res matches Err(e) ==> e == CommunicationError::RecvError && front == zeros(
            changed.len() as int,
        ),
{
    if let Some(accepted) = opened_unit(key, changed) {
        assert(front.take(accepted.len() as int) =~= accepted);
        if accepted == payload {
            assert(changed =~= changed.take(NONCE_LEN as int) + changed.skip(NONCE_LEN as int));
            assert(unit =~= unit.take(NONCE_LEN as int) + unit.skip(NONCE_LEN as int));
        }
    }
}

/// An outbound channel that secures each message and sends the unit as one
/// frame.
pub struct XChacha20Poly1305TxChannel<T: TxChannel> {
    inner: FramedTxChannel<T>,
    key: [u8; 32],
    nonces: Csprng,
}

impl<T: TxChannel> XChacha20Poly1305TxChannel<T> {
    /// The framing layer underneath.
    pub closed spec fn inner(&self) -> FramedTxChannel<T> {
        self.inner
    }

    /// The key that messages are sealed with.
    pub closed spec fn key(&self) -> Seq<u8> {
        self.key@
    }

    /// The generator that the nonces are drawn from.
    pub closed spec fn nonces(&self) -> Csprng {
        self.nonces
    }

    /// Puts encryption under `key` on top of `inner`, with nonces drawn from
    /// `nonces`.
    pub fn new(inner: FramedTxChannel<T>, key: &[u8; 32], nonces: Csprng) -> (channel: Self)
        ensures
            channel.inner() == inner,
            channel.key() == key@,
            channel.nonces() == nonces,
    {
        XChacha20Poly1305TxChannel { inner, key: *key, nonces }
    }
}

/// What a send of `payload` under `key` does: it draws the generator's next
/// 24 bytes as the nonce, and hands the framing layer one frame, which
/// carries the payload secured with that nonce.
pub open spec fn sent_as(
    key: Seq<u8>,
    payload: Seq<u8>,
    nonces_before: Csprng,
    nonces_after: Csprng,
    handed_before: Seq<Seq<u8>>,
    handed_after: Seq<Seq<u8>>,
) -> bool {
    let nonce = nonces_before.upcoming(NONCE_LEN as nat);
    let frame = handed_after.last();
    &&& drawn_from(nonces_before, nonces_after, NONCE_LEN as nat, nonce)
    &&& handed_after == handed_before.push(frame)
    &&& is_frame(frame)
    &&& is_secured_unit(key, nonce, payload, payload_of(frame))
}

impl<T: TxChannel> TxChannel for XChacha20Poly1305TxChannel<T> {
    /// Draws a fresh nonce from the generator, secures `src` with it and
    /// sends the unit as one frame; the answer of the stream is returned. A
    /// message over the maximum is refused before a nonce is drawn or
    /// anything is handed on. `src` itself is never changed, and the key
    /// stays.
    fn send(&mut self, src: &mut [u8]) -> (res: Result<(), CommunicationError>)
        ensures
            final(src)@ == old(src)@,
            final(self).key() == old(self).key(),
            old(src)@.len() > MAX_PLAINTEXT ==> res == Err::<(), CommunicationError>(
                CommunicationError::SendError,
            ) && *final(self) == *old(self),
            old(src)@.len() <= MAX_PLAINTEXT ==> sent_as(
                old(self).key(),
                old(src)@,
                old(self).nonces(),
                final(self).nonces(),
                old(self).inner().handed(),
                final(self).inner().handed(),
            ),
    {
        if src.len() > MAX_PLAINTEXT {
            return Err(CommunicationError::SendError);
        }
        let mut drawn: Vec<u8> = vec![0u8; NONCE_LEN];
        self.nonces.fill_bytes(drawn.as_mut_slice());
        let mut nonce: [u8; 24] = [0u8; 24];
        let mut i: usize = 0;
        while i < NONCE_LEN
            invariant
                i <= NONCE_LEN,
                drawn@.len() == NONCE_LEN,
                forall|j: int| 0 <= j < i ==> nonce@[j] == drawn@[j],
            decreases NONCE_LEN - i,
        {
            nonce[i] = drawn[i];
            i += 1;
        }
        assert(nonce@ =~= drawn@);
        match secure_unit(&self.key, &nonce, src) {
            Err(e) => Err(e),
            Ok(mut unit) => {
                proof {
                    frame_round_trip(unit@);
                }
                let res = self.inner.send(unit.as_mut_slice());
                assert(self.inner.handed().last() == frame_of(unit@));
                res
            },
        }
    }
}

/// An inbound channel that reads one frame and releases only what it could
/// authenticate.
pub struct XChacha20Poly1305RxChannel<R: RxChannel> {
    inner: FramedRxChannel<R>,
    key: [u8; 32],
}

impl<R: RxChannel> XChacha20Poly1305RxChannel<R> {
    /// The framing layer underneath.
    pub closed spec fn inner(&self) -> FramedRxChannel<R> {
        self.inner
    }

    /// The key that messages are opened with.
    pub closed spec fn key(&self) -> Seq<u8> {
        self.key@
    }

    /// Puts decryption under `key` on top of `inner`.
    pub fn new(inner: FramedRxChannel<R>, key: &[u8; 32]) -> (channel: Self)
        ensures
            channel.inner() == inner,
            channel.key() == key@,
    {
        XChacha20Poly1305RxChannel { inner, key: *key }
    }
}

/// How a receive under `key` ends when `read` is what was taken from the
/// stream and the buffer held `before`.
///
/// If `read` is a whole frame that fits the buffer, the frame's payload is
/// the unit and the cipher decides on it; past the unit the buffer stays as
/// it was. In every other case (the frame does not fit, its length field is
/// over the maximum, or the stream failed or ran dry before the frame was
/// whole) the result is `RecvError` and the buffer is untouched.
pub open spec fn received_from(
    key: Seq<u8>,
    read: Seq<u8>,
    before: Seq<u8>,
    res: Result<usize, CommunicationError>,
    after: Seq<u8>,
) -> bool {
    if is_frame(read) && declared_len(read) <= before.len() {
        let unit = payload_of(read);
        &&& after.len() == before.len()
        &&& received_as(key, unit, res, after.take(unit.len() as int))
        &&& after.skip(unit.len() as int) == before.skip(unit.len() as int)
    } else {
        &&& res == Err::<usize, CommunicationError>(CommunicationError::RecvError)
        &&& after == before
    }
}

impl<R: RxChannel> RxChannel for XChacha20Poly1305RxChannel<R> {
    /// Reads one frame from the stream into `dest`, which has to hold the
    /// whole unit, and opens the unit in place.
    ///
    /// The outcome follows from what was taken from the stream alone: see
    /// `received_from`. Every failure is a `RecvError`.
    fn recv(&mut self, dest: &mut [u8], timeout: Duration) -> (res: Result<
        usize,
        CommunicationError,
    >)
        ensures
            final(self).key() == old(self).key(),
            old(self).inner().taken().is_prefix_of(final(self).inner().taken()),
            received_from(
                old(self).key(),
                taken_between(old(self).inner().taken(), final(self).inner().taken()),
                old(dest)@,
                res,
                final(dest)@,
            ),
    {
        let n: usize = match self.inner.recv(dest, timeout) {
            Err(e) => {
                return Err(e);
            },
            Ok(n) => n,
        };
        let ghost unit = dest@.take(n as int);
        let res = open_unit(&self.key, dest, n);
        proof {
            let read = taken_between(old(self).inner().taken(), self.inner.taken());
            assert(unit =~= payload_of(read));
            assert(dest@.skip(n as int) =~= old(dest)@.skip(n as int));
            match res {
                Ok(m) => {
                    assert(releases(self.key@, unit, dest@.take(m as int)));
                    assert(dest@.take(n as int) =~= dest@.take(m as int) + zeros(
                        METADATA_LEN as int,
                    ));
                },
                Err(_) => {
                    assert(dest@.take(n as int) =~= zeros(n as int));
                },
            }
        }
        res
    }
}

} // verus!
