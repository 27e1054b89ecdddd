//! Length-delimited framing: a frame is a two-byte big-endian payload length
//! followed by the payload.

use crate::communication::{CommunicationError, RxChannel, TxChannel};
use core::time::Duration;
use vstd::prelude::*;

verus! {

/// The number of bytes in a frame's length field.
pub const FRAME_HEADER_LEN: usize = 2;

/// The largest payload one frame can carry.
pub const MAX_FRAME_PAYLOAD: usize = 1024;

/// The frame that carries `payload`.
pub open spec fn frame_of(payload: Seq<u8>) -> Seq<u8> {
    seq![(payload.len() / 256) as u8, (payload.len() % 256) as u8] + payload
}

/// The payload length that the first two bytes of `stream` declare.
pub open spec fn declared_len(stream: Seq<u8>) -> int
    recommends
        stream.len() >= 2,
{
    stream[0] as int * 256 + stream[1] as int
}

/// Whether `stream` is exactly one frame: a length field within the maximum
/// followed by just that many bytes.
pub open spec fn is_frame(stream: Seq<u8>) -> bool {
    &&& stream.len() >= 2
    &&& declared_len(stream) <= MAX_FRAME_PAYLOAD
    &&& stream.len() == 2 + declared_len(stream)
}

/// The payload of a frame: everything after the length field.
pub open spec fn payload_of(stream: Seq<u8>) -> Seq<u8> {
    stream.skip(2)
}

/// Builds the frame for `payload`, or refuses a payload over the maximum.
pub fn encode_frame(payload: &[u8]) -> (res: Result<Vec<u8>, CommunicationError>)
    ensures
        res is Ok <==> payload@.len() <= MAX_FRAME_PAYLOAD,
        res matches Ok(frame) ==> frame@ == frame_of(payload@),
        res matches Err(e) ==> e == CommunicationError::SendError,
{
    let n: usize = payload.len();
    if n > MAX_FRAME_PAYLOAD {
        return Err(CommunicationError::SendError);
    }
    let mut frame: Vec<u8> = Vec::new();
    frame.push((n / 256) as u8);
    frame.push((n % 256) as u8);
    let mut i: usize = 0;
    while i < n
        invariant
            n == payload@.len(),
            i <= n,
            frame@ == frame_of(payload@).take(2 + i),
        decreases n - i,
    {
        frame.push(payload[i]);
        i += 1;
    }
    Ok(frame)
}

/// What a receiver that holds `acc` still has to read before `acc` is a frame:
/// `Some(0)` when it is one, `None` when no continuation of `acc` can be.
pub open spec fn bytes_missing(acc: Seq<u8>) -> Option<int> {
    if acc.len() < 2 {
        Some(2 - acc.len())
    } else if declared_len(acc) > MAX_FRAME_PAYLOAD || acc.len() > 2 + declared_len(acc) {
        None
    } else {
        Some(2 + declared_len(acc) - acc.len())
    }
}

/// Tells a receiver how many more bytes to read after `acc`. Fails as soon as
/// the length field is over the maximum or `acc` runs past the frame's end.
pub fn frame_progress(acc: &[u8]) -> (res: Result<usize, CommunicationError>)
    ensures
        res is Ok <==> bytes_missing(acc@) is Some,
        res matches Ok(n) ==> bytes_missing(acc@) == Some(n as int),
        res matches Err(e) ==> e == CommunicationError::RecvError,
{
    let have: usize = acc.len();
    if have < FRAME_HEADER_LEN {
        return Ok(FRAME_HEADER_LEN - have);
    }
    let hi: usize = acc[0] as usize;
    let lo: usize = acc[1] as usize;
    let declared: usize = hi * 256 + lo;
    if declared > MAX_FRAME_PAYLOAD || have - FRAME_HEADER_LEN > declared {
        return Err(CommunicationError::RecvError);
    }
    Ok(FRAME_HEADER_LEN + declared - have)
}

/// Takes the payload out of `stream` into the front of `dest`.
///
/// Succeeds exactly when `stream` is one whole frame whose payload fits in
/// `dest`; otherwise `dest` is left as it was.
pub fn decode_frame(stream: &[u8], dest: &mut [u8]) -> (res: Result<usize, CommunicationError>)
    ensures
        final(dest)@.len() == old(dest)@.len(),
        res is Ok <==> is_frame(stream@) && declared_len(stream@) <= old(dest)@.len(),
        res matches Ok(n) ==> n == declared_len(stream@) && final(dest)@ == payload_of(stream@)
            + old(dest)@.skip(n as int),
        res matches Err(e) ==> e == CommunicationError::RecvError && final(dest)@ == old(dest)@,
{
    let have: usize = stream.len();
    if have < FRAME_HEADER_LEN {
        return Err(CommunicationError::RecvError);
    }
    let hi: usize = stream[0] as usize;
    let lo: usize = stream[1] as usize;
    let declared: usize = hi * 256 + lo;
    if declared > MAX_FRAME_PAYLOAD || have - FRAME_HEADER_LEN != declared || declared
        > dest.len() {
        return Err(CommunicationError::RecvError);
    }
    let mut i: usize = 0;
    while i < declared
        invariant
            have == stream@.len(),
            have == 2 + declared,
            declared <= dest@.len(),
            dest@.len() == old(dest)@.len(),
            i <= declared,
            dest@ == payload_of(stream@).take(i as int) + old(dest)@.skip(i as int),
        decreases declared - i,
    {
        dest[i] = stream[i + FRAME_HEADER_LEN];
        i += 1;
    }
    Ok(declared)
}

/// Framing loses nothing: the frame built for a payload within the maximum is
/// a frame, declares the payload's length and gives the payload back.
pub proof fn frame_round_trip(payload: Seq<u8>)
    requires
        payload.len() <= MAX_FRAME_PAYLOAD,
    ensures
        is_frame(frame_of(payload)),
        declared_len(frame_of(payload)) == payload.len(),
        payload_of(frame_of(payload)) == payload,
{
    assert(payload_of(frame_of(payload)) =~= payload);
}

/// A frame has one reading only: every frame is the frame of its own payload.
pub proof fn frame_is_frame_of_its_payload(stream: Seq<u8>)
    requires
        is_frame(stream),
    ensures
        frame_of(payload_of(stream)) == stream,
{
    assert(frame_of(payload_of(stream)) =~= stream);
}

/// Frames delimit themselves: a receiver that has read the first `k` bytes
/// of a frame is told to read exactly the rest, so it stops at the frame's
/// end and nowhere before.
pub proof fn frame_prefix_needs_the_rest(payload: Seq<u8>, k: int)
    requires
        payload.len() <= MAX_FRAME_PAYLOAD,
        0 <= k <= frame_of(payload).len(),
    ensures
        bytes_missing(frame_of(payload).take(k)) is Some,
        k >= 2 ==> bytes_missing(frame_of(payload).take(k)) == Some(frame_of(payload).len() - k),
        k < 2 ==> bytes_missing(frame_of(payload).take(k)) == Some(2 - k),
{
    frame_round_trip(payload);
    let frame = frame_of(payload);
    if k >= 2 {
        assert(frame.take(k)[0] == frame[0]);
        assert(frame.take(k)[1] == frame[1]);
    }
}

/// An outbound channel that sends each message as one frame over a byte
/// stream.
pub struct FramedTxChannel<T: TxChannel> {
    inner: T,
    handed: Ghost<Seq<Seq<u8>>>,
}

impl<T: TxChannel> FramedTxChannel<T> {
    /// The stream underneath.
    pub closed spec fn inner(&self) -> T {
        self.inner
    }

    /// Everything this channel has handed to the stream so far, oldest
    /// first, whether the stream took it or not.
    pub closed spec fn handed(&self) -> Seq<Seq<u8>> {
        self.handed@
    }

    /// Puts framing on top of `inner`.
    pub fn new(inner: T) -> (channel: Self)
        ensures
            channel.inner() == inner,
            channel.handed() == Seq::<Seq<u8>>::empty(),
    {
        FramedTxChannel { inner, handed: Ghost(Seq::empty()) }
    }
}

impl<T: TxChannel> TxChannel for FramedTxChannel<T> {
    /// Hands the frame of `src` to the stream underneath, in one piece, and
    /// reports what the stream reports. A message over the maximum is
    /// refused and nothing reaches the stream. `src` itself is never
    /// changed.
    fn send(&mut self, src: &mut [u8]) -> (res: Result<(), CommunicationError>)
        ensures
            final(src)@ == old(src)@,
            old(src)@.len() > MAX_FRAME_PAYLOAD ==> res == Err::<(), CommunicationError>(
                CommunicationError::SendError,
            ) && *final(self) == *old(self),
            old(src)@.len() <= MAX_FRAME_PAYLOAD ==> final(self).handed() == old(
                self,
            ).handed().push(frame_of(old(src)@)),
    {
        match encode_frame(src) {
            Err(e) => Err(e),
            Ok(mut frame) => {
                self.handed = Ghost(self.handed@.push(frame@));
                self.inner.send(frame.as_mut_slice())
            },
        }
    }
}

/// An inbound channel that reads one frame at a time from a byte stream.
pub struct FramedRxChannel<R: RxChannel> {
    inner: R,
    taken: Ghost<Seq<u8>>,
}

impl<R: RxChannel> FramedRxChannel<R> {
    /// The stream underneath.
    pub closed spec fn inner(&self) -> R {
        self.inner
    }

    /// Every byte that the stream has delivered to this channel so far.
    pub closed spec fn taken(&self) -> Seq<u8> {
        self.taken@
    }

    /// Puts framing on top of `inner`.
    pub fn new(inner: R) -> (channel: Self)
        ensures
            channel.inner() == inner,
            channel.taken() == Seq::<u8>::empty(),
    {
        FramedRxChannel { inner, taken: Ghost(Seq::empty()) }
    }
}

/// What a channel took from the stream between two moments: the bytes that
/// `after` holds beyond those of `before`.
pub open spec fn taken_between(before: Seq<u8>, after: Seq<u8>) -> Seq<u8> {
    after.skip(before.len() as int)
}

impl<R: RxChannel> RxChannel for FramedRxChannel<R> {
    /// Reads from the stream underneath until one frame is complete, asking
    /// each time for no more than the frame still lacks, and puts its payload
    /// at the front of `dest`.
    ///
    /// The call succeeds exactly when what it took from the stream is one
    /// whole frame whose payload fits in `dest`; the payload then stands at
    /// the front of `dest` and the rest of `dest` is as before. It never
    /// takes a byte beyond the frame's end. Every failure is a `RecvError`
    /// and leaves `dest` alone: the stream failed or delivered nothing
    /// before the frame was whole (nothing taken so far is kept), the
    /// length field was over the maximum, or the payload did not fit.
    ///
    /// Each read of the stream is given the whole `timeout`, so a frame
    /// that trickles in may take as many timeouts as it has reads; the
    /// stream alone keeps time.
    fn recv(&mut self, dest: &mut [u8], timeout: Duration) -> (res: Result<
        usize,
        CommunicationError,
    >)
        ensures
            old(self).taken().is_prefix_of(final(self).taken()),
            ({
                let read = taken_between(old(self).taken(), final(self).taken());
                &&& read.len() >= 2 ==> read.len() <= 2 + declared_len(read)
                &&& res is Ok <==> is_frame(read) && declared_len(read) <= old(dest)@.len()
                &&& res matches Ok(n) ==> n == declared_len(read) && final(dest)@ == payload_of(
                    read,
                ) + old(dest)@.skip(n as int)
                &&& res matches Err(e) ==> e == CommunicationError::RecvError && final(dest)@
                    == old(dest)@
            }),
    {
        let mut acc: Vec<u8> = Vec::new();
        let mut need: usize = FRAME_HEADER_LEN;
        while need > 0
            invariant
                bytes_missing(acc@) == Some(need as int),
                dest@ == old(dest)@,
                self.taken@ == old(self).taken@ + acc@,
            decreases FRAME_HEADER_LEN + MAX_FRAME_PAYLOAD - acc@.len(),
        {
            let mut chunk: Vec<u8> = vec![0u8; need];
            let got: usize = match self.inner.recv(chunk.as_mut_slice(), timeout) {
                Err(_) => {
                    assert(taken_between(old(self).taken@, self.taken@) =~= acc@);
                    return Err(CommunicationError::RecvError);
                },
                Ok(got) => got,
            };
            if got == 0 {
                assert(taken_between(old(self).taken@, self.taken@) =~= acc@);
                return Err(CommunicationError::RecvError);
            }
            let ghost before = acc@;
            let mut i: usize = 0;
            while i < got
                invariant
                    i <= got <= chunk@.len(),
                    acc@ == before + chunk@.take(i as int),
                decreases got - i,
            {
                acc.push(chunk[i]);
                i += 1;
            }
            self.taken = Ghost(self.taken@ + chunk@.take(got as int));
            assert(self.taken@ =~= old(self).taken@ + acc@);
            assert(taken_between(old(self).taken@, self.taken@) =~= acc@);
            need =
            match frame_progress(acc.as_slice()) {
                Err(e) => {
                    return Err(e);
                },
                Ok(need) => need,
            };
        }
        assert(taken_between(old(self).taken@, self.taken@) =~= acc@);
        decode_frame(acc.as_slice(), dest)
    }
}

} // verus!
