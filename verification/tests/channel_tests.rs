use core::time::Duration;
use secure_link::communication::{CommunicationError, RxChannel, TxChannel};
use secure_link::crypto::{
    XChacha20Poly1305RxChannel, XChacha20Poly1305TxChannel, MAX_PLAINTEXT, METADATA_LEN, NONCE_LEN,
};
use secure_link::framing::{FramedRxChannel, FramedTxChannel, MAX_FRAME_PAYLOAD};
use secure_link::random::Csprng;
use secure_link::secure_uart::{AuthenticatedController, UnauthenticatedController};
use std::cell::RefCell;
use std::collections::{HashSet, VecDeque};
use std::rc::Rc;

type Wire = Rc<RefCell<VecDeque<u8>>>;

/// The sending end of an in-memory byte stream.
struct WireTx {
    wire: Wire,
    refuse: bool,
}

impl TxChannel for WireTx {
    fn send(&mut self, src: &mut [u8]) -> Result<(), CommunicationError> {
        if self.refuse {
            return Err(CommunicationError::SendError);
        }
        self.wire.borrow_mut().extend(src.iter().copied());
        Ok(())
    }
}

/// The receiving end: hands out at most `chunk` bytes a call, and reports a
/// timeout when the stream is dry.
struct WireRx {
    wire: Wire,
    chunk: usize,
}

impl RxChannel for WireRx {
    fn recv(&mut self, dest: &mut [u8], _timeout: Duration) -> Result<usize, CommunicationError> {
        let mut wire = self.wire.borrow_mut();
        if wire.is_empty() {
            return Err(CommunicationError::RecvError);
        }
        let mut n = 0;
        while n < dest.len() && n < self.chunk {
            match wire.pop_front() {
                Some(b) => {
                    dest[n] = b;
                    n += 1;
                }
                None => break,
            }
        }
        Ok(n)
    }
}

/// A stream that always answers with the same result and delivers nothing.
struct Stuck {
    answer: Result<usize, CommunicationError>,
}

impl RxChannel for Stuck {
    fn recv(&mut self, _dest: &mut [u8], _timeout: Duration) -> Result<usize, CommunicationError> {
        self.answer
    }
}

const T: Duration = Duration::from_millis(10);

fn wire() -> Wire {
    Rc::new(RefCell::new(VecDeque::new()))
}

fn key(start: u8) -> [u8; 32] {
    let mut k = [0u8; 32];
    for (i, b) in k.iter_mut().enumerate() {
        *b = start.wrapping_add(i as u8);
    }
    k
}

fn link(
    w: &Wire,
    chunk: usize,
    rx_key: &[u8; 32],
    tx_key: &[u8; 32],
) -> AuthenticatedController<WireTx, WireRx> {
    AuthenticatedController::new(
        WireTx { wire: w.clone(), refuse: false },
        WireRx { wire: w.clone(), chunk },
        rx_key,
        tx_key,
        Csprng::from_seed([0x17u8; 32]),
    )
}

#[test]
fn framed_send_puts_one_frame_on_the_wire() {
    let w = wire();
    let mut tx = FramedTxChannel::new(WireTx { wire: w.clone(), refuse: false });
    let mut msg = [10u8, 20, 30];
    assert_eq!(tx.send(&mut msg), Ok(()));
    assert_eq!(msg, [10, 20, 30]);
    let on_wire: Vec<u8> = w.borrow().iter().copied().collect();
    assert_eq!(on_wire, vec![0, 3, 10, 20, 30]);
}

#[test]
fn framed_send_refuses_over_the_maximum_before_the_wire() {
    let w = wire();
    let mut tx = FramedTxChannel::new(WireTx { wire: w.clone(), refuse: false });
    let mut msg = vec![1u8; MAX_FRAME_PAYLOAD + 1];
    assert_eq!(tx.send(&mut msg), Err(CommunicationError::SendError));
    assert!(w.borrow().is_empty());
    let mut at = vec![1u8; MAX_FRAME_PAYLOAD];
    assert_eq!(tx.send(&mut at), Ok(()));
    assert_eq!(w.borrow().len(), MAX_FRAME_PAYLOAD + 2);
}

#[test]
fn framed_send_passes_on_what_the_stream_reports() {
    let w = wire();
    let mut tx = FramedTxChannel::new(WireTx { wire: w.clone(), refuse: true });
    let mut msg = [1u8];
    assert_eq!(tx.send(&mut msg), Err(CommunicationError::SendError));
}

#[test]
fn framed_recv_reads_exactly_one_frame() {
    let w = wire();
    w.borrow_mut().extend([0u8, 2, 7, 8, 0, 1, 9]);
    let mut rx = FramedRxChannel::new(WireRx { wire: w.clone(), chunk: usize::MAX });
    let mut dest = [0xffu8; 4];
    assert_eq!(rx.recv(&mut dest, T), Ok(2));
    assert_eq!(dest, [7, 8, 0xff, 0xff]);
    assert_eq!(rx.recv(&mut dest, T), Ok(1));
    assert_eq!(dest, [9, 8, 0xff, 0xff]);
    assert_eq!(rx.recv(&mut dest, T), Err(CommunicationError::RecvError));
    assert_eq!(dest, [9, 8, 0xff, 0xff]);
}

#[test]
fn framed_recv_puts_a_trickling_stream_together() {
    let w = wire();
    let payload: Vec<u8> = (0..200u8).collect();
    let mut tx = FramedTxChannel::new(WireTx { wire: w.clone(), refuse: false });
    tx.send(&mut payload.clone()).unwrap();
    let mut rx = FramedRxChannel::new(WireRx { wire: w.clone(), chunk: 1 });
    let mut dest = vec![0u8; 200];
    assert_eq!(rx.recv(&mut dest, T), Ok(200));
    assert_eq!(dest, payload);
}

#[test]
fn framed_recv_refuses_an_undersized_destination() {
    let w = wire();
    w.borrow_mut().extend([0u8, 3, 1, 2, 3]);
    let mut rx = FramedRxChannel::new(WireRx { wire: w.clone(), chunk: usize::MAX });
    let mut dest = [0xffu8; 2];
    assert_eq!(rx.recv(&mut dest, T), Err(CommunicationError::RecvError));
    assert_eq!(dest, [0xff, 0xff]);
}

#[test]
fn framed_recv_refuses_a_length_over_the_maximum() {
    let w = wire();
    w.borrow_mut().extend([4u8, 1, 0, 0, 0]);
    let mut rx = FramedRxChannel::new(WireRx { wire: w.clone(), chunk: usize::MAX });
    let mut dest = vec![0xffu8; 2000];
    assert_eq!(rx.recv(&mut dest, T), Err(CommunicationError::RecvError));
    assert_eq!(dest, vec![0xffu8; 2000]);
}

#[test]
fn framed_recv_reports_a_frame_cut_short() {
    let w = wire();
    w.borrow_mut().extend([0u8, 5, 1, 2]);
    let mut rx = FramedRxChannel::new(WireRx { wire: w.clone(), chunk: usize::MAX });
    let mut dest = [0xffu8; 8];
    assert_eq!(rx.recv(&mut dest, T), Err(CommunicationError::RecvError));
    assert_eq!(dest, [0xffu8; 8]);
}

#[test]
fn framed_recv_reports_a_dry_stream() {
    let mut rx = FramedRxChannel::new(WireRx { wire: wire(), chunk: usize::MAX });
    let mut dest = [0xffu8; 8];
    assert_eq!(rx.recv(&mut dest, T), Err(CommunicationError::RecvError));
    assert_eq!(dest, [0xffu8; 8]);
}

#[test]
fn framed_recv_gives_up_on_a_stream_that_delivers_nothing() {
    let mut rx = FramedRxChannel::new(Stuck { answer: Ok(0) });
    let mut dest = [0xffu8; 8];
    assert_eq!(rx.recv(&mut dest, T), Err(CommunicationError::RecvError));
}

#[test]
fn framed_recv_reports_every_failure_of_the_stream_as_a_receive_error() {
    for answer in [CommunicationError::InternalError, CommunicationError::RecvError] {
        let mut rx = FramedRxChannel::new(Stuck { answer: Err(answer) });
        let mut dest = [0xffu8; 8];
        assert_eq!(rx.recv(&mut dest, T), Err(CommunicationError::RecvError));
        assert_eq!(dest, [0xffu8; 8]);
    }
}

#[test]
fn authenticated_recv_reports_a_failed_stream_as_a_receive_error() {
    let w = wire();
    let k = key(3);
    let mut c = AuthenticatedController::new(
        WireTx { wire: w.clone(), refuse: false },
        Stuck { answer: Err(CommunicationError::InternalError) },
        &k,
        &k,
        Csprng::from_seed([0u8; 32]),
    );
    let mut dest = [0xffu8; 64];
    assert_eq!(c.recv(&mut dest, T), Err(CommunicationError::RecvError));
    assert_eq!(dest, [0xffu8; 64]);
}

#[test]
fn authenticated_recv_refuses_a_frame_that_breaks_the_rules() {
    let w = wire();
    w.borrow_mut().extend([4u8, 1, 9, 9, 9]);
    let k = key(3);
    let mut c = link(&w, usize::MAX, &k, &k);
    let mut dest = vec![0xffu8; 2000];
    assert_eq!(c.recv(&mut dest, T), Err(CommunicationError::RecvError));
    assert_eq!(dest, vec![0xffu8; 2000]);
}

#[test]
fn authenticated_round_trip() {
    for len in [0usize, 1, 2, 100, 983, MAX_PLAINTEXT] {
        let w = wire();
        let k = key(len as u8);
        let mut c = link(&w, usize::MAX, &k, &k);
        let payload: Vec<u8> = (0..len).map(|i| (i * 31 % 256) as u8).collect();
        let mut src = payload.clone();
        assert_eq!(c.send(&mut src), Ok(()));
        assert_eq!(src, payload);
        assert_eq!(w.borrow().len(), len + METADATA_LEN + 2);
        let mut dest = vec![0xffu8; len + METADATA_LEN];
        assert_eq!(c.recv(&mut dest, T), Ok(len));
        assert_eq!(&dest[..len], payload.as_slice());
        assert!(w.borrow().is_empty());
    }
}

#[test]
fn authenticated_round_trip_over_a_trickling_stream() {
    let w = wire();
    let k = key(1);
    let mut c = link(&w, 3, &k, &k);
    let payload = b"open the door".to_vec();
    c.send(&mut payload.clone()).unwrap();
    let mut dest = vec![0u8; 100];
    assert_eq!(c.recv(&mut dest, T), Ok(payload.len()));
    assert_eq!(&dest[..payload.len()], payload.as_slice());
}

#[test]
fn authenticated_messages_arrive_in_order() {
    let w = wire();
    let k = key(1);
    let mut c = link(&w, usize::MAX, &k, &k);
    c.send(&mut [1u8, 1, 1]).unwrap();
    c.send(&mut [2u8, 2]).unwrap();
    let mut dest = [0u8; 64];
    assert_eq!(c.recv(&mut dest, T), Ok(3));
    assert_eq!(&dest[..3], &[1, 1, 1]);
    assert_eq!(c.recv(&mut dest, T), Ok(2));
    assert_eq!(&dest[..2], &[2, 2]);
}

#[test]
fn authenticated_directions_use_their_own_keys() {
    let there = wire();
    let back = wire();
    let car_to_fob = key(0x10);
    let fob_to_car = key(0x90);
    let mut car = AuthenticatedController::new(
        WireTx { wire: there.clone(), refuse: false },
        WireRx { wire: back.clone(), chunk: usize::MAX },
        &fob_to_car,
        &car_to_fob,
        Csprng::from_seed([1u8; 32]),
    );
    let mut fob = AuthenticatedController::new(
        WireTx { wire: back.clone(), refuse: false },
        WireRx { wire: there.clone(), chunk: usize::MAX },
        &car_to_fob,
        &fob_to_car,
        Csprng::from_seed([2u8; 32]),
    );
    let mut dest = [0u8; 64];
    car.send(&mut [0xc0u8, 0xde]).unwrap();
    assert_eq!(fob.recv(&mut dest, T), Ok(2));
    assert_eq!(&dest[..2], &[0xc0, 0xde]);
    fob.send(&mut [0x0au8]).unwrap();
    assert_eq!(car.recv(&mut dest, T), Ok(1));
    assert_eq!(dest[0], 0x0a);
}

#[test]
fn authenticated_recv_refuses_a_message_under_the_other_key() {
    let w = wire();
    let mut c = link(&w, usize::MAX, &key(1), &key(2));
    c.send(&mut [1u8, 2, 3]).unwrap();
    let mut dest = [0xffu8; 64];
    assert_eq!(c.recv(&mut dest, T), Err(CommunicationError::RecvError));
    assert_eq!(&dest[..3 + METADATA_LEN], &[0u8; 3 + METADATA_LEN][..]);
}

#[test]
fn authenticated_recv_refuses_every_flipped_bit_of_ciphertext_and_tag() {
    let k = key(5);
    let payload = b"start engine".to_vec();
    let sent = wire();
    link(&sent, usize::MAX, &k, &k).send(&mut payload.clone()).unwrap();
    let frame: Vec<u8> = sent.borrow().iter().copied().collect();
    for byte in (2 + NONCE_LEN)..frame.len() {
        for bit in 0..8 {
            let mut changed = frame.clone();
            changed[byte] ^= 1 << bit;
            let w = wire();
            w.borrow_mut().extend(changed);
            let mut c = link(&w, usize::MAX, &k, &k);
            let mut dest = vec![0xffu8; 64];
            assert_eq!(c.recv(&mut dest, T), Err(CommunicationError::RecvError));
            assert!(!dest.windows(payload.len()).any(|window| window == payload.as_slice()));
        }
    }
}

#[test]
fn authenticated_recv_refuses_a_flipped_nonce() {
    let k = key(5);
    let sent = wire();
    link(&sent, usize::MAX, &k, &k).send(&mut [1u8, 2, 3]).unwrap();
    let frame: Vec<u8> = sent.borrow().iter().copied().collect();
    for byte in 2..(2 + NONCE_LEN) {
        let mut changed = frame.clone();
        changed[byte] ^= 0x80;
        let w = wire();
        w.borrow_mut().extend(changed);
        let mut dest = vec![0xffu8; 64];
        assert_eq!(
            link(&w, usize::MAX, &k, &k).recv(&mut dest, T),
            Err(CommunicationError::RecvError)
        );
    }
}

#[test]
fn authenticated_nonces_do_not_repeat() {
    let w = wire();
    let k = key(9);
    let mut c = link(&w, usize::MAX, &k, &k);
    let mut seen: HashSet<Vec<u8>> = HashSet::new();
    for _ in 0..10_000 {
        c.send(&mut [0xa5u8; 4]).unwrap();
        let frame: Vec<u8> = w.borrow_mut().drain(..).collect();
        assert_eq!(frame.len(), 2 + METADATA_LEN + 4);
        assert!(seen.insert(frame[2..2 + NONCE_LEN].to_vec()));
    }
    assert_eq!(seen.len(), 10_000);
}

#[test]
fn authenticated_nonces_come_from_the_given_source() {
    let w = wire();
    let k = key(9);
    let mut c = link(&w, usize::MAX, &k, &k);
    c.send(&mut [1u8]).unwrap();
    let frame: Vec<u8> = w.borrow_mut().drain(..).collect();
    let mut expected = [0u8; NONCE_LEN];
    Csprng::from_seed([0x17u8; 32]).fill_bytes(&mut expected);
    assert_eq!(&frame[2..2 + NONCE_LEN], &expected[..]);
}

#[test]
fn authenticated_recv_refuses_an_undersized_destination() {
    let k = key(3);
    for room in [0usize, 1, 9, 10, 10 + METADATA_LEN - 1] {
        let w = wire();
        let mut c = link(&w, usize::MAX, &k, &k);
        c.send(&mut [7u8; 10]).unwrap();
        let mut dest = vec![0xffu8; room];
        assert_eq!(c.recv(&mut dest, T), Err(CommunicationError::RecvError));
        assert_eq!(dest.len(), room);
        assert_eq!(dest, vec![0xffu8; room]);
    }
    let w = wire();
    let mut c = link(&w, usize::MAX, &k, &k);
    c.send(&mut [7u8; 10]).unwrap();
    let mut dest = vec![0xffu8; 10 + METADATA_LEN];
    assert_eq!(c.recv(&mut dest, T), Ok(10));
}

#[test]
fn authenticated_recv_reports_a_timeout() {
    let w = wire();
    let k = key(3);
    let mut c = link(&w, usize::MAX, &k, &k);
    let mut dest = [0xffu8; 64];
    assert_eq!(c.recv(&mut dest, T), Err(CommunicationError::RecvError));
    assert_eq!(dest, [0xffu8; 64]);
}

#[test]
fn authenticated_recv_refuses_a_frame_too_short_for_a_unit() {
    let w = wire();
    w.borrow_mut().extend([0u8, 3, 1, 2, 3]);
    let k = key(3);
    let mut c = link(&w, usize::MAX, &k, &k);
    let mut dest = [0xffu8; 64];
    assert_eq!(c.recv(&mut dest, T), Err(CommunicationError::RecvError));
    assert_eq!(&dest[..3], &[0, 0, 0]);
}

#[test]
fn authenticated_send_refuses_over_the_maximum_and_draws_no_nonce() {
    let w = wire();
    let k = key(3);
    let mut c = link(&w, usize::MAX, &k, &k);
    let mut over = vec![0u8; MAX_PLAINTEXT + 1];
    assert_eq!(c.send(&mut over), Err(CommunicationError::SendError));
    assert!(w.borrow().is_empty());
    c.send(&mut [1u8]).unwrap();
    let frame: Vec<u8> = w.borrow_mut().drain(..).collect();
    let mut first = [0u8; NONCE_LEN];
    Csprng::from_seed([0x17u8; 32]).fill_bytes(&mut first);
    assert_eq!(&frame[2..2 + NONCE_LEN], &first[..]);
}

#[test]
fn authenticated_send_passes_on_what_the_stream_reports() {
    let w = wire();
    let k = key(3);
    let mut c = AuthenticatedController::new(
        WireTx { wire: w.clone(), refuse: true },
        WireRx { wire: w.clone(), chunk: usize::MAX },
        &k,
        &k,
        Csprng::from_seed([0u8; 32]),
    );
    assert_eq!(c.send(&mut [1u8, 2]), Err(CommunicationError::SendError));
}

#[test]
fn crypto_layers_work_over_framed_channels() {
    let w = wire();
    let k = key(0x21);
    let mut tx = XChacha20Poly1305TxChannel::new(
        FramedTxChannel::new(WireTx { wire: w.clone(), refuse: false }),
        &k,
        Csprng::from_seed([3u8; 32]),
    );
    tx.send(&mut [4u8, 5, 6]).unwrap();
    assert_eq!(w.borrow().len(), 2 + 3 + METADATA_LEN);
    let mut rx = XChacha20Poly1305RxChannel::new(
        FramedRxChannel::new(WireRx { wire: w.clone(), chunk: usize::MAX }),
        &k,
    );
    let mut dest = [0xffu8; 4 + METADATA_LEN];
    assert_eq!(rx.recv(&mut dest, T), Ok(3));
    assert_eq!(&dest[..3], &[4, 5, 6]);
    assert_eq!(&dest[3..3 + METADATA_LEN], &[0u8; METADATA_LEN][..]);
    assert_eq!(dest[3 + METADATA_LEN], 0xff);
}

#[test]
fn authenticated_nonces_are_successive_draws_of_the_generator() {
    let w = wire();
    let k = key(9);
    let mut c = link(&w, usize::MAX, &k, &k);
    let mut reference = Csprng::from_seed([0x17u8; 32]);
    for _ in 0..5 {
        c.send(&mut [1u8, 2]).unwrap();
        let frame: Vec<u8> = w.borrow_mut().drain(..).collect();
        let mut expected = [0u8; NONCE_LEN];
        reference.fill_bytes(&mut expected);
        assert_eq!(&frame[2..2 + NONCE_LEN], &expected[..]);
    }
}

#[test]
fn unauthenticated_controller_passes_bytes_as_they_are() {
    let w = wire();
    let mut c = UnauthenticatedController::without_key(
        WireTx { wire: w.clone(), refuse: false },
        WireRx { wire: w.clone(), chunk: usize::MAX },
    );
    let mut msg = [1u8, 2, 3, 4];
    assert_eq!(c.send(&mut msg), Ok(()));
    let on_wire: Vec<u8> = w.borrow().iter().copied().collect();
    assert_eq!(on_wire, vec![1, 2, 3, 4]);
    let mut dest = [0u8; 3];
    assert_eq!(c.recv(&mut dest, T), Ok(3));
    assert_eq!(dest, [1, 2, 3]);
    assert_eq!(c.recv(&mut dest, T), Ok(1));
    assert_eq!(dest[0], 4);
    assert_eq!(c.recv(&mut dest, T), Err(CommunicationError::RecvError));
}

#[test]
fn errors_can_be_told_apart() {
    assert_ne!(CommunicationError::RecvError, CommunicationError::SendError);
    assert_ne!(CommunicationError::RecvError, CommunicationError::InternalError);
    assert_ne!(CommunicationError::SendError, CommunicationError::InternalError);
    let copy = CommunicationError::RecvError;
    assert_eq!(format!("{:?}", copy), "RecvError");
}
