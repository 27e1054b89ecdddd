//! Two seeded ChaCha20 generators: a secondary one that is ready first and a
//! main one for everything after start-up.

use crate::entropy::{main_preimage, main_seed, secondary_preimage, secondary_seed, sha3_256};
use rand_chacha::rand_core::{RngCore, SeedableRng};
use rand_chacha::ChaCha20Rng;
use vstd::arithmetic::div_mod::{
    lemma_fundamental_div_mod, lemma_mod_multiples_vanish, lemma_small_mod,
};
use vstd::prelude::*;

verus! {

/// The generator of the outside crate; only its wrappers look inside.
#[verifier::external_type_specification]
#[verifier::external_body]
pub struct ExChaCha20Rng(ChaCha20Rng);

/// The seed a generator was made from: what `ChaCha20Rng::get_seed` reports.
pub uninterp spec fn generator_seed(rng: ChaCha20Rng) -> Seq<u8>;

/// The number of the stream a generator is on: what
/// `ChaCha20Rng::get_stream` reports.
pub uninterp spec fn generator_stream(rng: ChaCha20Rng) -> nat;

/// How many 32-bit words of its stream a generator has given out: what
/// `ChaCha20Rng::get_word_pos` reports.
pub uninterp spec fn generator_word_pos(rng: ChaCha20Rng) -> nat;

/// The byte at `index` of the output that ChaCha20 generators with this seed
/// and stream number run through: its 32-bit words in order, each with its
/// low byte first.
pub uninterp spec fn chacha20_stream_byte(seed: Seq<u8>, stream: nat, index: nat) -> u8;

/// The number of words in a generator's output; positions wrap around here.
pub open spec fn stream_words() -> nat {
    0x10_0000_0000_0000_0000
}

/// The number of bytes in a generator's output.
pub open spec fn stream_len() -> nat {
    4 * stream_words()
}

/// The `len` bytes of the output for `seed` and `stream` that start at word
/// `word_pos`.
pub open spec fn stream_bytes(seed: Seq<u8>, stream: nat, word_pos: nat, len: nat) -> Seq<u8> {
    Seq::new(
        len,
        |i: int| chacha20_stream_byte(seed, stream, ((4 * word_pos + i) % (stream_len() as int)) as nat),
    )
}

/// The position a generator is at after giving out `len` bytes from
/// `word_pos`: it uses up whole words.
pub open spec fn pos_after(word_pos: nat, len: nat) -> nat {
    (word_pos + (len + 3) / 4) % stream_words()
}

/// Makes a generator with `ChaCha20Rng::from_seed`.
///
/// Trusted: the generator keeps the seed, is on stream 0 and starts at the
/// head of its output.
#[verifier::external_body]
fn generator_from_seed(seed: [u8; 32]) -> (rng: ChaCha20Rng)
    ensures
        generator_seed(rng) == seed@,
        generator_stream(rng) == 0,
        generator_word_pos(rng) == 0,
{
    ChaCha20Rng::from_seed(seed)
}

/// Fills `dest` with `ChaCha20Rng::fill_bytes`.
///
/// Trusted: the bytes are the next bytes of the output for the generator's
/// seed and stream number, from the word it stands at; seed and stream
/// number stay, and the position moves on by the words used, whole words
/// only, wrapping at the end of the output.
#[verifier::external_body]
fn generator_fill(rng: &mut ChaCha20Rng, dest: &mut [u8])
    ensures
        final(dest)@.len() == old(dest)@.len(),
        forall|i: int|
            0 <= i < old(dest)@.len() ==> #[trigger] final(dest)@[i] == chacha20_stream_byte(
                generator_seed(*old(rng)),
                generator_stream(*old(rng)),
                ((4 * generator_word_pos(*old(rng)) + i) % (stream_len() as int)) as nat,
            ),
        generator_seed(*final(rng)) == generator_seed(*old(rng)),
        generator_stream(*final(rng)) == generator_stream(*old(rng)),
        generator_word_pos(*final(rng)) == pos_after(
            generator_word_pos(*old(rng)),
            old(dest)@.len(),
        ),
{
    rng.fill_bytes(dest)
}

/// Reading a position within the output or anywhere beyond it makes no
/// difference to the bytes found or to the position reached.
proof fn wrapped_position_is_the_same(word_pos: nat, len: nat, i: int)
    ensures
        (4 * word_pos + i) % (stream_len() as int) == (4 * (word_pos % stream_words()) + i) % (
        stream_len() as int),
        pos_after(word_pos, len) == pos_after(word_pos % stream_words(), len),
{
    let m = stream_words() as int;
    let q = (word_pos as int) / m;
    let r = (word_pos as int) % m;
    lemma_fundamental_div_mod(word_pos as int, m);
    assert(4 * word_pos + i == (4 * r + i) + q * (4 * m)) by (nonlinear_arith)
        requires
            word_pos == m * q + r,
    ;
    lemma_mod_multiples_vanish(q, 4 * r + i, 4 * m);
    let w = ((len + 3) / 4) as int;
    assert(word_pos + w == (r + w) + q * m) by (nonlinear_arith)
        requires
            word_pos == m * q + r,
    ;
    lemma_mod_multiples_vanish(q, r + w, m);
}

/// A seeded generator.
pub struct Csprng {
    rng: ChaCha20Rng,
}

impl Csprng {
    /// The seed this generator was made from.
    pub closed spec fn seed(&self) -> Seq<u8> {
        generator_seed(self.rng)
    }

    /// The number of the stream this generator is on.
    pub closed spec fn stream(&self) -> nat {
        generator_stream(self.rng)
    }

    /// How many words of its output this generator has given out, counted
    /// within the output's length.
    pub closed spec fn word_pos(&self) -> nat {
        generator_word_pos(self.rng) % stream_words()
    }

    /// The next `len` bytes this generator will give out.
    pub open spec fn upcoming(&self, len: nat) -> Seq<u8> {
        stream_bytes(self.seed(), self.stream(), self.word_pos(), len)
    }

    /// A generator on stream 0, at the head of the output that `seed`
    /// determines.
    pub fn from_seed(seed: [u8; 32]) -> (generator: Self)
        ensures
            generator.seed() == seed@,
            generator.stream() == 0,
            generator.word_pos() == 0,
    {
        Csprng { rng: generator_from_seed(seed) }
    }

    /// Overwrites all of `dest` with the next bytes of the output.
    pub fn fill_bytes(&mut self, dest: &mut [u8])
        ensures
            final(dest)@ == old(self).upcoming(old(dest)@.len()),
            final(self).seed() == old(self).seed(),
            final(self).stream() == old(self).stream(),
            final(self).word_pos() == pos_after(old(self).word_pos(), old(dest)@.len()),
    {
        generator_fill(&mut self.rng, dest);
        proof {
            let at = generator_word_pos(old(self).rng);
            let len = old(dest)@.len();
            wrapped_position_is_the_same(at, len, 0);
            assert forall|i: int| 0 <= i < len implies dest@[i] == old(self).upcoming(len)[i] by {
                wrapped_position_is_the_same(at, len, i);
            }
            assert(dest@ =~= old(self).upcoming(len));
        }
    }

    /// A generator's position always lies within its output.
    pub proof fn position_is_within_the_output(&self)
        ensures
            self.word_pos() < stream_words(),
    {
    }
}

/// The two generators of a running system. Each is seeded at most once.
pub struct DualCsprng {
    secondary: Option<Csprng>,
    main: Option<Csprng>,
}

impl DualCsprng {
    /// The secondary generator, once it is seeded.
    pub closed spec fn secondary_generator(&self) -> Option<Csprng> {
        self.secondary
    }

    /// The main generator, once it is seeded.
    pub closed spec fn main_generator(&self) -> Option<Csprng> {
        self.main
    }

    /// A pair of which neither generator is seeded yet.
    pub fn new() -> (state: Self)
        ensures
            state.secondary_generator() is None,
            state.main_generator() is None,
    {
        DualCsprng { secondary: None, main: None }
    }

    /// Whether the secondary generator is seeded.
    pub fn secondary_ready(&self) -> (ready: bool)
        ensures
            ready == self.secondary_generator() is Some,
    {
        self.secondary.is_some()
    }

    /// Whether the main generator is seeded.
    pub fn main_ready(&self) -> (ready: bool)
        ensures
            ready == self.main_generator() is Some,
    {
        self.main.is_some()
    }
}

/// What seeding makes of a generator's place: a generator that was there
/// stays exactly as it was, and an empty place now holds a generator made
/// from `seed`, on stream 0, that stands at the head of its output.
pub open spec fn seeded_once(before: Option<Csprng>, after: Option<Csprng>, seed: Seq<u8>) -> bool {
    match before {
        Some(_) => after == before,
        None => after matches Some(g) && g.seed() == seed && g.stream() == 0 && g.word_pos() == 0,
    }
}

/// What initialisation makes of a pair: each generator is seeded once, from
/// the digest of its own samples.
pub open spec fn initialized_from(
    before: DualCsprng,
    after: DualCsprng,
    uninit_memory: Seq<u8>,
    secret: Seq<u8>,
    adc: Seq<u8>,
    clock_drift: Seq<u8>,
) -> bool {
    &&& seeded_once(
        before.secondary_generator(),
        after.secondary_generator(),
        sha3_256(secondary_preimage(uninit_memory, secret)),
    )
    &&& seeded_once(
        before.main_generator(),
        after.main_generator(),
        sha3_256(main_preimage(uninit_memory, secret, adc, clock_drift)),
    )
}

/// Seeds the secondary generator unless it is seeded already. Nothing it
/// needs has to be waited for. The main generator is not touched.
pub fn init_secondary_rng(state: &mut DualCsprng, uninit_memory: &[u8], secret: &[u8; 32])
    ensures
        seeded_once(
            old(state).secondary_generator(),
            final(state).secondary_generator(),
            sha3_256(secondary_preimage(uninit_memory@, secret@)),
        ),
        final(state).main_generator() == old(state).main_generator(),
{
    if state.secondary.is_none() {
        state.secondary = Some(Csprng::from_seed(secondary_seed(uninit_memory, secret)));
    }
}

/// Seeds the main generator unless it is seeded already. The secondary
/// generator is not touched.
pub fn init_main_rng(
    state: &mut DualCsprng,
    uninit_memory: &[u8],
    secret: &[u8; 32],
    adc: &[u8],
    clock_drift: &[u8],
)
    ensures
        seeded_once(
            old(state).main_generator(),
            final(state).main_generator(),
            sha3_256(main_preimage(uninit_memory@, secret@, adc@, clock_drift@)),
        ),
        final(state).secondary_generator() == old(state).secondary_generator(),
{
    if state.main.is_none() {
        state.main = Some(Csprng::from_seed(main_seed(uninit_memory, secret, adc, clock_drift)));
    }
}

/// Seeds the secondary generator, then the main one, each from its own
/// condensed samples. A generator that is already seeded is left exactly as
/// it is: the first seeding wins.
pub fn init_rng(
    state: &mut DualCsprng,
    uninit_memory: &[u8],
    secret: &[u8; 32],
    adc: &[u8],
    clock_drift: &[u8],
)
    ensures
        initialized_from(*old(state), *final(state), uninit_memory@, secret@, adc@, clock_drift@),
{
    init_secondary_rng(state, uninit_memory, secret);
    init_main_rng(state, uninit_memory, secret, adc, clock_drift);
}

/// What a fill makes of a generator: it has given out its next `len` bytes
/// and moved on by the words used; seed and stream number stay.
pub open spec fn drawn_from(before: Csprng, after: Csprng, len: nat, bytes: Seq<u8>) -> bool {
    &&& bytes == before.upcoming(len)
    &&& after.seed() == before.seed()
    &&& after.stream() == before.stream()
    &&& after.word_pos() == pos_after(before.word_pos(), len)
}

/// Fills `dest` from the main generator, which must be seeded.
pub fn fill_rand_slice(state: &mut DualCsprng, dest: &mut [u8])
    requires
        old(state).main_generator() is Some,
    ensures
        final(state).main_generator() matches Some(g) && drawn_from(
            old(state).main_generator()->0,
            g,
            old(dest)@.len(),
            final(dest)@,
        ),
        final(state).secondary_generator() == old(state).secondary_generator(),
{
    match &mut state.main {
        Some(generator) => generator.fill_bytes(dest),
        None => {},
    }
}

/// Fills `dest` from the secondary generator, which must be seeded.
pub fn fill_rand_slice_secondary(state: &mut DualCsprng, dest: &mut [u8])
    requires
        old(state).secondary_generator() is Some,
    ensures
        final(state).secondary_generator() matches Some(g) && drawn_from(
            old(state).secondary_generator()->0,
            g,
            old(dest)@.len(),
            final(dest)@,
        ),
        final(state).main_generator() == old(state).main_generator(),
{
    match &mut state.secondary {
        Some(generator) => generator.fill_bytes(dest),
        None => {},
    }
}

/// Fills continue one output: after a fill of a whole number of words, the
/// next fill gives what a single fill of both lengths would have given
/// behind the first part, and ends where that single fill would have ended.
/// Nothing is given out twice and nothing is skipped.
pub proof fn consecutive_fills_continue(
    start: Csprng,
    between: Csprng,
    end: Csprng,
    first: Seq<u8>,
    second: Seq<u8>,
)
    requires
        first.len() % 4 == 0,
        drawn_from(start, between, first.len(), first),
        drawn_from(between, end, second.len(), second),
    ensures
        drawn_from(start, end, first.len() + second.len(), first + second),
{
    let n = first.len();
    let m = second.len();
    let p = start.word_pos();
    let whole = start.upcoming(n + m);
    assert forall|i: int| 0 <= i < n + m implies (first + second)[i] == whole[i] by {
        if i >= n {
            wrapped_position_is_the_same(p + n / 4, m, i - n);
            assert(4 * (p + n / 4) + (i - n) == 4 * p + i);
        }
    }
    assert(first + second =~= whole);
    wrapped_position_is_the_same(p + n / 4, m, 0);
    assert((p + n / 4) + (m + 3) / 4 == p + (n + m + 3) / 4);
}

/// A fill of nothing draws nothing: the generator stands where it stood, so
/// what it gives out next is what it would have given out anyway.
pub proof fn empty_fill_changes_nothing(before: Csprng, after: Csprng, bytes: Seq<u8>, len: nat)
    requires
        drawn_from(before, after, 0, bytes),
    ensures
        bytes.len() == 0,
        after.word_pos() == before.word_pos(),
        after.upcoming(len) == before.upcoming(len),
{
    before.position_is_within_the_output();
    lemma_small_mod(before.word_pos(), stream_words());
}

/// Initialising twice is initialising once: after a first initialisation a
/// second one, whatever samples it is given, leaves both generators exactly
/// as they were, so everything they give out afterwards is the same.
pub proof fn second_init_changes_nothing(
    fresh: DualCsprng,
    once: DualCsprng,
    twice: DualCsprng,
    first_uninit_memory: Seq<u8>,
    first_secret: Seq<u8>,
    first_adc: Seq<u8>,
    first_clock_drift: Seq<u8>,
    second_uninit_memory: Seq<u8>,
    second_secret: Seq<u8>,
    second_adc: Seq<u8>,
    second_clock_drift: Seq<u8>,
)
    requires
        initialized_from(
            fresh,
            once,
            first_uninit_memory,
            first_secret,
            first_adc,
            first_clock_drift,
        ),
        initialized_from(
            once,
            twice,
            second_uninit_memory,
            second_secret,
            second_adc,
            second_clock_drift,
        ),
    ensures
        twice == once,
        once.secondary_generator() is Some,
        once.main_generator() is Some,
{
}

/// An initialisation between two fills changes nothing: the second fill
/// goes on where the first one ended, as if the generator had never been
/// initialised again.
pub proof fn fills_around_an_init_continue(
    start: DualCsprng,
    filled: DualCsprng,
    initialized: DualCsprng,
    end: DualCsprng,
    uninit_memory: Seq<u8>,
    secret: Seq<u8>,
    adc: Seq<u8>,
    clock_drift: Seq<u8>,
    first: Seq<u8>,
    second: Seq<u8>,
)
    requires
        first.len() % 4 == 0,
        start.main_generator() is Some,
        filled.main_generator() is Some,
        end.main_generator() is Some,
        drawn_from(start.main_generator()->0, filled.main_generator()->0, first.len(), first),
        initialized_from(filled, initialized, uninit_memory, secret, adc, clock_drift),
        initialized.main_generator() is Some ==> drawn_from(
            initialized.main_generator()->0,
            end.main_generator()->0,
            second.len(),
            second,
        ),
    ensures
        drawn_from(
            start.main_generator()->0,
            end.main_generator()->0,
            first.len() + second.len(),
            first + second,
        ),
{
    consecutive_fills_continue(
        start.main_generator()->0,
        filled.main_generator()->0,
        end.main_generator()->0,
        first,
        second,
    );
}

} // verus!
