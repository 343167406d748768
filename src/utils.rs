//! The seeded index generator and the error type shared by the builders.
use rand::Rng;
use rand_chacha::rand_core::SeedableRng;
use rand_chacha::ChaCha20Rng;
use crate::username::SizeType;
use vstd::prelude::*;

verus! {

/// The ChaCha20 generator of `rand_chacha`, carried as an opaque value: what
/// is known of it is its seed and how far along its key stream it stands.
#[verifier::external_type_specification]
#[verifier::external_body]
pub struct ExChaCha20Rng(ChaCha20Rng);

/// The seed that a generator was made from with `seed_from_u64`.
pub uninterp spec fn rng_seed(r: ChaCha20Rng) -> u64;

/// How many 32-bit words of its key stream a generator has handed out.
pub uninterp spec fn rng_pos(r: ChaCha20Rng) -> nat;

/// The word at position `pos` of the ChaCha20 key stream of the generator
/// made by `ChaCha20Rng::seed_from_u64(seed)`.
pub uninterp spec fn chacha_word(seed: u64, pos: nat) -> u32;

/// Relies on `ChaCha20Rng::seed_from_u64` (from `rand_core::SeedableRng`):
/// a fresh generator keyed by the seed, positioned at the start of its stream.
#[verifier::external_body]
fn seeded_rng(seed: u64) -> (r: ChaCha20Rng)
    ensures
        rng_seed(r) == seed,
        rng_pos(r) == 0,
{
    ChaCha20Rng::seed_from_u64(seed)
}

/// Relies on `rand::Rng::gen::<u32>` on a `ChaCha20Rng`: it returns the next
/// word of the key stream (`next_u32`) and moves one word on.
#[verifier::external_body]
fn next_word(rng: &mut ChaCha20Rng) -> (r: u32)
    ensures
        r == chacha_word(rng_seed(*old(rng)), rng_pos(*old(rng))),
        rng_seed(*final(rng)) == rng_seed(*old(rng)),
        rng_pos(*final(rng)) == rng_pos(*old(rng)) + 1,
{
    rng.gen::<u32>()
}

/// Relies on `String::push`: appends one character.
#[verifier::external_body]
pub(crate) fn push_char(s: &mut String, c: char)
    ensures
        final(s)@ == old(s)@.push(c),
{
    s.push(c)
}

/// What can go wrong while building credentials.
#[derive(Debug)]
pub enum CredError {
    /// A word list was not found; holds its name.
    MissingResource(String),
    /// A word list holds no word; holds its name.
    EmptyResource(String),
    /// An index could not be fetched from the list, which is empty.
    Lookup(SizeType),
    /// The uppercase form of a character is not exactly one character.
    Conversion,
    /// The password asked for is shorter than the four character classes.
    PasswordTooShort(u32),
    /// No password drawn within the attempt limit met the requirements.
    AttemptsExhausted,
}

/// The message for an index that could not be fetched from the list `name`.
pub fn index_err(name: &str) -> (r: String)
    ensures
        r@ == "Could not fetch index from "@ + name@,
{
    let s = String::from_str("Could not fetch index from ");
    s.concat(name)
}

/// The index drawn from the word at `pos` of the stream of `seed`, below `max_len`.
pub open spec fn index_at(seed: u64, pos: nat, max_len: u32) -> nat
    recommends
        max_len > 0,
{
    (chacha_word(seed, pos) % max_len) as nat
}

/// A deterministic source of indices, keyed by a 64-bit seed.
pub struct IndexGen {
    rng: ChaCha20Rng,
}

impl IndexGen {
    /// The seed this generator was made from.
    pub closed spec fn seed(&self) -> u64 {
        rng_seed(self.rng)
    }

    /// How many draws this generator has made.
    pub closed spec fn pos(&self) -> nat {
        rng_pos(self.rng)
    }

    pub fn new(seed: u64) -> (g: IndexGen)
        ensures
            g.seed() == seed,
            g.pos() == 0,
    {
        IndexGen { rng: seeded_rng(seed) }
    }

    /// Draws one word of the stream and reduces it modulo `max_len`.
    pub fn gen_index(&mut self, max_len: u32) -> (r: usize)
        requires
            max_len > 0,
        ensures
            r as nat == index_at(old(self).seed(), old(self).pos(), max_len),
            r < max_len,
            final(self).seed() == old(self).seed(),
            final(self).pos() == old(self).pos() + 1,
    {
        let a: u32 = next_word(&mut self.rng) % max_len;
        a as usize
    }
}

} // verus!

verus! {

/// The indices drawn one after another for the bounds `maxes` by a
/// generator at position `pos` of the stream of `seed`.
pub open spec fn draws(seed: u64, pos: nat, maxes: Seq<u32>) -> Seq<nat> {
    Seq::new(maxes.len(), |i: int| index_at(seed, (pos + i) as nat, maxes[i]))
}

/// Determinism: generators made from the same seed, after the same number
/// of draws, draw the same indices for any sequence of bounds. With
/// `IndexGen::new`, which starts every generator of a seed at position zero,
/// a generator's draws depend on its seed alone.
pub proof fn lemma_same_seed_same_draws(a: IndexGen, b: IndexGen, maxes: Seq<u32>)
    requires
        a.seed() == b.seed(),
        a.pos() == b.pos(),
    ensures
        draws(a.seed(), a.pos(), maxes) == draws(b.seed(), b.pos(), maxes),
        forall|i: int|
            0 <= i < maxes.len() ==> #[trigger] draws(a.seed(), a.pos(), maxes)[i] == index_at(
                a.seed(),
                (a.pos() + i) as nat,
                maxes[i],
            ),
{
}

} // verus!
