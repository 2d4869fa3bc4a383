//! Deterministic keypair derivation from a seed phrase.
//!
//! A phrase is reduced to a 64-bit seed by an order-sensitive hash of its
//! words; a pseudo-random generator seeded with that integer drives one
//! elliptic-curve keypair draw. The same word sequence therefore always
//! regenerates the same keypair — that is what makes recovery work. The
//! reachable key space is bounded by the 64-bit seed space, far below the
//! curve's key space: a known, deliberate limitation kept for recovery
//! compatibility.

use vstd::prelude::*;

use std::hash::{Hash, Hasher};
use rand::SeedableRng;

use crate::hexutil::hex_of;
use crate::phrase;

verus! {

/// The 64-bit seed that the standard hasher reads off a word sequence.
pub uninterp spec fn seed_of(words: Seq<Seq<char>>) -> u64;

/// The 32 secret-scalar bytes of the keypair drawn from a seed.
pub uninterp spec fn secret_bytes_of(seed: u64) -> Seq<u8>;

/// The 33-byte compressed encoding of the public point drawn from a seed.
pub uninterp spec fn compressed_of(seed: u64) -> Seq<u8>;

/// The 65-byte uncompressed encoding of the public point drawn from a seed.
pub uninterp spec fn uncompressed_of(seed: u64) -> Seq<u8>;

/// Reduces a word sequence to a 64-bit seed.
///
/// Relies on std's `DefaultHasher` (`new` always starts from the same fixed
/// state) together with `Hash::hash` for `Vec<String>` and `Hasher::finish`:
/// the result is an order-sensitive function of the words alone, for the
/// toolchain this library is built with.
#[verifier::external_body]
fn hash_words(words: &Vec<String>) -> (r: u64)
    ensures
        r == seed_of(words.deep_view()),
{
    let mut hasher = std::collections::hash_map::DefaultHasher::new();
    words.hash(&mut hasher);
    hasher.finish()
}

/// Draws one keypair from a 64-bit seed.
///
/// Relies on rand's `StdRng::seed_from_u64` and secp256k1's
/// `Secp256k1::generate_keypair`: the generator's stream is a function of the
/// seed alone, and the keypair is a function of that stream, so all three
/// encodings depend on the seed alone. `secret_bytes` returns the 32 scalar
/// bytes; `serialize` the 33-byte compressed point; `serialize_uncompressed`
/// the 65-byte uncompressed point, whose leading byte is the standard
/// uncompressed-point marker 4.
#[verifier::external_body]
fn draw_keypair(seed: u64) -> (r: (Vec<u8>, Vec<u8>, Vec<u8>))
    ensures
        r.0@ == secret_bytes_of(seed),
        r.1@ == compressed_of(seed),
        r.2@ == uncompressed_of(seed),
        r.0@.len() == 32,
        r.1@.len() == 33,
        r.2@.len() == 65,
        r.2@[0] == 4u8,
{
    let secp = secp256k1::Secp256k1::new();
    let mut rng = rand::rngs::StdRng::seed_from_u64(seed);
    let (secret_key, public_key) = secp.generate_keypair(&mut rng);
    (
        secret_key.secret_bytes().to_vec(),
        public_key.serialize().to_vec(),
        public_key.serialize_uncompressed().to_vec(),
    )
}

/// An elliptic-curve keypair, held as the plain byte encodings that the rest
/// of the system reads: the secret scalar, and the public point in compressed
/// and in uncompressed form.
pub struct Keypair {
    pub secret_bytes: Vec<u8>,
    pub public_compressed: Vec<u8>,
    pub public_uncompressed: Vec<u8>,
}

impl Keypair {
    /// The shapes every keypair drawn from the curve has: 32 secret bytes, a
    /// 33-byte compressed point, and a 65-byte uncompressed point led by the
    /// uncompressed-point marker.
    pub open spec fn wf(&self) -> bool {
        &&& self.secret_bytes@.len() == 32
        &&& self.public_compressed@.len() == 33
        &&& self.public_uncompressed@.len() == 65
        &&& self.public_uncompressed@[0] == 4u8
    }

    /// Whether this keypair is exactly the one that derivation yields for the
    /// given word sequence.
    pub open spec fn derived_from(&self, words: Seq<Seq<char>>) -> bool {
        &&& self.secret_bytes@ == secret_bytes_of(seed_of(words))
        &&& self.public_compressed@ == compressed_of(seed_of(words))
        &&& self.public_uncompressed@ == uncompressed_of(seed_of(words))
    }

    /// The canonical stored form of the secret key: 64 lowercase hex characters.
    pub fn secret_hex(&self) -> (r: String)
        ensures
            r@ == hex_of(self.secret_bytes@),
            r@.len() == 2 * self.secret_bytes@.len(),
    {
        crate::hexutil::hex_encode(self.secret_bytes.as_slice())
    }

    /// The canonical stored form of the public key: 66 lowercase hex
    /// characters of the compressed point.
    pub fn public_hex(&self) -> (r: String)
        ensures
            r@ == hex_of(self.public_compressed@),
            r@.len() == 2 * self.public_compressed@.len(),
    {
        crate::hexutil::hex_encode(self.public_compressed.as_slice())
    }
}

/// Derives the keypair that belongs to a caller-supplied recovery phrase.
///
/// The keypair is a pure function of the word sequence's contents and order:
/// re-supplying an identical sequence always regenerates the identical
/// keypair, which is what lets a wallet be recovered from its phrase alone.
pub fn generate_keypair_from_seed(recovery_phrase: Vec<String>) -> (r: (Vec<String>, Keypair))
    ensures
        r.0 == recovery_phrase,
        r.1.wf(),
        r.1.derived_from(recovery_phrase.deep_view()),
{
    let seed = hash_words(&recovery_phrase);
    let (secret_bytes, public_compressed, public_uncompressed) = draw_keypair(seed);
    (recovery_phrase, Keypair { secret_bytes, public_compressed, public_uncompressed })
}

/// Derivation is deterministic: any two keypairs derived from the same word
/// sequence — whenever and however often the derivation runs — carry the same
/// secret and the same public encodings. Recovery therefore never needs the
/// secret key stored anywhere but the local record.
pub proof fn lemma_derivation_deterministic(a: Keypair, b: Keypair, words: Seq<Seq<char>>)
    requires
        a.derived_from(words),
        b.derived_from(words),
    ensures
        a.secret_bytes@ == b.secret_bytes@,
        a.public_compressed@ == b.public_compressed@,
        a.public_uncompressed@ == b.public_uncompressed@,
{
}

/// Samples a fresh seed phrase from a word list and derives its keypair.
///
/// The draw is random; determinism holds downstream of it: the returned
/// keypair is the one that `generate_keypair_from_seed` yields for the
/// returned phrase.
pub fn generate_keypair(words: Vec<String>) -> (r: (Vec<String>, Keypair))
    ensures
        r.0@.len() == if words@.len() < phrase::PHRASE_LEN {
            words@.len() as int
        } else {
            phrase::PHRASE_LEN as int
        },
        forall|k: int|
            0 <= k < r.0@.len() ==> words.deep_view().contains(#[trigger] r.0.deep_view()[k]),
        r.0.deep_view().to_multiset().subset_of(words.deep_view().to_multiset()),
        phrase::all_distinct(words.deep_view()) ==> phrase::all_distinct(r.0.deep_view()),
        r.1.wf(),
        r.1.derived_from(r.0.deep_view()),
{
    let chosen = phrase::choose_words(words);
    generate_keypair_from_seed(chosen)
}

} // verus!
