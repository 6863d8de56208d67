//! The tokens that decide where the mines go: drawn at random, or from a
//! hasher that is fed the seed once more before each draw.

use vstd::prelude::*;
use vstd::std_specs::hash::DefaultHasherAdditionalSpecFns;
use std::collections::hash_map::DefaultHasher;
use std::hash::{Hash, Hasher};

verus! {

/// What a `DefaultHasher` with the writes `state` behind it has behind it
/// once `text` was hashed into it as a string.
pub uninterp spec fn hashed_text(state: Seq<Seq<u8>>, text: Seq<char>) -> Seq<Seq<u8>>;

/// Hashes `seed` into `hasher` with `<String as Hash>::hash`.
///
/// Trusted: the writes the hasher has seen afterwards depend on nothing but
/// the writes it had seen before and the text of the seed. No more is
/// claimed of them.
#[verifier::external_body]
pub(crate) fn feed_seed(hasher: &mut DefaultHasher, seed: &String)
    ensures
        final(hasher)@ == hashed_text(old(hasher)@, seed@),
{
    seed.hash(hasher);
}

/// Draws a token with `rand::random::<u64>()`.
///
/// Trusted, and nothing is claimed of the token: any value may come back.
/// The generator behind it is seeded by the system, and the call panics
/// where the system has no randomness to give.
#[verifier::external_body]
pub(crate) fn random_token() -> (token: u64) {
    rand::random::<u64>()
}

/// What the hasher of a seeded game has seen after `draws` draws: the seed,
/// hashed in once for each.
pub open spec fn seed_state(seed: Seq<char>, draws: nat) -> Seq<Seq<u8>>
    decreases draws,
{
    if draws == 0 {
        Seq::empty()
    } else {
        hashed_text(seed_state(seed, (draws - 1) as nat), seed)
    }
}

/// The token of draw number `i` of a seeded game, counted from zero.
pub open spec fn seed_token(seed: Seq<char>, i: nat) -> u64 {
    DefaultHasher::spec_finish(seed_state(seed, i + 1))
}

/// Whether `tokens` can be the first draws of a game with this seed. With
/// a seed they are the tokens of that seed; without one any will do.
pub open spec fn drawn(seed: Option<Seq<char>>, tokens: Seq<u64>) -> bool {
    match seed {
        Some(s) => forall|i: int|
            0 <= i < tokens.len() ==> #[trigger] tokens[i] == seed_token(s, i as nat),
        None => true,
    }
}

/// Whether a token asks for a mine: 23 times the token plus 7 is a
/// multiple of 53. The product is taken in whole numbers, with nothing cut
/// off at 64 bits, so one token in 53 asks for a mine: those that leave
/// the remainder 2.
pub open spec fn token_hits(token: u64) -> bool {
    (token * 23 + 7) % 53 == 0
}

/// The tokens that ask for a mine are those that leave the remainder 2
/// when divided by 53.
pub proof fn law_one_token_in_53_hits(token: u64)
    ensures
        token_hits(token) <==> token % 53 == 2,
{
    let q = token as int / 53;
    let r = token as int % 53;
    assert(token == 53 * q + r && 0 <= r < 53);
    assert(token * 23 + 7 == 53 * (23 * q) + (23 * r + 7));
    assert((53 * (23 * q) + (23 * r + 7)) % 53 == (23 * r + 7) % 53) by (nonlinear_arith)
        requires
            0 <= r < 53,
    ;
}

/// Whether a token asks for a mine.
pub fn hits(token: u64) -> (r: bool)
    ensures
        r == token_hits(token),
{
    (token as u128 * 23 + 7) % 53 == 0
}

/// Whether the tile under the scan becomes a mine: the token asks for one,
/// none is there yet, and the tile lies outside the safe zone.
pub fn becomes_mine(token: u64, already: bool, eligible: bool) -> (r: bool)
    ensures
        r == (token_hits(token) && !already && eligible),
{
    hits(token) && !already && eligible
}

/// The next token of the game: of the seed where there is one, which is
/// hashed in once more, else a random one.
pub(crate) fn next_token(hasher: &mut DefaultHasher, seed: &Option<String>) -> (token: u64)
    ensures
        match *seed {
            Some(s) => {
                &&& final(hasher)@ == hashed_text(old(hasher)@, s@)
                &&& token == DefaultHasher::spec_finish(final(hasher)@)
            },
            None => final(hasher)@ == old(hasher)@,
        },
{
    match seed {
        Some(s) => {
            feed_seed(hasher, s);
            DefaultHasher::finish(hasher)
        },
        None => random_token(),
    }
}

} // verus!
