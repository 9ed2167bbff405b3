//! The random draws the engine makes, and what is built from them.

use crate::tree::{Root, Token};
use rand::Rng;
use vstd::prelude::*;

verus! {

/// The largest number of children a randomly generated tree has.
pub const MAX_RANDOM_CHILDREN: usize = 16;

/// `Rng::gen_range` on the thread's generator: some value that is at least
/// `low` and less than `high`. The generator panics on an empty range, so
/// `low < high` is required.
#[verifier::external_body]
pub(crate) fn draw_in_range(low: u64, high: u64) -> (r: u64)
    requires
        low < high,
    ensures
        low <= r < high,
{
    rand::thread_rng().gen_range(low, high)
}

/// `Rng::sample` of the standard distribution on the thread's generator:
/// some character.
#[verifier::external_body]
pub(crate) fn draw_glyph() -> char {
    rand::thread_rng().sample(rand::distributions::Standard)
}

/// A freshly generated token.
pub fn random_token() -> Token {
    Token { glyph: draw_glyph() }
}

/// A freshly generated tree of at most `MAX_RANDOM_CHILDREN` tokens.
pub fn random_tree() -> (tree: Root)
    ensures
        tree@.len() <= MAX_RANDOM_CHILDREN,
{
    let count: u64 = draw_in_range(0, MAX_RANDOM_CHILDREN as u64 + 1);
    let mut children: Vec<Token> = Vec::new();
    let mut i: u64 = 0;
    while i < count
        invariant
            i <= count,
            count <= MAX_RANDOM_CHILDREN,
            children@.len() == i,
        decreases count - i,
    {
        children.push(random_token());
        i = i + 1;
    }
    Root { children }
}

} // verus!
