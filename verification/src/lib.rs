//! A grammar-aware mutation engine for a fuzzing host.
//!
//! A tree is an ordered sequence of tokens. The engine decodes a tree from
//! bytes, applies exactly one structural edit chosen by weighted reservoir
//! sampling, and encodes the result under a size ceiling. It also renders a
//! tree as text and assembles a new tree from cut segments of two others.

pub mod bridge;
pub mod chance;
pub mod codec;
pub mod sampler;
pub mod splicer;
pub mod tree;

pub use bridge::{afl_custom_mutator, afl_custom_splicer, afl_pre_save_handler};
pub use codec::{decode, encode, DecodeFailure, MAX_SIZE};
pub use sampler::{Mutation, WeightedReservoirSampler, DEFAULT_MUTATE_WEIGHT};
pub use tree::{pretty, Node, Root, Token};
