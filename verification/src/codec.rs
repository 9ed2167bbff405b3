//! The binary form of a tree, with a ceiling on its size.

use crate::tree::{glyphs_of, lemma_tokens_and_glyphs, tokens_of, Root, Token};
use vstd::prelude::*;

verus! {

/// The ceiling on the size of an encoded tree that the engine itself sets: 1 MiB.
pub const MAX_SIZE: usize = 1048576;

/// The input bytes are not the binary form of a tree.
#[derive(Debug)]
pub struct DecodeFailure;

/// The error type of `bincode`.
#[verifier::external_type_specification]
#[verifier::external_body]
pub struct ExErrorKind(bincode::ErrorKind);

/// What `bincode::deserialize_from` makes of `bytes` when asked for a sequence
/// of characters: the sequence, or nothing where it reports an error.
pub uninterp spec fn bincode_decoded(bytes: Seq<u8>) -> Option<Seq<char>>;

/// The bytes that `bincode` writes for a sequence of characters under its
/// default little-endian, fixed-width configuration: the count in eight bytes,
/// then each character in UTF-8.
pub open spec fn bincode_encoded(glyphs: Seq<char>) -> Seq<u8> {
    vstd::bytes::spec_u64_to_le_bytes(glyphs.len() as u64) + vstd::utf8::encode_utf8(glyphs)
}

/// `bincode::deserialize_from` on a byte slice, asked for a sequence of
/// characters. Its outcome depends on the bytes alone.
#[verifier::external_body]
fn deserialize_glyphs(data: &[u8]) -> (r: Result<Vec<char>, Box<bincode::ErrorKind>>)
    ensures
        match r {
            Ok(glyphs) => bincode_decoded(data@) == Some(glyphs@),
            Err(_) => bincode_decoded(data@) is None,
        },
{
    bincode::deserialize_from(data)
}

/// `Config::serialize_into` with the byte limit set to `limit`, writing at the
/// end of `out`. It succeeds exactly when the encoding is no longer than
/// `limit`; on failure nothing is written. What it has written is read back by
/// `bincode::deserialize_from` as the same characters.
#[verifier::external_body]
fn serialize_glyphs_into(out: &mut Vec<u8>, glyphs: &Vec<char>, limit: u64) -> (r: Result<
    (),
    Box<bincode::ErrorKind>,
>)
    ensures
        r is Ok <==> bincode_encoded(glyphs@).len() <= limit,
        r is Ok ==> final(out)@ == old(out)@ + bincode_encoded(glyphs@),
        r is Ok ==> bincode_decoded(final(out)@.skip(old(out)@.len() as int)) == Some(glyphs@),
        r is Err ==> final(out)@ == old(out)@,
{
    let mut c = bincode::config();
    c.limit(limit);
    c.serialize_into(out, glyphs)
}

/// The binary form of a tree.
pub open spec fn encoding(tokens: Seq<Token>) -> Seq<u8> {
    bincode_encoded(glyphs_of(tokens))
}

/// The tree that `bytes` is the binary form of, if it is one.
pub open spec fn decoding(bytes: Seq<u8>) -> Option<Seq<Token>> {
    match bincode_decoded(bytes) {
        Some(glyphs) => Some(tokens_of(glyphs)),
        None => None,
    }
}

/// The most bytes the encoding of a tree of `n` children takes: eight for the
/// count and four for each child.
pub open spec fn encoding_bound(n: nat) -> nat {
    8 + 4 * n
}

/// Each character takes from one to four bytes in UTF-8.
pub proof fn lemma_utf8_length(glyphs: Seq<char>)
    ensures
        glyphs.len() <= vstd::utf8::encode_utf8(glyphs).len() <= 4 * glyphs.len(),
    decreases glyphs.len(),
{
    if glyphs.len() > 0 {
        lemma_utf8_length(glyphs.drop_first());
    }
}

/// An encoding is never empty: it takes eight bytes for the count and from one
/// to four for each child.
pub proof fn lemma_encoding_length(tokens: Seq<Token>)
    ensures
        8 + tokens.len() <= encoding(tokens).len() <= encoding_bound(tokens.len()),
{
    vstd::bytes::lemma_auto_spec_u64_to_from_le_bytes();
    lemma_utf8_length(glyphs_of(tokens));
}

/// Decodes a tree. Truncated or malformed input is a failure, not a panic.
pub fn decode(data: &[u8]) -> (r: Result<Root, DecodeFailure>)
    ensures
        match r {
            Ok(tree) => decoding(data@) == Some(tree@),
            Err(_) => decoding(data@) is None,
        },
{
    match deserialize_glyphs(data) {
        Ok(glyphs) => Ok(Root::from_glyphs(&glyphs)),
        Err(_) => Err(DecodeFailure),
    }
}

/// Clears `out` and encodes `tree` into it, unless the encoding would be
/// longer than `max_size`: then `out` stays empty. Returns the number of bytes
/// written, which is 0 exactly when nothing was. A tree that was written
/// decodes to itself again.
pub fn encode(tree: &Root, out: &mut Vec<u8>, max_size: usize) -> (len: usize)
    ensures
        len == final(out)@.len(),
        len <= max_size,
        encoding(tree@).len() <= max_size ==> final(out)@ == encoding(tree@) && decoding(
            final(out)@,
        ) == Some(tree@),
        encoding(tree@).len() > max_size ==> final(out)@.len() == 0,
        len > 0 <==> encoding(tree@).len() <= max_size,
        encoding_bound(tree@.len()) <= max_size ==> len >= 8,
{
    proof {
        lemma_encoding_length(tree@);
    }
    out.clear();
    let glyphs = tree.glyphs();
    match serialize_glyphs_into(out, &glyphs, max_size as u64) {
        Ok(_) => {
            proof {
                assert(out@.skip(0) =~= out@);
                assert(out@ =~= bincode_encoded(glyphs@));
                lemma_tokens_and_glyphs(tree@, glyphs@);
            }
            out.len()
        },
        Err(_) => 0,
    }
}

} // verus!
