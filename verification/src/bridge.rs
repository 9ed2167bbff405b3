//! The three operations the fuzzing host calls, on byte slices and on scratch
//! buffers that the caller keeps from one call to the next.

use crate::chance::{random_tree, MAX_RANDOM_CHILDREN};
use crate::codec::{decode, decoding, encode, encoding, encoding_bound, MAX_SIZE};
use crate::sampler::{countable, mutate_tree, mutation_of};
use crate::splicer::{cut_points, splice, spliced};
use crate::tree::{glyphs_of, Node, Root, Token};
use vstd::prelude::*;

verus! {

/// What a scratch buffer holds after `tree` was to be encoded into it under
/// `max_size`: the encoding where it fits, which decodes back to `tree`, and
/// nothing where it does not.
pub open spec fn written(tree: Seq<Token>, max_size: nat, out: Seq<u8>) -> bool {
    if encoding(tree).len() <= max_size {
        out == encoding(tree) && decoding(out) == Some(tree)
    } else {
        out.len() == 0
    }
}

/// Whether `tree` can come out of the mutation step for this decoded input: one
/// candidate edit of the input tree, or, where the input was no tree, any
/// freshly generated one.
pub open spec fn mutant_of(input: Option<Seq<Token>>, tree: Seq<Token>) -> bool {
    match input {
        Some(before) => mutation_of(before, tree),
        None => tree.len() <= MAX_RANDOM_CHILDREN,
    }
}

/// Whether `tree` can come out of the splicing step: the children of a freshly
/// generated tree in front of its larger cut point, then those of a second
/// one between its two cut points, then those of the first from its smaller
/// cut point on.
pub open spec fn splice_of_fresh(tree: Seq<Token>) -> bool {
    exists|first: Seq<Token>, second: Seq<Token>, a: int, b: int, c: int, d: int|
        first.len() <= MAX_RANDOM_CHILDREN && second.len() <= MAX_RANDOM_CHILDREN && 0 <= b <= a
            <= first.len() && 0 <= c <= d <= second.len() && tree == #[trigger] spliced(
            first,
            second,
            a,
            b,
            c,
            d,
        )
}

/// `String::clear`: the text is empty afterwards.
#[verifier::external_body]
fn clear_text(out: &mut String)
    ensures
        final(out)@ == Seq::<char>::empty(),
{
    out.clear();
}

/// Decodes `data`, applies one randomly chosen edit and encodes the result
/// into `mutated_out`, which is cleared first. Where `data` is no tree, a
/// freshly generated tree is encoded instead. Returns the number of bytes
/// written; 0, with nothing written, where the encoding would be longer than
/// `max_size` or the tree has more children than a sampling pass can count.
/// Whatever was written decodes to the tree that was encoded. Something is
/// written whenever `max_size` leaves room for the largest tree that can
/// result.
pub fn afl_custom_mutator(data: &[u8], mutated_out: &mut Vec<u8>, max_size: usize, _seed: u32) -> (len:
    usize)
    ensures
        len == final(mutated_out)@.len(),
        len <= max_size,
        match decoding(data@) {
            Some(before) if !countable(before.len()) => len == 0,
            input => exists|tree: Seq<Token>|
                mutant_of(input, tree) && #[trigger] written(
                    tree,
                    max_size as nat,
                    final(mutated_out)@,
                ),
        },
        len > 0 ==> exists|tree: Seq<Token>|
            mutant_of(decoding(data@), tree) && final(mutated_out)@ == encoding(tree)
                && #[trigger] decoding(final(mutated_out)@) == Some(tree),
        match decoding(data@) {
            Some(before) => countable(before.len()) && encoding_bound(before.len() + 1)
                <= max_size ==> len >= 8,
            None => encoding_bound(MAX_RANDOM_CHILDREN as nat) <= max_size ==> len >= 8,
        },
{
    match decode(data) {
        Ok(mut r) => {
            if mutate_tree(&mut r) {
                let len = encode(&r, mutated_out, max_size);
                assert(mutant_of(decoding(data@), r@) && written(
                    r@,
                    max_size as nat,
                    mutated_out@,
                ));
                assert(len > 0 ==> decoding(mutated_out@) == Some(r@));
                len
            } else {
                mutated_out.clear();
                0
            }
        },
        Err(_) => {
            let r = random_tree();
            let len = encode(&r, mutated_out, max_size);
            assert(mutant_of(decoding(data@), r@) && written(r@, max_size as nat, mutated_out@));
            assert(len > 0 ==> decoding(mutated_out@) == Some(r@));
            len
        },
    }
}

/// Clears `new_data`, decodes `data` and renders the tree into `new_data`.
/// Returns the length of the text in bytes. Where `data` is no tree, the text
/// stays empty and 0 is returned.
pub fn afl_pre_save_handler(data: &[u8], new_data: &mut String) -> (len: usize)
    ensures
        final(new_data)@ == match decoding(data@) {
            Some(tree) => glyphs_of(tree),
            None => Seq::<char>::empty(),
        },
        len == vstd::utf8::encode_utf8(final(new_data)@).len() as usize,
        decoding(data@) is None ==> len == 0,
{
    clear_text(new_data);
    match decode(data) {
        Ok(r) => {
            r.pp(new_data);
            assert(new_data@ =~= glyphs_of(r@));
            new_data.as_str().len()
        },
        Err(_) => {
            assert(new_data@ =~= Seq::<char>::empty());
            new_data.as_str().len()
        },
    }
}

/// Clears `new_data` and, where both inputs decode, encodes into it a tree
/// assembled from cut segments of two freshly generated trees, under the
/// ceiling `MAX_SIZE`. Returns the number of bytes written: 0, with nothing
/// written, exactly where either input is no tree. What was written decodes
/// to the assembled tree.
pub fn afl_custom_splicer(data1: &[u8], data2: &[u8], new_data: &mut Vec<u8>) -> (len: usize)
    ensures
        len == final(new_data)@.len(),
        len <= MAX_SIZE,
        decoding(data1@) is None || decoding(data2@) is None ==> len == 0,
        decoding(data1@) is Some && decoding(data2@) is Some ==> len >= 8 && exists|
            tree: Seq<Token>,
        |
            splice_of_fresh(tree) && final(new_data)@ == encoding(tree) && #[trigger] decoding(
                final(new_data)@,
            ) == Some(tree),
{
    new_data.clear();
    let result1 = decode(data1);
    let result2 = decode(data2);
    match result1 {
        Ok(_) => {
            match result2 {
                Ok(_) => {
                    let r1 = random_tree();
                    let r2 = random_tree();
                    let (a, b) = cut_points(r1.children.len());
                    let (c, d) = cut_points(r2.children.len());
                    let new_root = splice(&r1, &r2, a, b, d, c);
                    let len = encode(&new_root, new_data, MAX_SIZE);
                    assert(splice_of_fresh(new_root@)) by {
                        assert(new_root@ == spliced(
                            r1@,
                            r2@,
                            a as int,
                            b as int,
                            d as int,
                            c as int,
                        ));
                    }
                    assert(new_root@.len() <= 3 * MAX_RANDOM_CHILDREN);
                    assert(decoding(new_data@) == Some(new_root@));
                    len
                },
                Err(_) => 0,
            }
        },
        Err(_) => 0,
    }
}

} // verus!
