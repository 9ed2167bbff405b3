//! Assembling a new tree from cut segments of two others.

use crate::chance::draw_in_range;
use crate::tree::{Root, Token};
use vstd::prelude::*;

verus! {

/// The children of the assembled tree: those of `first` in front of `a`, then
/// the slice of `second` from `c` up to, not including, `d`, then those of
/// `first` from `b` on. The slice is empty unless `c < d`, so a caller hands
/// over the smaller cut point of `second` as `c` and the larger one as `d`.
pub open spec fn spliced(
    first: Seq<Token>,
    second: Seq<Token>,
    a: int,
    b: int,
    c: int,
    d: int,
) -> Seq<Token> {
    first.subrange(0, a) + (if c < d {
        second.subrange(c, d)
    } else {
        Seq::<Token>::empty()
    }) + first.subrange(b, first.len() as int)
}

/// The two numbers with the larger one in front.
pub fn ordered(x: usize, y: usize) -> (points: (usize, usize))
    ensures
        points.0 == if x >= y { x } else { y },
        points.1 == if x >= y { y } else { x },
{
    let mut a: usize = x;
    let mut b: usize = y;
    if b > a {
        let tmp = b;
        b = a;
        a = tmp;
    }
    (a, b)
}

/// Two positions drawn independently from `start` up to, not including, `end`,
/// the larger one in front.
pub fn get_splicing_points(start: usize, end: usize) -> (points: (usize, usize))
    requires
        start < end,
    ensures
        start <= points.1 <= points.0 < end,
{
    let a: usize = draw_in_range(start as u64, end as u64) as usize;
    let b: usize = draw_in_range(start as u64, end as u64) as usize;
    ordered(a, b)
}

/// The cut points for a tree of `len` children: both 0 for an empty tree,
/// drawn from its positions otherwise.
pub fn cut_points(len: usize) -> (points: (usize, usize))
    ensures
        points.1 <= points.0 <= len,
        len > 0 ==> points.0 < len,
{
    if len == 0 {
        (0, 0)
    } else {
        get_splicing_points(0, len)
    }
}

/// Assembles a tree from `first` and `second` at the given cut points.
pub fn splice(first: &Root, second: &Root, a: usize, b: usize, c: usize, d: usize) -> (tree: Root)
    requires
        a <= first@.len(),
        b <= first@.len(),
        c < d ==> d <= second@.len(),
    ensures
        tree@ == spliced(first@, second@, a as int, b as int, c as int, d as int),
{
    let mut children: Vec<Token> = Vec::new();
    let mut i: usize = 0;
    while i < a
        invariant
            i <= a <= first@.len(),
            children@ == first@.subrange(0, i as int),
        decreases a - i,
    {
        children.push(first.children[i]);
        i = i + 1;
    }
    let ghost front = children@;
    let mut j: usize = c;
    while j < d
        invariant
            c < d ==> c <= j <= d <= second@.len(),
            c >= d ==> j == c,
            children@ == front + (if c < d {
                second@.subrange(c as int, j as int)
            } else {
                Seq::<Token>::empty()
            }),
        decreases d - j,
    {
        children.push(second.children[j]);
        j = j + 1;
    }
    let ghost middle = children@;
    let len = first.children.len();
    let mut k: usize = b;
    while k < len
        invariant
            len == first@.len(),
            b <= k <= len,
            children@ == middle + first@.subrange(b as int, k as int),
        decreases len - k,
    {
        children.push(first.children[k]);
        k = k + 1;
    }
    Root { children }
}

} // verus!
