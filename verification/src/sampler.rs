//! Choosing one structural edit by weighted reservoir sampling, and applying it.

use crate::chance::{draw_in_range, random_token};
use crate::tree::{Root, Token};
use vstd::prelude::*;

verus! {

/// The weight every candidate edit is considered with.
pub const DEFAULT_MUTATE_WEIGHT: u64 = 1000000u64;

/// One structural edit of a tree's children.
#[derive(Clone, Copy, Debug, PartialEq, Eq, Structural)]
pub enum Mutation {
    /// A fresh token goes in before the child at this index.
    Insert(usize),
    /// The child at this index goes away.
    Remove(usize),
    /// A fresh token takes the place of the child at this index.
    Replace(usize),
    /// A fresh token goes in after the last child.
    Append(),
}

impl Mutation {
    /// Whether this edit can be applied to a tree of `n` children. These are
    /// exactly the edits that are enumerated for such a tree.
    pub open spec fn valid_for(self, n: nat) -> bool {
        match self {
            Mutation::Insert(i) => i < n,
            Mutation::Remove(i) => i < n,
            Mutation::Replace(i) => i < n,
            Mutation::Append() => true,
        }
    }
}

/// The number of candidate edits of a tree of `n` children.
pub open spec fn candidate_count(n: nat) -> nat {
    3 * n + 1
}

/// The candidate edits of a tree of `n` children in the order in which they are
/// considered: insert, remove and replace at each index in turn, then append.
pub open spec fn candidate(n: nat, k: int) -> Mutation {
    if k >= 3 * n {
        Mutation::Append()
    } else if k % 3 == 0 {
        Mutation::Insert((k / 3) as usize)
    } else if k % 3 == 1 {
        Mutation::Remove((k / 3) as usize)
    } else {
        Mutation::Replace((k / 3) as usize)
    }
}

/// The children after `m` has been applied with `fresh` as the new token.
pub open spec fn applied(children: Seq<Token>, m: Mutation, fresh: Token) -> Seq<Token> {
    match m {
        Mutation::Insert(i) => children.insert(i as int, fresh),
        Mutation::Remove(i) => children.remove(i as int),
        Mutation::Replace(i) => children.update(i as int, fresh),
        Mutation::Append() => children.push(fresh),
    }
}

/// Whether `after` is `before` with at most one position touched: the two
/// agree on everything in front of some position `at`, one child is dropped
/// there, put in there, or both, and they agree on everything behind it.
pub open spec fn single_edit(before: Seq<Token>, after: Seq<Token>) -> bool {
    exists|at: int, dropped: int, added: int|
        #![trigger before.skip(at + dropped), after.skip(at + added)]
        0 <= at && 0 <= dropped <= 1 && 0 <= added <= 1 && at + dropped <= before.len() && at
            + added <= after.len() && before.take(at) == after.take(at) && before.skip(
            at + dropped,
        ) == after.skip(at + added)
}

/// Applying an edit that the tree admits changes the number of children by at
/// most one and touches no more than one position.
pub proof fn lemma_applied_is_single_edit(children: Seq<Token>, m: Mutation, fresh: Token)
    requires
        m.valid_for(children.len()),
    ensures
        single_edit(children, applied(children, m, fresh)),
        children.len() - 1 <= applied(children, m, fresh).len() <= children.len() + 1,
        m is Insert || m is Append ==> applied(children, m, fresh).len() == children.len() + 1,
        m is Remove ==> applied(children, m, fresh).len() == children.len() - 1,
        m is Replace ==> applied(children, m, fresh).len() == children.len(),
{
    let after = applied(children, m, fresh);
    match m {
        Mutation::Insert(i) => {
            assert(children.take(i as int) =~= after.take(i as int));
            assert(children.skip(i + 0) =~= after.skip(i + 1));
        },
        Mutation::Remove(i) => {
            assert(children.take(i as int) =~= after.take(i as int));
            assert(children.skip(i + 1) =~= after.skip(i + 0));
        },
        Mutation::Replace(i) => {
            assert(children.take(i as int) =~= after.take(i as int));
            assert(children.skip(i + 1) =~= after.skip(i + 1));
        },
        Mutation::Append() => {
            let n = children.len() as int;
            assert(children.take(n) =~= after.take(n));
            assert(children.skip(n + 0) =~= after.skip(n + 1));
        },
    }
}

/// Every edit that a tree of `n` children admits is one of its candidates, and
/// every candidate is an edit that it admits.
pub proof fn lemma_candidates_are_the_valid_edits(n: nat, m: Mutation)
    requires
        3 * n + 1 <= usize::MAX,
    ensures
        m.valid_for(n) <==> exists|k: int| 0 <= k < candidate_count(n) && candidate(n, k) == m,
{
    if m.valid_for(n) {
        let k: int = match m {
            Mutation::Insert(i) => 3 * i,
            Mutation::Remove(i) => 3 * i + 1,
            Mutation::Replace(i) => 3 * i + 2,
            Mutation::Append() => 3 * n as int,
        };
        assert(0 <= k < candidate_count(n) && candidate(n, k) == m);
    }
}

/// Applies `m` to the children of `tokens`, with `fresh` as the new token.
pub fn apply(tokens: &mut Root, m: Mutation, fresh: Token)
    requires
        m.valid_for(old(tokens)@.len()),
    ensures
        final(tokens)@ == applied(old(tokens)@, m, fresh),
{
    match m {
        Mutation::Insert(ith) => {
            tokens.children.insert(ith, fresh);
        },
        Mutation::Remove(ith) => {
            tokens.children.remove(ith);
        },
        Mutation::Replace(ith) => {
            tokens.children.set(ith, fresh);
        },
        Mutation::Append() => {
            tokens.children.push(fresh);
        },
    }
}

/// The largest number of children whose candidates' weights still add up
/// within a `u64`.
pub const MAX_MUTABLE_CHILDREN: u64 = 6148914691236u64;

/// Whether one pass over the candidates of a tree of `n` children can count
/// all their weights.
pub open spec fn countable(n: nat) -> bool {
    candidate_count(n) * DEFAULT_MUTATE_WEIGHT <= u64::MAX
}

/// Whether `after` is `before` with one of its candidate edits applied.
pub open spec fn mutation_of(before: Seq<Token>, after: Seq<Token>) -> bool {
    exists|m: Mutation, fresh: Token|
        m.valid_for(before.len()) && after == #[trigger] applied(before, m, fresh)
}

/// A tree with one candidate edit applied differs from the tree before by at
/// most one child in number, and in no more than one position.
pub proof fn lemma_mutation_is_single_edit(before: Seq<Token>, after: Seq<Token>)
    requires
        mutation_of(before, after),
    ensures
        single_edit(before, after),
        before.len() - 1 <= after.len() <= before.len() + 1,
{
    let (m, fresh) = choose|m: Mutation, fresh: Token|
        m.valid_for(before.len()) && after == #[trigger] applied(before, m, fresh);
    lemma_applied_is_single_edit(before, m, fresh);
}

/// The empty tree always has a candidate edit, and each one leaves exactly one
/// child.
pub proof fn lemma_mutation_of_empty_tree(after: Seq<Token>)
    requires
        mutation_of(Seq::<Token>::empty(), after),
    ensures
        countable(0),
        Mutation::Append().valid_for(0),
        after.len() == 1,
{
    let (m, fresh) = choose|m: Mutation, fresh: Token|
        m.valid_for(0) && after == #[trigger] applied(Seq::<Token>::empty(), m, fresh);
    assert(m == Mutation::Append());
}

/// Applies one edit, chosen at random among the candidates, to `tokens`.
/// Says `false`, and leaves the tree as it is, where the tree has more
/// children than a pass can count.
pub fn mutate_tree(tokens: &mut Root) -> (mutated: bool)
    ensures
        mutated == countable(old(tokens)@.len()),
        mutated ==> mutation_of(old(tokens)@, final(tokens)@),
        mutated ==> single_edit(old(tokens)@, final(tokens)@),
        mutated && old(tokens)@.len() == 0 ==> final(tokens)@.len() == 1,
        !mutated ==> final(tokens)@ == old(tokens)@,
        old(tokens)@.len() - 1 <= final(tokens)@.len() <= old(tokens)@.len() + 1,
{
    if tokens.children.len() as u64 > MAX_MUTABLE_CHILDREN {
        return false;
    }
    let mut sampler = WeightedReservoirSampler::new();
    sampler.mutate(tokens);
    true
}

/// Whether a candidate of weight `weight` takes the selection, given the number
/// drawn for it.
pub open spec fn accepted(weight: u64, draw: int) -> bool {
    draw <= weight
}

/// The numbers that can be drawn for a candidate once the total weight is
/// `total`: from 1 up to, not including, `total`.
pub open spec fn possible_draws(total: u64) -> Set<int> {
    Set::new(|draw: int| 1 <= draw < total)
}

/// Among the possible draws, those with which the candidate takes the selection.
pub open spec fn accepting_draws(weight: u64, total: u64) -> Set<int> {
    Set::new(|draw: int| 1 <= draw < total && accepted(weight, draw))
}

/// A candidate that is not the first takes the selection with `weight` of the
/// `total - 1` possible draws: as many as its weight, whatever came before.
pub proof fn lemma_accepting_draws(weight: u64, total: u64)
    requires
        0 < weight < total,
    ensures
        possible_draws(total).finite(),
        possible_draws(total).len() == total - 1,
        accepting_draws(weight, total).finite(),
        accepting_draws(weight, total).len() == weight,
        accepting_draws(weight, total).subset_of(possible_draws(total)),
{
    vstd::set_lib::lemma_int_range(1, total as int);
    vstd::set_lib::lemma_int_range(1, weight + 1);
    assert(possible_draws(total) =~= vstd::set_lib::set_int_range(1, total as int));
    assert(accepting_draws(weight, total) =~= vstd::set_lib::set_int_range(1, weight + 1));
}

/// Whether a candidate of weight `weight` takes the selection, given the number
/// drawn for it.
pub fn accepts(weight: u64, draw: u64) -> (taken: bool)
    ensures
        taken == accepted(weight, draw as int),
{
    draw <= weight
}

/// The state of one pass over a stream of weighted candidates: the weight seen
/// so far and the candidate currently selected.
pub struct WeightedReservoirSampler {
    pub total_weight: u64,
    pub selected: Mutation,
}

impl WeightedReservoirSampler {
    /// A sampler that has seen no candidate. Its selection is the edit that
    /// every tree admits.
    pub fn new() -> (sampler: WeightedReservoirSampler)
        ensures
            sampler.total_weight == 0,
            sampler.selected == Mutation::Append(),
    {
        WeightedReservoirSampler { total_weight: 0, selected: Mutation::Append() }
    }

    /// Counts a candidate of weight `weight` and says whether it takes the
    /// selection. A candidate of weight 0 is passed over. The first candidate
    /// of nonzero weight always takes it; a later one does so when the number
    /// drawn between 1 and the total weight is at most its own weight.
    pub fn pick(&mut self, weight: u64) -> (picked: bool)
        requires
            old(self).total_weight + weight <= u64::MAX,
        ensures
            final(self).selected == old(self).selected,
            final(self).total_weight == old(self).total_weight + weight,
            weight == 0 ==> !picked,
            weight > 0 && old(self).total_weight == 0 ==> picked,
            weight > 0 && old(self).total_weight > 0 ==> exists|draw: int|
                possible_draws(final(self).total_weight).contains(draw) && picked == #[trigger] accepted(
                    weight,
                    draw,
                ),
    {
        if weight == 0 {
            return false;
        }
        self.total_weight += weight;
        if weight == self.total_weight {
            true
        } else {
            let draw = draw_in_range(1, self.total_weight);
            let picked = accepts(weight, draw);
            assert(possible_draws(self.total_weight).contains(draw as int) && picked == accepted(
                weight,
                draw as int,
            ));
            picked
        }
    }

    /// Considers every candidate edit of `tokens` in order, each with the
    /// default weight, then applies the one that ends up selected, with a
    /// freshly generated token where the edit takes one.
    pub fn mutate(&mut self, tokens: &mut Root)
        requires
            old(self).selected.valid_for(old(tokens)@.len()),
            old(self).total_weight + candidate_count(old(tokens)@.len()) * DEFAULT_MUTATE_WEIGHT
                <= u64::MAX,
        ensures
            final(self).total_weight == old(self).total_weight + candidate_count(
                old(tokens)@.len(),
            ) * DEFAULT_MUTATE_WEIGHT,
            final(self).selected.valid_for(old(tokens)@.len()),
            exists|fresh: Token|
                final(tokens)@ == #[trigger] applied(old(tokens)@, final(self).selected, fresh),
            single_edit(old(tokens)@, final(tokens)@),
            old(tokens)@.len() - 1 <= final(tokens)@.len() <= old(tokens)@.len() + 1,
            old(tokens)@.len() == 0 ==> final(tokens)@.len() == 1,
    {
        let n = tokens.children.len();
        let mut token_ith: usize = 0;
        while token_ith < n
            invariant
                n == tokens@.len(),
                tokens@ == old(tokens)@,
                token_ith <= n,
                self.selected.valid_for(n as nat),
                self.total_weight == old(self).total_weight + 3 * token_ith * DEFAULT_MUTATE_WEIGHT,
                old(self).total_weight + (3 * n + 1) * DEFAULT_MUTATE_WEIGHT <= u64::MAX,
            decreases n - token_ith,
        {
            self.try_select(Mutation::Insert(token_ith), DEFAULT_MUTATE_WEIGHT);
            self.try_select(Mutation::Remove(token_ith), DEFAULT_MUTATE_WEIGHT);
            self.try_select(Mutation::Replace(token_ith), DEFAULT_MUTATE_WEIGHT);
            token_ith = token_ith + 1;
        }
        self.try_select(Mutation::Append(), DEFAULT_MUTATE_WEIGHT);
        let fresh = random_token();
        proof {
            lemma_applied_is_single_edit(tokens@, self.selected, fresh);
        }
        apply(tokens, self.selected, fresh);
    }

    /// Considers `mutation` with weight `weight`: it becomes the selection if
    /// it is picked, and the selection stays as it was otherwise.
    pub fn try_select(&mut self, mutation: Mutation, weight: u64)
        requires
            old(self).total_weight + weight <= u64::MAX,
        ensures
            final(self).total_weight == old(self).total_weight + weight,
            final(self).selected == mutation || final(self).selected == old(self).selected,
            weight == 0 ==> final(self).selected == old(self).selected,
            weight > 0 && old(self).total_weight == 0 ==> final(self).selected == mutation,
            weight > 0 && old(self).total_weight > 0 ==> exists|draw: int|
                possible_draws(final(self).total_weight).contains(draw) && final(self).selected == (
                if #[trigger] accepted(weight, draw) {
                    mutation
                } else {
                    old(self).selected
                }),
    {
        if self.pick(weight) {
            self.selected = mutation;
        }
    }
}

} // verus!
