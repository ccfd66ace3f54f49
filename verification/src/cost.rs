//! The cost engine: the mathematics of quadratic pricing.

use vstd::prelude::*;

verus! {

/// Credits that holding `n` votes on one option costs in total.
pub open spec fn total_cost(n: nat) -> nat {
    n * n
}

/// Credits that moving a tally from `current` votes to `current + new` votes costs.
pub open spec fn marginal_cost(current: nat, new: nat) -> nat {
    (total_cost(current + new) - total_cost(current)) as nat
}

/// A tally never costs less than it holds votes.
pub proof fn lemma_total_cost_dominates(n: nat)
    ensures
        n <= total_cost(n),
{
    assert(n <= n * n) by (nonlinear_arith);
}

/// The closed form of the marginal cost: `(c + n)² - c²`, which is `n² + 2cn`
/// and never negative. From an empty tally it is `n²`.
pub proof fn lemma_marginal_cost_formula(current: nat, new: nat)
    ensures
        marginal_cost(current, new) == (current + new) * (current + new) - current * current,
        marginal_cost(current, new) == new * new + 2 * current * new,
        marginal_cost(0, new) == new * new,
        total_cost(current) <= total_cost(current + new),
{
    assert((current + new) * (current + new) == current * current + 2 * current * new + new * new)
        by (nonlinear_arith);
    assert(0 <= 2 * current * new + new * new) by (nonlinear_arith);
}

/// For a fixed tally, casting more votes costs strictly more.
pub proof fn lemma_marginal_cost_strictly_increasing(current: nat, fewer: nat, more: nat)
    requires
        fewer < more,
    ensures
        marginal_cost(current, fewer) < marginal_cost(current, more),
{
    lemma_marginal_cost_formula(current, fewer);
    lemma_marginal_cost_formula(current, more);
    assert(fewer * fewer + 2 * current * fewer < more * more + 2 * current * more)
        by (nonlinear_arith)
        requires
            fewer < more,
    ;
}

/// Reaching a tally in two steps costs what reaching it in one step costs.
pub proof fn lemma_marginal_cost_additive(current: nat, first: nat, second: nat)
    ensures
        marginal_cost(current, first) + marginal_cost(current + first, second) == marginal_cost(
            current,
            first + second,
        ),
        marginal_cost(0, first) + marginal_cost(first, second) == marginal_cost(0, first + second),
{
    lemma_marginal_cost_formula(current, first);
    lemma_marginal_cost_formula(current + first, second);
    lemma_marginal_cost_formula(current, first + second);
    lemma_marginal_cost_formula(0, first);
    lemma_marginal_cost_formula(first, second);
    lemma_marginal_cost_formula(0, first + second);
    assert(current + first + second == current + (first + second));
}

/// The votes that a run of casts adds up to.
pub open spec fn votes_in(steps: Seq<nat>) -> nat
    decreases steps.len(),
{
    if steps.len() == 0 {
        0
    } else {
        votes_in(steps.drop_last()) + steps.last()
    }
}

/// What a run of casts on one option costs, each cast paid at its marginal
/// cost over the tally that the casts before it have left.
pub open spec fn cost_of_steps(current: nat, steps: Seq<nat>) -> nat
    decreases steps.len(),
{
    if steps.len() == 0 {
        0
    } else {
        cost_of_steps(current, steps.drop_last()) + marginal_cost(
            current + votes_in(steps.drop_last()),
            steps.last(),
        )
    }
}

/// However a number of votes is split into casts, the casts together cost
/// what a single cast of all the votes costs.
pub proof fn lemma_cost_of_steps_telescopes(current: nat, steps: Seq<nat>)
    ensures
        cost_of_steps(current, steps) == marginal_cost(current, votes_in(steps)),
    decreases steps.len(),
{
    if steps.len() == 0 {
        lemma_marginal_cost_formula(current, 0);
    } else {
        lemma_cost_of_steps_telescopes(current, steps.drop_last());
        lemma_marginal_cost_additive(current, votes_in(steps.drop_last()), steps.last());
    }
}

} // verus!
