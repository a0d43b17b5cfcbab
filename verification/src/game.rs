//! The optimum of the game, the bound that overestimates it, and the facts
//! that make pruning by bound and by dominance sound.

use vstd::prelude::*;
use crate::model::{affordable, branching, larger, successor, Offer, Position};

verus! {

/// The largest geode stock that any sequence of moves reaches from `p` once
/// the step counter has passed `horizon`.
pub open spec fn best(recipes: Seq<Offer>, p: Position, horizon: nat) -> nat
    decreases horizon - p.step, branching(recipes, p) + 1,
{
    if p.step >= horizon {
        p.tick().resources.geode
    } else {
        best_from(recipes, p, horizon, 0)
    }
}

/// The largest `best` among the successors of `p` numbered `i` and up.
pub open spec fn best_from(recipes: Seq<Offer>, p: Position, horizon: nat, i: nat) -> nat
    decreases horizon - p.step, branching(recipes, p) - i,
{
    if p.step >= horizon || i >= branching(recipes, p) {
        0
    } else {
        larger(
            best(recipes, successor(recipes, p, i as int), horizon),
            best_from(recipes, p, horizon, i + 1),
        )
    }
}

/// The number of production steps still to come at `p`, the next one included.
pub open spec fn remaining(p: Position, horizon: nat) -> nat {
    if p.step <= horizon {
        (horizon - p.step + 1) as nat
    } else {
        0
    }
}

/// The geode stock reached if a geode robot were built, free of charge, at
/// every remaining step.
pub open spec fn upper_bound(p: Position, horizon: nat) -> nat {
    let n = remaining(p, horizon);
    n * (n + 1) / 2 + p.robots.geode * n + p.resources.geode
}

/// What a successor can differ by: one step later, at most one robot more of
/// each kind, and no more stock than one round of production adds.
pub proof fn lemma_successor(recipes: Seq<Offer>, p: Position, i: int)
    ensures
        successor(recipes, p, i).step == p.step + 1,
        successor(recipes, p, i).robots.geode <= p.robots.geode + 1,
        successor(recipes, p, i).robots.ore <= p.robots.ore + 1,
        successor(recipes, p, i).robots.clay <= p.robots.clay + 1,
        successor(recipes, p, i).robots.obsidian <= p.robots.obsidian + 1,
        successor(recipes, p, i).resources.geode <= p.resources.geode + p.robots.geode,
        successor(recipes, p, i).resources.ore <= p.resources.ore + p.robots.ore,
        successor(recipes, p, i).resources.clay <= p.resources.clay + p.robots.clay,
        successor(recipes, p, i).resources.obsidian <= p.resources.obsidian + p.robots.obsidian,
        0 <= i < affordable(recipes, p.resources).len() ==> p.resources.covers(
            affordable(recipes, p.resources)[i].cost,
        ),
{
    let offers = affordable(recipes, p.resources);
    if 0 <= i < offers.len() {
        recipes.lemma_filter_pred(|offer: Offer| p.resources.covers(offer.cost), i);
    }
}

/// No payment overdraws: what a successor holds, plus what its robot cost,
/// is what production left in stock. No quantity ever goes below zero.
pub proof fn lemma_payment_is_covered(recipes: Seq<Offer>, p: Position, i: int)
    requires
        0 <= i < affordable(recipes, p.resources).len(),
    ensures
        p.tick().resources.covers(affordable(recipes, p.resources)[i].cost),
        successor(recipes, p, i).resources.plus(affordable(recipes, p.resources)[i].cost)
            == p.tick().resources,
{
    lemma_successor(recipes, p, i);
}

proof fn lemma_bound_step(n: nat, r: nat, g: nat, r2: nat, g2: nat)
    requires
        n >= 2,
        r2 <= r + 1,
        g2 <= g + r,
    ensures
        (n - 1) * n / 2 + r2 * (n - 1) + g2 <= n * (n + 1) / 2 + r * n + g,
{
    assert((n - 1) * n / 2 + n == n * (n + 1) / 2) by (nonlinear_arith)
        requires
            n >= 2,
    ;
    assert(r2 * (n - 1) <= (r + 1) * (n - 1)) by (nonlinear_arith)
        requires
            r2 <= r + 1,
            n >= 2,
    ;
    assert((r + 1) * (n - 1) == r * n + n - r - 1) by (nonlinear_arith);
}

/// The bound is admissible: no play from `p` ends with more geodes than
/// `upper_bound` says.
pub proof fn lemma_upper_bound_admissible(recipes: Seq<Offer>, p: Position, horizon: nat)
    requires
        p.step <= horizon,
    ensures
        best(recipes, p, horizon) <= upper_bound(p, horizon),
    decreases horizon - p.step, branching(recipes, p) + 1,
{
    if p.step >= horizon {
        assert(remaining(p, horizon) == 1);
        assert(1nat * (1nat + 1) / 2 == 1) by (nonlinear_arith);
        assert(p.robots.geode * 1nat == p.robots.geode) by (nonlinear_arith);
    } else {
        lemma_bound_from(recipes, p, horizon, 0);
    }
}

proof fn lemma_bound_from(recipes: Seq<Offer>, p: Position, horizon: nat, i: nat)
    requires
        p.step < horizon,
    ensures
        best_from(recipes, p, horizon, i) <= upper_bound(p, horizon),
    decreases horizon - p.step, branching(recipes, p) - i,
{
    if i < branching(recipes, p) {
        let s = successor(recipes, p, i as int);
        lemma_successor(recipes, p, i as int);
        lemma_upper_bound_admissible(recipes, s, horizon);
        lemma_bound_step(
            remaining(p, horizon),
            p.robots.geode,
            p.resources.geode,
            s.robots.geode,
            s.resources.geode,
        );
        lemma_bound_from(recipes, p, horizon, i + 1);
    }
}

/// Every successor's optimum is at most the maximum that `best_from` takes
/// from any earlier index on.
pub proof fn lemma_best_from_covers(
    recipes: Seq<Offer>,
    p: Position,
    horizon: nat,
    i: nat,
    j: nat,
)
    requires
        p.step < horizon,
        i <= j < branching(recipes, p),
    ensures
        best(recipes, successor(recipes, p, j as int), horizon) <= best_from(
            recipes,
            p,
            horizon,
            i,
        ),
    decreases j - i,
{
    if i < j {
        lemma_best_from_covers(recipes, p, horizon, i + 1, j);
    }
}

/// Waiting until the end keeps what is in stock and what the geode robots
/// still produce in the coming step, so the optimum is at least that much.
pub proof fn lemma_best_at_least_next_stock(recipes: Seq<Offer>, p: Position, horizon: nat)
    requires
        p.step <= horizon,
    ensures
        best(recipes, p, horizon) >= p.tick().resources.geode,
    decreases horizon - p.step,
{
    if p.step < horizon {
        let last = (branching(recipes, p) - 1) as nat;
        lemma_best_from_covers(recipes, p, horizon, 0, last);
        assert(successor(recipes, p, last as int) == p.tick());
        lemma_best_at_least_next_stock(recipes, p.tick(), horizon);
    }
}

/// The position reached from `p` by waiting for `k` steps.
pub open spec fn after_waiting(p: Position, k: nat) -> Position
    decreases k,
{
    if k == 0 {
        p
    } else {
        after_waiting(p.tick(), (k - 1) as nat)
    }
}

/// Whether no recipe is affordable at `p`, nor at any of the `k - 1`
/// positions that waiting leads to next.
pub open spec fn nothing_affordable_for(recipes: Seq<Offer>, p: Position, k: nat) -> bool
    decreases k,
{
    k == 0 || (affordable(recipes, p.resources).len() == 0 && nothing_affordable_for(
        recipes,
        p.tick(),
        (k - 1) as nat,
    ))
}

/// Waiting for `k` steps adds `k` times the robots to the stockpiles and
/// changes nothing else.
pub proof fn lemma_after_waiting(p: Position, k: nat)
    ensures
        after_waiting(p, k).step == p.step + k,
        after_waiting(p, k).robots == p.robots,
        after_waiting(p, k).resources.ore == p.resources.ore + k * p.robots.ore,
        after_waiting(p, k).resources.clay == p.resources.clay + k * p.robots.clay,
        after_waiting(p, k).resources.obsidian == p.resources.obsidian + k * p.robots.obsidian,
        after_waiting(p, k).resources.geode == p.resources.geode + k * p.robots.geode,
    decreases k,
{
    if k > 0 {
        lemma_after_waiting(p.tick(), (k - 1) as nat);
    }
    lemma_times_one_more(k, p.robots.ore);
    lemma_times_one_more(k, p.robots.clay);
    lemma_times_one_more(k, p.robots.obsidian);
    lemma_times_one_more(k, p.robots.geode);
}

proof fn lemma_times_one_more(k: nat, r: nat)
    ensures
        k == 0 ==> k * r == 0,
        k > 0 ==> r + (k - 1) * r == k * r,
{
    assert(k == 0 ==> k * r == 0) by (nonlinear_arith);
    assert(k > 0 ==> r + (k - 1) * r == k * r) by (nonlinear_arith);
}

/// Where nothing can be afforded before the last step, the optimum is what
/// waiting yields: the stock after the remaining steps of production.
pub proof fn lemma_nothing_affordable(recipes: Seq<Offer>, p: Position, horizon: nat)
    requires
        p.step <= horizon,
        nothing_affordable_for(recipes, p, (horizon - p.step) as nat),
    ensures
        best(recipes, p, horizon) == after_waiting(p, remaining(p, horizon)).resources.geode,
        best(recipes, p, horizon) == p.resources.geode + remaining(p, horizon) * p.robots.geode,
    decreases horizon - p.step,
{
    lemma_after_waiting(p, remaining(p, horizon));
    if p.step < horizon {
        lemma_nothing_affordable(recipes, p.tick(), horizon);
        assert(successor(recipes, p, 0) == p.tick());
        assert(best_from(recipes, p, horizon, 1) == 0);
        assert(best(recipes, p, horizon) == best(recipes, p.tick(), horizon));
        assert(after_waiting(p, remaining(p, horizon)) == after_waiting(
            p.tick(),
            remaining(p.tick(), horizon),
        ));
    } else {
        reveal_with_fuel(after_waiting, 2);
    }
}

/// Dominance: of two positions with the same robots and stockpiles, the one
/// reached later can do no better than the one reached earlier.
pub proof fn lemma_earlier_dominates(
    recipes: Seq<Offer>,
    early: Position,
    late: Position,
    horizon: nat,
)
    requires
        early.configuration() == late.configuration(),
        early.step <= late.step,
    ensures
        best(recipes, late, horizon) <= best(recipes, early, horizon),
    decreases horizon - early.step, branching(recipes, early) + 1,
{
    if late.step >= horizon {
        if early.step < horizon {
            lemma_best_at_least_next_stock(recipes, early, horizon);
        }
    } else {
        lemma_dominates_from(recipes, early, late, horizon, 0);
    }
}

proof fn lemma_dominates_from(
    recipes: Seq<Offer>,
    early: Position,
    late: Position,
    horizon: nat,
    i: nat,
)
    requires
        early.configuration() == late.configuration(),
        early.step <= late.step < horizon,
    ensures
        best_from(recipes, late, horizon, i) <= best_from(recipes, early, horizon, i),
    decreases horizon - early.step, branching(recipes, early) - i,
{
    if i < branching(recipes, early) {
        lemma_earlier_dominates(
            recipes,
            successor(recipes, early, i as int),
            successor(recipes, late, i as int),
            horizon,
        );
        lemma_dominates_from(recipes, early, late, horizon, i + 1);
    }
}

} // verus!
