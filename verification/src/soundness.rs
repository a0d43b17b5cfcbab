//! Why the search is right: whatever it cuts off could not have beaten the
//! incumbent, so what it returns is the optimum of the game.

use vstd::prelude::*;
use crate::game::{
    best, best_from, lemma_earlier_dominates, lemma_nothing_affordable,
    lemma_upper_bound_admissible, nothing_affordable_for, remaining, upper_bound,
};
use crate::max_search::{explore, run, seen_no_later, value_or_zero, Ledger};
use crate::model::{branching, larger, successor, Configuration, Offer, Position};

verus! {

/// Whether the set closes the position that `q` ticks into.
pub open spec fn closed(memo: Map<Configuration, nat>, q: Position) -> bool {
    seen_no_later(memo, q.tick())
}

/// The invariant of the dominance set: every position it closes has an
/// optimum that does not exceed `incumbent`.
pub open spec fn closes_only_lost_causes(
    recipes: Seq<Offer>,
    memo: Map<Configuration, nat>,
    incumbent: nat,
    horizon: nat,
) -> bool {
    forall|q: Position|
        q.step <= horizon && #[trigger] closed(memo, q) ==> best(recipes, q, horizon) <= incumbent
}

/// What a sound branch result is: cut off only if the subtree cannot beat the
/// incumbent, and otherwise as good for the running maximum as the optimum.
pub open spec fn faithful(
    recipes: Seq<Offer>,
    p: Position,
    incumbent: nat,
    horizon: nat,
    result: Option<nat>,
) -> bool {
    match result {
        Some(v) => larger(incumbent, v) == larger(incumbent, best(recipes, p, horizon)),
        None => best(recipes, p, horizon) <= incumbent,
    }
}

/// The search is sound. Started with a dominance set that closes only lost
/// causes, a branch returns a faithful result and leaves such a set behind,
/// now with respect to the raised incumbent.
pub proof fn lemma_run_sound(
    recipes: Seq<Offer>,
    p: Position,
    incumbent: nat,
    ledger: Ledger,
    horizon: nat,
)
    requires
        p.step <= horizon,
        closes_only_lost_causes(recipes, ledger.memo, incumbent, horizon),
    ensures
        faithful(recipes, p, incumbent, horizon, run(recipes, p, incumbent, ledger, horizon).0),
        closes_only_lost_causes(
            recipes,
            run(recipes, p, incumbent, ledger, horizon).1.memo,
            larger(incumbent, value_or_zero(run(recipes, p, incumbent, ledger, horizon).0)),
            horizon,
        ),
    decreases horizon - p.step, branching(recipes, p) + 1,
{
    let t = p.tick();
    let after = run(recipes, p, incumbent, ledger, horizon).1;
    let raised = larger(incumbent, value_or_zero(run(recipes, p, incumbent, ledger, horizon).0));
    if upper_bound(p, horizon) < incumbent {
        lemma_upper_bound_admissible(recipes, p, horizon);
    } else if seen_no_later(ledger.memo, t) {
        assert(closed(ledger.memo, p));
    } else if t.step > horizon {
        assert forall|q: Position| q.step <= horizon && #[trigger] closed(after.memo, q) implies best(
            recipes,
            q,
            horizon,
        ) <= raised by {
            assert(closed(ledger.memo, q));
        }
    } else {
        lemma_explore_sound(recipes, p, 0, incumbent, ledger, horizon);
        let explored = explore(recipes, p, 0, incumbent, ledger, horizon);
        if explored.0 == incumbent {
            assert forall|q: Position|
                q.step <= horizon && #[trigger] closed(after.memo, q) implies best(
                recipes,
                q,
                horizon,
            ) <= raised by {
                if q.tick().configuration() == t.configuration() && t.step <= q.tick().step {
                    assert(q.configuration() == p.configuration());
                    lemma_earlier_dominates(recipes, p, q, horizon);
                } else {
                    assert(closed(explored.1.memo, q));
                }
            }
        }
    }
}

/// The fold over the successors is sound: it ends with the larger of the
/// incumbent and the best that the remaining successors allow.
pub proof fn lemma_explore_sound(
    recipes: Seq<Offer>,
    p: Position,
    i: nat,
    incumbent: nat,
    ledger: Ledger,
    horizon: nat,
)
    requires
        p.step < horizon,
        closes_only_lost_causes(recipes, ledger.memo, incumbent, horizon),
    ensures
        explore(recipes, p, i, incumbent, ledger, horizon).0 == larger(
            incumbent,
            best_from(recipes, p, horizon, i),
        ),
        closes_only_lost_causes(
            recipes,
            explore(recipes, p, i, incumbent, ledger, horizon).1.memo,
            explore(recipes, p, i, incumbent, ledger, horizon).0,
            horizon,
        ),
    decreases horizon - p.step, branching(recipes, p) - i,
{
    if i < branching(recipes, p) {
        let s = successor(recipes, p, i as int);
        lemma_run_sound(recipes, s, incumbent, ledger, horizon);
        let searched = run(recipes, s, incumbent, ledger, horizon);
        let raised = larger(incumbent, value_or_zero(searched.0));
        lemma_explore_sound(recipes, p, i + 1, raised, searched.1, horizon);
    }
}

/// The conditional form of `lemma_run_sound`, and its consequence for a
/// search that starts with nothing recorded and nothing found: it returns
/// the optimum of the game.
pub proof fn lemma_search_finds_optimum(
    recipes: Seq<Offer>,
    p: Position,
    incumbent: nat,
    ledger: Ledger,
    horizon: nat,
)
    requires
        p.step <= horizon,
    ensures
        closes_only_lost_causes(recipes, ledger.memo, incumbent, horizon) ==> {
            &&& faithful(
                recipes,
                p,
                incumbent,
                horizon,
                run(recipes, p, incumbent, ledger, horizon).0,
            )
            &&& closes_only_lost_causes(
                recipes,
                run(recipes, p, incumbent, ledger, horizon).1.memo,
                larger(incumbent, value_or_zero(run(recipes, p, incumbent, ledger, horizon).0)),
                horizon,
            )
        },
        ledger.memo == Map::<Configuration, nat>::empty() && incumbent == 0 ==> run(
            recipes,
            p,
            incumbent,
            ledger,
            horizon,
        ).0 == Some(best(recipes, p, horizon)),
{
    if ledger.memo == Map::<Configuration, nat>::empty() && incumbent == 0 {
        assert forall|q: Position|
            q.step <= horizon && #[trigger] closed(ledger.memo, q) implies best(
            recipes,
            q,
            horizon,
        ) <= incumbent by {}
    }
    if closes_only_lost_causes(recipes, ledger.memo, incumbent, horizon) {
        lemma_run_sound(recipes, p, incumbent, ledger, horizon);
    }
}

/// Where no robot can be afforded before the last step, a search that starts
/// with nothing recorded and nothing found returns what waiting yields: the
/// geode stock plus what the geode robots at hand produce in the steps to
/// come.
pub proof fn lemma_search_with_nothing_affordable(
    recipes: Seq<Offer>,
    p: Position,
    ledger: Ledger,
    horizon: nat,
)
    requires
        p.step <= horizon,
        ledger.memo == Map::<Configuration, nat>::empty(),
        nothing_affordable_for(recipes, p, (horizon - p.step) as nat),
    ensures
        run(recipes, p, 0, ledger, horizon).0 == Some(
            p.resources.geode + remaining(p, horizon) * p.robots.geode,
        ),
{
    lemma_search_finds_optimum(recipes, p, 0, ledger, horizon);
    lemma_nothing_affordable(recipes, p, horizon);
}

} // verus!
