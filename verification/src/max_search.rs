//! The branch-and-bound search: depth first, pruned by an admissible bound
//! and by a set of configurations that are known not to help.

use vstd::prelude::*;
use crate::blueprint::{offers_of, Blueprint};
use crate::dominance::{recorded, DominanceSet};
use crate::game::{best, remaining, upper_bound};
use crate::soundness::{closes_only_lost_causes, faithful, lemma_search_finds_optimum};
use crate::model::{
    affordable, branching, larger, successor, Configuration, Offer, Plan, Position,
};
use crate::state::State;

verus! {

/// The model of the search context: the dominance set and the counters.
pub struct Ledger {
    pub memo: Map<Configuration, nat>,
    pub duplicated: nat,
    pub pruned: nat,
    pub full_traversals: nat,
}

impl Ledger {
    /// The context a search starts with: nothing recorded, nothing counted.
    pub open spec fn fresh() -> Ledger {
        Ledger { memo: Map::empty(), duplicated: 0, pruned: 0, full_traversals: 0 }
    }
}

/// A counter's next value. Counters stop at `usize::MAX`.
pub open spec fn counted(n: nat) -> nat {
    if n < usize::MAX {
        n + 1
    } else {
        n
    }
}

/// What a branch contributes to the running maximum: its value, or nothing.
pub open spec fn value_or_zero(result: Option<nat>) -> nat {
    match result {
        Some(v) => v,
        None => 0,
    }
}

/// Whether the set holds the configuration of `t` at the step of `t` or an
/// earlier one.
pub open spec fn seen_no_later(memo: Map<Configuration, nat>, t: Position) -> bool {
    memo.contains_key(t.configuration()) && memo[t.configuration()] <= t.step
}

/// The search from `p` with the best value found so far, `incumbent`: the
/// branch's result and the context it leaves behind.
///
/// A branch gives no result where its bound is below the incumbent or where
/// its configuration was closed at this step or earlier. Past the horizon it
/// gives the geode stock. Otherwise it gives the running maximum over its
/// successors, taken in order, and closes its configuration if none of them
/// raised the incumbent.
pub open spec fn run(
    recipes: Seq<Offer>,
    p: Position,
    incumbent: nat,
    ledger: Ledger,
    horizon: nat,
) -> (Option<nat>, Ledger)
    decreases horizon - p.step, branching(recipes, p) + 1,
{
    let t = p.tick();
    if upper_bound(p, horizon) < incumbent {
        (None, Ledger { pruned: counted(ledger.pruned), ..ledger })
    } else if seen_no_later(ledger.memo, t) {
        (None, Ledger { duplicated: counted(ledger.duplicated), ..ledger })
    } else if t.step > horizon {
        (
            Some(t.resources.geode),
            Ledger { full_traversals: counted(ledger.full_traversals), ..ledger },
        )
    } else {
        let explored = explore(recipes, p, 0, incumbent, ledger, horizon);
        if explored.0 == incumbent {
            (
                Some(explored.0),
                Ledger {
                    memo: recorded(explored.1.memo, t.configuration(), t.step),
                    ..explored.1
                },
            )
        } else {
            (Some(explored.0), explored.1)
        }
    }
}

/// The fold over the successors of `p` numbered `i` and up: each is searched
/// with the running maximum of those before it.
pub open spec fn explore(
    recipes: Seq<Offer>,
    p: Position,
    i: nat,
    incumbent: nat,
    ledger: Ledger,
    horizon: nat,
) -> (nat, Ledger)
    decreases horizon - p.step, branching(recipes, p) - i,
{
    if p.step >= horizon || i >= branching(recipes, p) {
        (incumbent, ledger)
    } else {
        let searched = run(recipes, successor(recipes, p, i as int), incumbent, ledger, horizon);
        explore(
            recipes,
            p,
            i + 1,
            larger(incumbent, value_or_zero(searched.0)),
            searched.1,
            horizon,
        )
    }
}

/// The largest stock of one kind that could pile up in `n` more steps if a
/// robot of that kind were added at every one of them, with room to spare.
pub open spec fn reach(stock: nat, robots: nat, n: nat) -> nat {
    stock + robots * n + n * (n + 1)
}

/// Whether the search from `p` stays within `usize`: `p` is not past the
/// horizon, and no stock can outgrow the machine word before it.
pub open spec fn within_capacity(p: Position, horizon: nat) -> bool {
    let n = remaining(p, horizon);
    &&& p.step <= horizon < usize::MAX
    &&& reach(p.resources.ore, p.robots.ore, n) <= usize::MAX
    &&& reach(p.resources.clay, p.robots.clay, n) <= usize::MAX
    &&& reach(p.resources.obsidian, p.robots.obsidian, n) <= usize::MAX
    &&& reach(p.resources.geode, p.robots.geode, n) <= usize::MAX
}

proof fn lemma_reach_step(stock: nat, robots: nat, n: nat, stock2: nat, robots2: nat)
    requires
        n >= 1,
        robots2 <= robots + 1,
        stock2 <= stock + robots,
    ensures
        reach(stock2, robots2, (n - 1) as nat) <= reach(stock, robots, n),
        stock + robots <= reach(stock, robots, n),
        robots < reach(stock, robots, n),
{
    let m = (n - 1) as nat;
    assert(robots2 * m <= (robots + 1) * m) by (nonlinear_arith)
        requires
            robots2 <= robots + 1,
    ;
    assert((robots + 1) * m + robots + m * (m + 1) <= robots * n + n * (n + 1)) by (nonlinear_arith)
        requires
            m + 1 == n,
    ;
    assert(robots <= robots * n) by (nonlinear_arith)
        requires
            n >= 1,
    ;
    assert(n * (n + 1) >= 2) by (nonlinear_arith)
        requires
            n >= 1,
    ;
}

/// A search that starts within capacity stays there: production fits, every
/// affordable robot can be built, and each successor is within capacity.
pub proof fn lemma_capacity(recipes: Seq<Offer>, p: Position, horizon: nat, i: int)
    requires
        within_capacity(p, horizon),
    ensures
        p.tick().representable(),
        p.robots.ore < usize::MAX,
        p.robots.clay < usize::MAX,
        p.robots.obsidian < usize::MAX,
        p.robots.geode < usize::MAX,
        p.step < horizon ==> within_capacity(successor(recipes, p, i), horizon),
{
    let n = remaining(p, horizon);
    let s = successor(recipes, p, i);
    crate::game::lemma_successor(recipes, p, i);
    lemma_reach_step(p.resources.ore, p.robots.ore, n, s.resources.ore, s.robots.ore);
    lemma_reach_step(p.resources.clay, p.robots.clay, n, s.resources.clay, s.robots.clay);
    lemma_reach_step(
        p.resources.obsidian,
        p.robots.obsidian,
        n,
        s.resources.obsidian,
        s.robots.obsidian,
    );
    lemma_reach_step(p.resources.geode, p.robots.geode, n, s.resources.geode, s.robots.geode);
}

/// Determinism: a branch's result and the context it leaves behind are a
/// function of the recipes, the position, the incumbent, the context and the
/// horizon. Two searches that agree on these agree on the maximum, on the
/// dominance set and on every counter; the blueprint's identifier plays no
/// part.
pub proof fn lemma_search_is_deterministic(
    first: Plan,
    second: Plan,
    p: Position,
    incumbent: nat,
    ledger: Ledger,
    horizon: nat,
)
    requires
        first.recipes == second.recipes,
    ensures
        run(first.recipes, p, incumbent, ledger, horizon) == run(
            second.recipes,
            p,
            incumbent,
            ledger,
            horizon,
        ),
{
}

/// The mutable context of one search: the dominance set, three counters and
/// the horizon.
pub struct MetaState {
    pub explored_states: DominanceSet,
    pub duplicated_states: usize,
    pub pruned_states: usize,
    pub full_traversals: usize,
    pub max_steps: usize,
}

impl View for MetaState {
    type V = Ledger;

    open spec fn view(&self) -> Ledger {
        Ledger {
            memo: self.explored_states@,
            duplicated: self.duplicated_states as nat,
            pruned: self.pruned_states as nat,
            full_traversals: self.full_traversals as nat,
        }
    }
}

impl Default for MetaState {
    fn default() -> (metastate: MetaState)
        ensures
            metastate@ == Ledger::fresh(),
            metastate.max_steps == 0,
    {
        MetaState {
            explored_states: DominanceSet::new(),
            duplicated_states: 0,
            pruned_states: 0,
            full_traversals: 0,
            max_steps: 0,
        }
    }
}

impl MetaState {
    /// A fresh context for a search that ends once the step counter has
    /// passed `max_steps`.
    pub fn with_max_steps(max_steps: usize) -> (metastate: MetaState)
        ensures
            metastate@ == Ledger::fresh(),
            metastate.max_steps == max_steps,
    {
        MetaState {
            explored_states: DominanceSet::new(),
            duplicated_states: 0,
            pruned_states: 0,
            full_traversals: 0,
            max_steps,
        }
    }
}

fn count(n: usize) -> (next: usize)
    ensures
        next == counted(n as nat),
{
    if n < usize::MAX {
        n + 1
    } else {
        n
    }
}

fn reach_fits(stock: usize, robots: usize, n: usize) -> (fits: bool)
    ensures
        fits == (reach(stock as nat, robots as nat, n as nat) <= usize::MAX),
{
    proof {
        let (s, r, m) = (stock as nat, robots as nat, n as nat);
        assert(r * m >= 0 && m * (m + 1) >= 0 && (m >= 1 ==> m * (m + 1) >= 2 * m))
            by (nonlinear_arith);
    }
    let successor_of_n = match n.checked_add(1) {
        Some(v) => v,
        None => {
            return false;
        },
    };
    let triangle = match n.checked_mul(successor_of_n) {
        Some(v) => v,
        None => {
            return false;
        },
    };
    let produced = match robots.checked_mul(n) {
        Some(v) => v,
        None => {
            return false;
        },
    };
    match stock.checked_add(produced) {
        Some(v) => v.checked_add(triangle).is_some(),
        None => false,
    }
}

/// Whether a search from `state` with horizon `max_steps` stays within
/// `usize`, as `traverse_depth_first` requires.
pub fn within_limits(state: &State, max_steps: usize) -> (fits: bool)
    ensures
        fits == within_capacity(state@, max_steps as nat),
{
    if state.step > max_steps || max_steps == usize::MAX {
        return false;
    }
    let n = max_steps - state.step + 1;
    reach_fits(state.resources.ore, state.robots.ore, n) && reach_fits(
        state.resources.clay,
        state.robots.clay,
        n,
    ) && reach_fits(state.resources.obsidian, state.robots.obsidian, n) && reach_fits(
        state.resources.geode,
        state.robots.geode,
        n,
    )
}

/// The admissible bound at `state`: with `n` steps to come, the geode stock
/// plus `n` times the geode robots plus `n * (n + 1) / 2`.
pub fn maximum_possible_geodes(state: &State, metastate: &MetaState) -> (bound: usize)
    requires
        within_capacity(state@, metastate.max_steps as nat),
    ensures
        bound == upper_bound(state@, metastate.max_steps as nat),
{
    let remaining_steps: usize = metastate.max_steps - state.step;
    let n = remaining_steps + 1;
    proof {
        let r = state.robots.geode as nat;
        let m = n as nat;
        assert(m == remaining(state@, metastate.max_steps as nat));
        assert(reach(state.resources.geode as nat, r, m) <= usize::MAX);
        assert(r * m >= 0 && m + 1 <= m * (m + 1) && (m + 1) * m == m * (m + 1))
            by (nonlinear_arith)
            requires
                m >= 1,
        ;
    }
    (((n + 1) * n) / 2) + (state.robots.geode * n) + state.resources.geode
}

/// The model of a branch's result.
pub open spec fn outcome(result: Option<usize>) -> Option<nat> {
    match result {
        Some(v) => Some(v as nat),
        None => None,
    }
}

/// Searches the subtree below `state` for a geode yield above `current_max`.
///
/// Returns `None` where the branch is cut off (its bound is below
/// `current_max`, or its configuration was closed no later than now), the
/// geode stock where the horizon is passed, and otherwise the largest of
/// `current_max` and what the successors return. The successors are taken in
/// recipe order, waiting last; each is searched with the running maximum of
/// those before it. The order has a say in the counters, not in the maximum.
///
/// The result and the context left behind are exactly those of `run`. Where
/// the dominance set closes only lost causes on entry, as an empty one does,
/// the result is faithful to the optimum of the game and the set still closes
/// only lost causes on return. From an empty set and `current_max == 0` the
/// result is the optimum itself.
pub fn traverse_depth_first(
    state: State,
    current_max: usize,
    blueprint: &Blueprint,
    metastate: &mut MetaState,
) -> (result: Option<usize>)
    requires
        within_capacity(state@, old(metastate).max_steps as nat),
    ensures
        final(metastate).max_steps == old(metastate).max_steps,
        (outcome(result), final(metastate)@) == run(
            blueprint@.recipes,
            state@,
            current_max as nat,
            old(metastate)@,
            old(metastate).max_steps as nat,
        ),
        closes_only_lost_causes(
            blueprint@.recipes,
            old(metastate)@.memo,
            current_max as nat,
            old(metastate).max_steps as nat,
        ) ==> {
            &&& faithful(
                blueprint@.recipes,
                state@,
                current_max as nat,
                old(metastate).max_steps as nat,
                outcome(result),
            )
            &&& closes_only_lost_causes(
                blueprint@.recipes,
                final(metastate)@.memo,
                larger(current_max as nat, value_or_zero(outcome(result))),
                old(metastate).max_steps as nat,
            )
        },
        old(metastate)@.memo == Map::<Configuration, nat>::empty() && current_max == 0
            ==> outcome(result) == Some(
            best(blueprint@.recipes, state@, old(metastate).max_steps as nat),
        ),
    decreases old(metastate).max_steps - state.step,
{
    let ghost recipes = blueprint@.recipes;
    let ghost p = state@;
    let ghost horizon = metastate.max_steps as nat;
    let ghost ledger = metastate@;
    let decisions = blueprint.possible(&state.resources);
    proof {
        lemma_search_finds_optimum(recipes, p, current_max as nat, ledger, horizon);
    }

    if maximum_possible_geodes(&state, metastate) < current_max {
        metastate.pruned_states = count(metastate.pruned_states);
        return None;
    }
    proof {
        lemma_capacity(recipes, p, horizon, 0);
    }
    let mut ticked = state;
    ticked.tick();

    let closed_before = match metastate.explored_states.earliest(&ticked) {
        Some(step) => step <= ticked.step,
        None => false,
    };
    if closed_before {
        metastate.duplicated_states = count(metastate.duplicated_states);
        return None;
    }
    if ticked.step > metastate.max_steps {
        let geodes = ticked.resources.geode;
        metastate.full_traversals = count(metastate.full_traversals);
        return Some(geodes);
    }
    let mut possible_new_states: Vec<State> = Vec::new();
    let mut j: usize = 0;
    while j < decisions.len()
        invariant
            0 <= j <= decisions.len(),
            ticked@ == p.tick(),
            within_capacity(p, horizon),
            offers_of(decisions@) == affordable(recipes, p.resources),
            possible_new_states@.len() == j,
            forall|k: int|
                0 <= k < j ==> (#[trigger] possible_new_states@[k])@ == successor(recipes, p, k),
        decreases decisions.len() - j,
    {
        let kind = decisions[j].0;
        let cost = decisions[j].1;
        proof {
            lemma_capacity(recipes, p, horizon, j as int);
            crate::game::lemma_successor(recipes, p, j as int);
            assert(offers_of(decisions@)[j as int] == Offer { kind, cost: cost@ });
        }
        possible_new_states.push(ticked.build(kind, &cost));
        j = j + 1;
    }
    possible_new_states.push(ticked);
    assert(offers_of(decisions@).len() == decisions@.len());
    assert(possible_new_states@.len() == branching(recipes, p));

    let mut new_max = current_max;
    let mut i: usize = 0;
    while i < possible_new_states.len()
        invariant
            0 <= i <= possible_new_states.len(),
            possible_new_states@.len() == branching(recipes, p),
            forall|k: int|
                0 <= k < possible_new_states@.len() ==> (#[trigger] possible_new_states@[k])@
                    == successor(recipes, p, k),
            within_capacity(p, horizon),
            p.step < horizon,
            p == state@,
            recipes == blueprint@.recipes,
            metastate.max_steps == horizon,
            old(metastate).max_steps == horizon,
            explore(recipes, p, i as nat, new_max as nat, metastate@, horizon) == explore(
                recipes,
                p,
                0,
                current_max as nat,
                ledger,
                horizon,
            ),
        decreases possible_new_states.len() - i,
    {
        let child = possible_new_states[i];
        proof {
            lemma_capacity(recipes, p, horizon, i as int);
            crate::game::lemma_successor(recipes, p, i as int);
            assert(child@ == successor(recipes, p, i as int));
        }
        let ghost before = metastate@;
        let ghost running = new_max as nat;
        let result = traverse_depth_first(child, new_max, blueprint, metastate);
        let value = match result {
            Some(v) => v,
            None => 0,
        };
        if value > new_max {
            new_max = value;
        }
        proof {
            let searched = run(recipes, successor(recipes, p, i as int), running, before, horizon);
            assert(searched.0 == outcome(result) && searched.1 == metastate@);
            assert(new_max as nat == larger(running, value_or_zero(searched.0)));
            assert(explore(recipes, p, i as nat, running, before, horizon) == explore(
                recipes,
                p,
                (i + 1) as nat,
                new_max as nat,
                metastate@,
                horizon,
            ));
        }
        i = i + 1;
    }

    if new_max == current_max {
        metastate.explored_states.record(ticked);
    }
    Some(new_max)
}

} // verus!
