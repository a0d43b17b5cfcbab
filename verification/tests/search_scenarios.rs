use geode_search::blueprint::Blueprint;
use geode_search::max_search::{
    maximum_possible_geodes, traverse_depth_first, within_limits, MetaState,
};
use geode_search::resource::Inventory;
use geode_search::scoring::sum_quality_levels;
use geode_search::state::State;

fn first_example() -> Blueprint {
    Blueprint::new(1, 4, 2, 3, 14, 2, 7)
}

fn second_example() -> Blueprint {
    Blueprint::new(2, 2, 3, 3, 8, 3, 12)
}

fn search(blueprint: &Blueprint, max_steps: usize) -> (Option<usize>, MetaState) {
    let mut metastate = MetaState::with_max_steps(max_steps);
    assert!(within_limits(&State::default(), max_steps));
    let result = traverse_depth_first(State::default(), 0, blueprint, &mut metastate);
    (result, metastate)
}

#[test]
fn first_example_yields_nine_geodes_in_24_steps() {
    let (result, metastate) = search(&first_example(), 23);
    assert_eq!(result, Some(9));
    assert_eq!(metastate.max_steps, 23);
    assert_eq!(metastate.duplicated_states, 372266);
    assert_eq!(metastate.pruned_states, 1495722);
    assert_eq!(metastate.full_traversals, 1553);
}

#[test]
fn quality_levels_of_both_examples_sum_to_33() {
    let blueprints = vec![first_example(), second_example()];
    let mut entries = Vec::new();
    for blueprint in &blueprints {
        let (result, _) = search(blueprint, 23);
        entries.push((blueprint.id, result.unwrap()));
    }
    assert_eq!(entries, vec![(1, 9), (2, 12)]);
    assert_eq!(sum_quality_levels(&entries), Some(1 * 9 + 2 * 12));
    assert_eq!(sum_quality_levels(&entries), Some(33));
}

#[test]
fn second_example_yields_twelve_geodes_in_24_steps() {
    let (result, metastate) = search(&second_example(), 23);
    assert_eq!(result, Some(12));
    assert_eq!(metastate.duplicated_states, 3192484);
    assert_eq!(metastate.pruned_states, 9724085);
    assert_eq!(metastate.full_traversals, 713342);
}

#[test]
fn quality_sum_is_exact_or_absent() {
    assert_eq!(sum_quality_levels(&vec![]), Some(0));
    assert_eq!(sum_quality_levels(&vec![(3, 5)]), Some(15));
    assert_eq!(sum_quality_levels(&vec![(1, 9), (2, 12), (30, 0), (0, 7)]), Some(33));
    assert_eq!(sum_quality_levels(&vec![(usize::MAX, 1)]), Some(usize::MAX));
    assert_eq!(sum_quality_levels(&vec![(usize::MAX, 1), (1, 1)]), None);
    assert_eq!(sum_quality_levels(&vec![(usize::MAX, 2)]), None);
    assert_eq!(sum_quality_levels(&vec![(usize::MAX, 2), (0, 0)]), None);
}

#[test]
fn nothing_affordable_still_ends_with_the_ore_of_one_robot() {
    let blueprint = Blueprint::new(7, 1000, 1000, 1000, 1000, 1000, 1000);
    let horizon = 24;
    let (result, metastate) = search(&blueprint, horizon - 1);
    assert_eq!(result, Some(0));
    assert_eq!(metastate.full_traversals, 1);
    assert_eq!(metastate.pruned_states, 0);
    assert_eq!(metastate.duplicated_states, 0);

    let mut state = State::default();
    for _ in 0..horizon {
        assert!(blueprint.possible(&state.resources).is_empty());
        state.tick();
    }
    assert_eq!(state.step, horizon);
    assert_eq!(state.resources, Inventory::new(horizon, 0, 0, 0));
    assert_eq!(state.robots, Inventory::new(1, 0, 0, 0));
}

#[test]
fn short_horizons_leave_no_time_for_geodes() {
    let (result, metastate) = search(&first_example(), 10);
    assert_eq!(result, Some(0));
    assert_eq!(metastate.duplicated_states, 41);
    assert_eq!(metastate.pruned_states, 0);
    assert_eq!(metastate.full_traversals, 191);

    let (result, metastate) = search(&first_example(), 18);
    assert_eq!(result, Some(1));
    assert_eq!(metastate.duplicated_states, 29832);
    assert_eq!(metastate.pruned_states, 0);
    assert_eq!(metastate.full_traversals, 89817);
}

#[test]
fn horizon_zero_is_one_tick() {
    let (result, metastate) = search(&first_example(), 0);
    assert_eq!(result, Some(0));
    assert_eq!(metastate.full_traversals, 1);
    assert_eq!(metastate.duplicated_states, 0);
    assert_eq!(metastate.pruned_states, 0);
}

#[test]
fn cheap_robots_pay_off_quickly() {
    let cheap = Blueprint::new(3, 1, 1, 1, 1, 1, 1);
    let (result, metastate) = search(&cheap, 7);
    assert_eq!(result, Some(3));
    assert_eq!(metastate.duplicated_states, 49);
    assert_eq!(metastate.pruned_states, 947);
    assert_eq!(metastate.full_traversals, 574);

    let (result, _) = search(&cheap, 9);
    assert_eq!(result, Some(10));
}

#[test]
fn repeated_runs_agree_on_maximum_and_counters() {
    let cheap = Blueprint::new(3, 1, 1, 1, 1, 1, 1);
    let (first, first_context) = search(&cheap, 9);
    let (second, second_context) = search(&cheap, 9);
    assert_eq!(first, second);
    assert_eq!(first_context.duplicated_states, second_context.duplicated_states);
    assert_eq!(first_context.pruned_states, second_context.pruned_states);
    assert_eq!(first_context.full_traversals, second_context.full_traversals);
    assert_eq!(first_context.duplicated_states, 116);
    assert_eq!(first_context.pruned_states, 4845);
    assert_eq!(first_context.full_traversals, 873);

    let renamed = Blueprint::new(99, 1, 1, 1, 1, 1, 1);
    let (third, third_context) = search(&renamed, 9);
    assert_eq!(first, third);
    assert_eq!(first_context.pruned_states, third_context.pruned_states);
}

#[test]
fn bound_formula_has_its_exact_value() {
    let metastate = MetaState::with_max_steps(23);
    assert_eq!(maximum_possible_geodes(&State::default(), &metastate), 300);

    let late = State {
        robots: Inventory::new(1, 0, 0, 2),
        resources: Inventory::new(0, 0, 0, 3),
        step: 20,
    };
    // four steps to come: 4 * 5 / 2 + 2 * 4 + 3
    assert_eq!(maximum_possible_geodes(&late, &metastate), 21);

    let last = State { step: 23, ..late };
    assert_eq!(maximum_possible_geodes(&last, &metastate), 1 + 2 + 3);
}

#[test]
fn branch_below_the_incumbent_is_pruned() {
    let blueprint = first_example();
    let mut metastate = MetaState::with_max_steps(5);
    let state = State {
        robots: Inventory::new(1, 0, 0, 2),
        resources: Inventory::new(0, 0, 0, 3),
        step: 5,
    };
    assert!(within_limits(&state, 5));
    // bound is 1 + 2 + 3 = 6
    assert_eq!(traverse_depth_first(state, 7, &blueprint, &mut metastate), None);
    assert_eq!(metastate.pruned_states, 1);
    assert_eq!(metastate.full_traversals, 0);
    // a bound equal to the incumbent is not pruned; past the horizon the
    // branch returns its stock, even where that is below the incumbent
    assert_eq!(traverse_depth_first(state, 6, &blueprint, &mut metastate), Some(5));
    assert_eq!(metastate.pruned_states, 1);
    assert_eq!(metastate.full_traversals, 1);
    assert_eq!(metastate.duplicated_states, 0);
}

#[test]
fn closed_configuration_is_skipped_only_when_seen_no_later() {
    let blueprint = first_example();
    let state = State {
        robots: Inventory::new(1, 0, 0, 0),
        resources: Inventory::new(0, 0, 0, 0),
        step: 2,
    };
    let mut ticked = state;
    ticked.tick();

    let mut metastate = MetaState::with_max_steps(4);
    metastate.explored_states.record(ticked);
    assert_eq!(traverse_depth_first(state, 0, &blueprint, &mut metastate), None);
    assert_eq!(metastate.duplicated_states, 1);

    // the same configuration met one step earlier is searched
    let earlier = State { step: 1, ..state };
    assert_eq!(traverse_depth_first(earlier, 0, &blueprint, &mut metastate), Some(0));
    assert_eq!(metastate.duplicated_states, 1);
    // the subtree did not raise the incumbent, so it is closed at the earlier step
    let mut earlier_ticked = earlier;
    earlier_ticked.tick();
    assert_eq!(metastate.explored_states.earliest(&earlier_ticked), Some(2));
}

#[test]
fn subtree_that_raises_the_incumbent_is_not_closed() {
    let cheap = Blueprint::new(3, 1, 1, 1, 1, 1, 1);
    let mut metastate = MetaState::with_max_steps(9);
    let result = traverse_depth_first(State::default(), 0, &cheap, &mut metastate);
    assert_eq!(result, Some(10));
    let mut root = State::default();
    root.tick();
    assert_eq!(metastate.explored_states.earliest(&root), None);
}

#[test]
fn limits_reject_what_the_search_cannot_hold() {
    assert!(within_limits(&State::default(), 23));
    assert!(within_limits(&State::default(), 31));
    let late = State { step: 24, ..State::default() };
    assert!(!within_limits(&late, 23));
    assert!(!within_limits(&State::default(), usize::MAX));
    let rich = State { resources: Inventory::new(usize::MAX, 0, 0, 0), ..State::default() };
    assert!(!within_limits(&rich, 23));
    let crowded = State { robots: Inventory::new(0, 0, usize::MAX / 2, 0), ..State::default() };
    assert!(!within_limits(&crowded, 23));
    let roomy = State { resources: Inventory::new(usize::MAX - 624, 0, 0, 0), ..State::default() };
    assert!(within_limits(&roomy, 23));
    let tight = State { resources: Inventory::new(usize::MAX - 623, 0, 0, 0), ..State::default() };
    assert!(!within_limits(&tight, 23));
}

#[test]
fn fresh_contexts_are_empty() {
    let metastate = MetaState::with_max_steps(31);
    assert_eq!(metastate.max_steps, 31);
    assert_eq!(metastate.duplicated_states, 0);
    assert_eq!(metastate.pruned_states, 0);
    assert_eq!(metastate.full_traversals, 0);
    assert_eq!(metastate.explored_states.earliest(&State::default()), None);

    let plain = MetaState::default();
    assert_eq!(plain.max_steps, 0);
    assert_eq!(plain.full_traversals, 0);
}
