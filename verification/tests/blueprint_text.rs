use geode_search::blueprint::Blueprint;
use geode_search::grammar::{blueprint_groups, parse_number};
use geode_search::max_search::{traverse_depth_first, MetaState};
use geode_search::resource::{Inventory, Resource};
use geode_search::state::State;

const FIRST: &str = "Blueprint 1: Each ore robot costs 4 ore. Each clay robot costs 2 ore. Each obsidian robot costs 3 ore and 14 clay. Each geode robot costs 2 ore and 7 obsidian.";

fn text(s: &str) -> Option<Vec<u8>> {
    Some(s.as_bytes().to_vec())
}

#[test]
fn example1() {
    let blueprint = Blueprint::parse(FIRST).unwrap();
    let mut metastate = MetaState::with_max_steps(10);
    let result = traverse_depth_first(State::default(), 0, &blueprint, &mut metastate);
    assert_eq!(result.unwrap_or_default(), 0);
}

#[test]
fn line_is_read_into_identifier_and_costs() {
    let blueprint = Blueprint::parse(FIRST).unwrap();
    assert_eq!(blueprint.id, 1);
    assert_eq!(blueprint.cost_of(Resource::Ore), Some(Inventory::new(4, 0, 0, 0)));
    assert_eq!(blueprint.cost_of(Resource::Clay), Some(Inventory::new(2, 0, 0, 0)));
    assert_eq!(blueprint.cost_of(Resource::Obsidian), Some(Inventory::new(3, 14, 0, 0)));
    assert_eq!(blueprint.cost_of(Resource::Geode), Some(Inventory::new(2, 0, 7, 0)));
}

#[test]
fn parsed_and_constructed_blueprints_search_alike() {
    let parsed = Blueprint::parse(FIRST).unwrap();
    let built = Blueprint::new(1, 4, 2, 3, 14, 2, 7);
    let mut first = MetaState::with_max_steps(18);
    let mut second = MetaState::with_max_steps(18);
    assert_eq!(
        traverse_depth_first(State::default(), 0, &parsed, &mut first),
        traverse_depth_first(State::default(), 0, &built, &mut second)
    );
    assert_eq!(first.full_traversals, second.full_traversals);
}

#[test]
fn sentence_is_found_inside_a_longer_line() {
    let line = format!("  >> {} <<", FIRST.replace("Blueprint 1:", "Blueprint 30:"));
    let blueprint = Blueprint::parse(&line).unwrap();
    assert_eq!(blueprint.id, 30);
}

#[test]
fn other_text_is_no_blueprint() {
    assert!(Blueprint::parse("").is_none());
    assert!(Blueprint::parse("Blueprint 1: Each ore robot costs 4 ore.").is_none());
    assert!(Blueprint::parse(&FIRST.replace("14 clay", "many clay")).is_none());
    assert!(Blueprint::parse(&FIRST.replace("Blueprint 1", "Blueprint -1")).is_none());
    assert!(Blueprint::parse(&FIRST.replace("geode robot", "diamond robot")).is_none());
}

#[test]
fn number_beyond_the_machine_word_is_rejected() {
    let line = FIRST.replace("14 clay", "340282366920938463463374607431768211456 clay");
    assert!(Blueprint::parse(&line).is_none());
    let largest = FIRST.replace("14 clay", &format!("{} clay", usize::MAX));
    let blueprint = Blueprint::parse(&largest).unwrap();
    assert_eq!(
        blueprint.cost_of(Resource::Obsidian),
        Some(Inventory::new(3, usize::MAX, 0, 0))
    );
}

#[test]
fn groups_are_the_whole_match_and_the_seven_numbers() {
    let groups = blueprint_groups(FIRST).unwrap();
    assert_eq!(groups.len(), 8);
    assert_eq!(groups[0], text(FIRST));
    let numbers: Vec<Option<Vec<u8>>> =
        vec![text("1"), text("4"), text("2"), text("3"), text("14"), text("2"), text("7")];
    assert_eq!(groups[1..].to_vec(), numbers);
    assert_eq!(blueprint_groups("Blueprint one"), None);
}

#[test]
fn blueprint_from_groups_given_by_hand() {
    let groups = vec![
        text("ignored"),
        text("12"),
        text("4"),
        text("2"),
        text("3"),
        text("14"),
        text("2"),
        text("007"),
    ];
    let blueprint = Blueprint::from_groups(&groups).unwrap();
    assert_eq!(blueprint.id, 12);
    assert_eq!(blueprint.cost_of(Resource::Geode), Some(Inventory::new(2, 0, 7, 0)));

    let mut no_whole_match = groups.clone();
    no_whole_match[0] = None;
    assert!(Blueprint::from_groups(&no_whole_match).is_some());

    let mut missing = groups.clone();
    missing[4] = None;
    assert!(Blueprint::from_groups(&missing).is_none());

    let mut not_a_number = groups.clone();
    not_a_number[7] = text("7x");
    assert!(Blueprint::from_groups(&not_a_number).is_none());

    let mut empty = groups.clone();
    empty[1] = text("");
    assert!(Blueprint::from_groups(&empty).is_none());

    let mut short = groups.clone();
    short.pop();
    assert!(Blueprint::from_groups(&short).is_none());

    let mut long = groups.clone();
    long.push(text("1"));
    assert!(Blueprint::from_groups(&long).is_none());
}

#[test]
fn decimal_numbers() {
    assert_eq!(parse_number(&b"0".to_vec()), Some(0));
    assert_eq!(parse_number(&b"12".to_vec()), Some(12));
    assert_eq!(parse_number(&b"00123".to_vec()), Some(123));
    assert_eq!(parse_number(&b"".to_vec()), None);
    assert_eq!(parse_number(&b"1a".to_vec()), None);
    assert_eq!(parse_number(&b"+1".to_vec()), None);
    assert_eq!(parse_number(&b" 1".to_vec()), None);
    assert_eq!(parse_number(&b"/".to_vec()), None);
    assert_eq!(parse_number(&b":".to_vec()), None);
    assert_eq!(parse_number(&usize::MAX.to_string().into_bytes()), Some(usize::MAX));
    let beyond = (usize::MAX as u128 + 1).to_string().into_bytes();
    assert_eq!(parse_number(&beyond), None);
    let mut tenfold = usize::MAX.to_string().into_bytes();
    tenfold.push(b'0');
    assert_eq!(parse_number(&tenfold), None);
}

#[test]
fn possible_lists_affordable_recipes_in_kind_order() {
    let blueprint = Blueprint::new(1, 4, 2, 3, 14, 2, 7);
    assert_eq!(blueprint.possible(&Inventory::empty()), vec![]);
    assert_eq!(blueprint.possible(&Inventory::new(1, 100, 100, 100)), vec![]);
    assert_eq!(
        blueprint.possible(&Inventory::new(2, 0, 0, 0)),
        vec![(Resource::Clay, Inventory::new(2, 0, 0, 0))]
    );
    assert_eq!(
        blueprint.possible(&Inventory::new(3, 13, 7, 0)),
        vec![
            (Resource::Clay, Inventory::new(2, 0, 0, 0)),
            (Resource::Geode, Inventory::new(2, 0, 7, 0)),
        ]
    );
    assert_eq!(
        blueprint.possible(&Inventory::new(4, 14, 7, 0)),
        vec![
            (Resource::Ore, Inventory::new(4, 0, 0, 0)),
            (Resource::Clay, Inventory::new(2, 0, 0, 0)),
            (Resource::Obsidian, Inventory::new(3, 14, 0, 0)),
            (Resource::Geode, Inventory::new(2, 0, 7, 0)),
        ]
    );
    assert_eq!(
        blueprint.possible(&Inventory::new(4, 14, 6, 9)),
        vec![
            (Resource::Ore, Inventory::new(4, 0, 0, 0)),
            (Resource::Clay, Inventory::new(2, 0, 0, 0)),
            (Resource::Obsidian, Inventory::new(3, 14, 0, 0)),
        ]
    );
}
