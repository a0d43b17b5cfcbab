//! Blueprints: what each kind of robot costs.

use vstd::prelude::*;
use crate::grammar::{blueprint_groups, blueprint_pattern_text, decimal, parse_number, regex_groups};
use crate::model::{affordable, Offer, Plan};
use crate::resource::{Inventory, Resource};

verus! {

/// The price of one robot of kind `robot_type`.
#[derive(Clone, Copy, Debug)]
struct Recipe {
    costs: Inventory,
    robot_type: Resource,
}

impl View for Recipe {
    type V = Offer;

    closed spec fn view(&self) -> Offer {
        Offer { kind: self.robot_type, cost: self.costs@ }
    }
}

/// An identifier and the recipes, fixed once built.
#[derive(Debug)]
pub struct Blueprint {
    pub id: usize,
    recipes: Vec<Recipe>,
}

impl View for Blueprint {
    type V = Plan;

    closed spec fn view(&self) -> Plan {
        Plan { id: self.id as nat, recipes: Seq::new(self.recipes@.len(), |i: int| self.recipes@[i]@) }
    }
}

/// The model of a list of `(kind, cost)` pairs.
pub open spec fn offers_of(pairs: Seq<(Resource, Inventory)>) -> Seq<Offer> {
    Seq::new(pairs.len(), |i: int| Offer { kind: pairs[i].0, cost: pairs[i].1@ })
}

/// Whether recipe `i` is the first one for robots of `kind`.
pub open spec fn first_recipe_for(recipes: Seq<Offer>, kind: Resource, i: int) -> bool {
    &&& 0 <= i < recipes.len()
    &&& recipes[i].kind == kind
    &&& forall|j: int| 0 <= j < i ==> (#[trigger] recipes[j]).kind != kind
}

/// The number in capture group `i`, if the group is there and holds one.
pub open spec fn field(groups: Seq<Option<Seq<u8>>>, i: int) -> Option<usize> {
    if 0 <= i < groups.len() && groups[i] is Some {
        decimal(groups[i]->0)
    } else {
        None
    }
}

/// The plan that the capture groups of a blueprint sentence spell out: the
/// whole match, then the identifier and the six costs, each a decimal number
/// that fits in a `usize`.
pub open spec fn plan_of_groups(groups: Seq<Option<Seq<u8>>>) -> Option<Plan> {
    if groups.len() == 8 && (forall|i: int| 1 <= i < 8 ==> (#[trigger] field(groups, i)) is Some) {
        Some(
            Plan::standard(
                field(groups, 1)->0 as nat,
                field(groups, 2)->0 as nat,
                field(groups, 3)->0 as nat,
                field(groups, 4)->0 as nat,
                field(groups, 5)->0 as nat,
                field(groups, 6)->0 as nat,
                field(groups, 7)->0 as nat,
            ),
        )
    } else {
        None
    }
}

/// The plan written on a line of text, if the blueprint sentence occurs in it.
pub open spec fn plan_of_line(line: Seq<char>) -> Option<Plan> {
    match regex_groups(blueprint_pattern_text(), line) {
        Some(groups) => plan_of_groups(groups),
        None => None,
    }
}

/// The model of an optional blueprint.
pub open spec fn plan_of(blueprint: Option<Blueprint>) -> Option<Plan> {
    match blueprint {
        Some(b) => Some(b@),
        None => None,
    }
}

fn number_in(groups: &Vec<Option<Vec<u8>>>, i: usize) -> (number: Option<usize>)
    ensures
        number == field(groups.deep_view(), i as int),
{
    if i < groups.len() {
        match &groups[i] {
            Some(text) => {
                assert(groups.deep_view()[i as int] == Some(text@));
                parse_number(text)
            },
            None => {
                assert(groups.deep_view()[i as int] is None);
                None
            },
        }
    } else {
        None
    }
}

impl Blueprint {
    /// A blueprint with one recipe per robot kind.
    pub fn new(
        id: usize,
        ore_robot_ore: usize,
        clay_robot_ore: usize,
        obsidian_robot_ore: usize,
        obsidian_robot_clay: usize,
        geode_robot_ore: usize,
        geode_robot_obsidian: usize,
    ) -> (blueprint: Blueprint)
        ensures
            blueprint@ == Plan::standard(
                id as nat,
                ore_robot_ore as nat,
                clay_robot_ore as nat,
                obsidian_robot_ore as nat,
                obsidian_robot_clay as nat,
                geode_robot_ore as nat,
                geode_robot_obsidian as nat,
            ),
            blueprint@.one_recipe_per_kind(),
    {
        let mut recipes: Vec<Recipe> = Vec::new();
        recipes.push(
            Recipe {
                costs: Inventory { ore: ore_robot_ore, clay: 0, obsidian: 0, geode: 0 },
                robot_type: Resource::Ore,
            },
        );
        recipes.push(
            Recipe {
                costs: Inventory { ore: clay_robot_ore, clay: 0, obsidian: 0, geode: 0 },
                robot_type: Resource::Clay,
            },
        );
        recipes.push(
            Recipe {
                costs: Inventory {
                    ore: obsidian_robot_ore,
                    clay: obsidian_robot_clay,
                    obsidian: 0,
                    geode: 0,
                },
                robot_type: Resource::Obsidian,
            },
        );
        recipes.push(
            Recipe {
                costs: Inventory {
                    ore: geode_robot_ore,
                    clay: 0,
                    obsidian: geode_robot_obsidian,
                    geode: 0,
                },
                robot_type: Resource::Geode,
            },
        );
        let blueprint = Blueprint { id, recipes };
        assert(blueprint@.recipes =~= Plan::standard(
            id as nat,
            ore_robot_ore as nat,
            clay_robot_ore as nat,
            obsidian_robot_ore as nat,
            obsidian_robot_clay as nat,
            geode_robot_ore as nat,
            geode_robot_obsidian as nat,
        ).recipes);
        blueprint
    }

    /// The recipes that `resources` can pay for, each with what would be
    /// deducted, in recipe order.
    pub fn possible(&self, resources: &Inventory) -> (options: Vec<(Resource, Inventory)>)
        ensures
            offers_of(options@) == affordable(self@.recipes, resources@),
    {
        let ghost pays = |offer: Offer| resources@.covers(offer.cost);
        let mut options: Vec<(Resource, Inventory)> = Vec::new();
        let mut j: usize = 0;
        proof {
            reveal(Seq::filter);
            assert(self@.recipes.take(0) =~= Seq::<Offer>::empty());
            assert(offers_of(options@) =~= Seq::<Offer>::empty());
        }
        while j < self.recipes.len()
            invariant
                0 <= j <= self.recipes.len(),
                pays == |offer: Offer| resources@.covers(offer.cost),
                offers_of(options@) == self@.recipes.take(j as int).filter(pays),
            decreases self.recipes.len() - j,
        {
            let recipe = &self.recipes[j];
            let ghost before = offers_of(options@);
            if resources.covers(&recipe.costs) {
                options.push((recipe.robot_type, recipe.costs));
            }
            proof {
                reveal(Seq::filter);
                let prefix = self@.recipes.take(j + 1);
                assert(prefix.drop_last() =~= self@.recipes.take(j as int));
                assert(prefix.last() == recipe@);
                if resources@.covers(recipe@.cost) {
                    assert(offers_of(options@) =~= before.push(recipe@));
                } else {
                    assert(offers_of(options@) =~= before);
                }
            }
            j = j + 1;
        }
        proof {
            assert(self@.recipes.take(j as int) =~= self@.recipes);
        }
        options
    }

    /// The cost of the first recipe for robots of `kind`, if there is one.
    pub fn cost_of(&self, kind: Resource) -> (cost: Option<Inventory>)
        ensures
            match cost {
                Some(c) => exists|i: int|
                    first_recipe_for(self@.recipes, kind, i) && (#[trigger] self@.recipes[i]).cost
                        == c@,
                None => forall|i: int|
                    0 <= i < self@.recipes.len() ==> (#[trigger] self@.recipes[i]).kind != kind,
            },
    {
        let mut j: usize = 0;
        while j < self.recipes.len()
            invariant
                0 <= j <= self.recipes.len(),
                forall|i: int| 0 <= i < j ==> (#[trigger] self@.recipes[i]).kind != kind,
            decreases self.recipes.len() - j,
        {
            if self.recipes[j].robot_type == kind {
                assert(first_recipe_for(self@.recipes, kind, j as int));
                assert(self@.recipes[j as int].cost == self.recipes[j as int].costs@);
                return Some(self.recipes[j].costs);
            }
            j = j + 1;
        }
        None
    }

    /// Builds the blueprint that capture groups spell out: group 1 is the
    /// identifier, groups 2 to 7 the costs.
    pub fn from_groups(groups: &Vec<Option<Vec<u8>>>) -> (blueprint: Option<Blueprint>)
        ensures
            plan_of(blueprint) == plan_of_groups(groups.deep_view()),
    {
        if groups.len() != 8 {
            return None;
        }
        let id = number_in(groups, 1);
        let ore_robot_ore = number_in(groups, 2);
        let clay_robot_ore = number_in(groups, 3);
        let obsidian_robot_ore = number_in(groups, 4);
        let obsidian_robot_clay = number_in(groups, 5);
        let geode_robot_ore = number_in(groups, 6);
        let geode_robot_obsidian = number_in(groups, 7);
        match (
            id,
            ore_robot_ore,
            clay_robot_ore,
            obsidian_robot_ore,
            obsidian_robot_clay,
            geode_robot_ore,
            geode_robot_obsidian,
        ) {
            (Some(a), Some(b), Some(c), Some(d), Some(e), Some(f), Some(g)) => Some(
                Blueprint::new(a, b, c, d, e, f, g),
            ),
            _ => None,
        }
    }

    /// Reads a blueprint from a line of text.
    pub fn parse(line: &str) -> (blueprint: Option<Blueprint>)
        ensures
            plan_of(blueprint) == plan_of_line(line@),
    {
        match blueprint_groups(line) {
            Some(groups) => Blueprint::from_groups(&groups),
            None => None,
        }
    }
}

} // verus!
