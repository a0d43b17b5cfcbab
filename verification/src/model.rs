//! The mathematical model of the game: unbounded quantities, positions and
//! the moves that lead from one position to the next.

use vstd::prelude::*;
use crate::resource::Resource;

verus! {

/// One natural number per resource kind.
pub struct Stock {
    pub ore: nat,
    pub clay: nat,
    pub obsidian: nat,
    pub geode: nat,
}

impl Stock {
    pub open spec fn zero() -> Stock {
        Stock { ore: 0, clay: 0, obsidian: 0, geode: 0 }
    }

    pub open spec fn get(self, kind: Resource) -> nat {
        match kind {
            Resource::Ore => self.ore,
            Resource::Clay => self.clay,
            Resource::Obsidian => self.obsidian,
            Resource::Geode => self.geode,
        }
    }

    /// Whether every entry fits in a `usize`.
    pub open spec fn representable(self) -> bool {
        &&& self.ore <= usize::MAX
        &&& self.clay <= usize::MAX
        &&& self.obsidian <= usize::MAX
        &&& self.geode <= usize::MAX
    }

    /// Entrywise `cost <= self`.
    pub open spec fn covers(self, cost: Stock) -> bool {
        &&& cost.ore <= self.ore
        &&& cost.clay <= self.clay
        &&& cost.obsidian <= self.obsidian
        &&& cost.geode <= self.geode
    }

    /// Entrywise sum.
    pub open spec fn plus(self, other: Stock) -> Stock {
        Stock {
            ore: self.ore + other.ore,
            clay: self.clay + other.clay,
            obsidian: self.obsidian + other.obsidian,
            geode: self.geode + other.geode,
        }
    }

    /// Entrywise difference; meaningful where `self.covers(cost)`.
    pub open spec fn minus(self, cost: Stock) -> Stock {
        Stock {
            ore: (self.ore - cost.ore) as nat,
            clay: (self.clay - cost.clay) as nat,
            obsidian: (self.obsidian - cost.obsidian) as nat,
            geode: (self.geode - cost.geode) as nat,
        }
    }

    /// One more of the given kind.
    pub open spec fn with_one_more(self, kind: Resource) -> Stock {
        match kind {
            Resource::Ore => Stock { ore: self.ore + 1, ..self },
            Resource::Clay => Stock { clay: self.clay + 1, ..self },
            Resource::Obsidian => Stock { obsidian: self.obsidian + 1, ..self },
            Resource::Geode => Stock { geode: self.geode + 1, ..self },
        }
    }
}

/// A robot kind together with the price of building one such robot.
pub struct Offer {
    pub kind: Resource,
    pub cost: Stock,
}

/// The model of a blueprint: its identifier and its recipes in order.
pub struct Plan {
    pub id: nat,
    pub recipes: Seq<Offer>,
}

impl Plan {
    /// A plan with one recipe per robot kind, in kind order: ore robots cost
    /// ore; clay robots cost ore; obsidian robots cost ore and clay; geode
    /// robots cost ore and obsidian.
    pub open spec fn standard(
        id: nat,
        ore_robot_ore: nat,
        clay_robot_ore: nat,
        obsidian_robot_ore: nat,
        obsidian_robot_clay: nat,
        geode_robot_ore: nat,
        geode_robot_obsidian: nat,
    ) -> Plan {
        Plan {
            id,
            recipes: seq![
                Offer {
                    kind: Resource::Ore,
                    cost: Stock { ore: ore_robot_ore, clay: 0, obsidian: 0, geode: 0 },
                },
                Offer {
                    kind: Resource::Clay,
                    cost: Stock { ore: clay_robot_ore, clay: 0, obsidian: 0, geode: 0 },
                },
                Offer {
                    kind: Resource::Obsidian,
                    cost: Stock {
                        ore: obsidian_robot_ore,
                        clay: obsidian_robot_clay,
                        obsidian: 0,
                        geode: 0,
                    },
                },
                Offer {
                    kind: Resource::Geode,
                    cost: Stock {
                        ore: geode_robot_ore,
                        clay: 0,
                        obsidian: geode_robot_obsidian,
                        geode: 0,
                    },
                },
            ],
        }
    }

    /// Exactly one recipe per robot kind, in kind order.
    pub open spec fn one_recipe_per_kind(self) -> bool {
        &&& self.recipes.len() == 4
        &&& self.recipes[0].kind == Resource::Ore
        &&& self.recipes[1].kind == Resource::Clay
        &&& self.recipes[2].kind == Resource::Obsidian
        &&& self.recipes[3].kind == Resource::Geode
    }
}

/// What dominance compares: robots and stockpiles, without the step.
pub struct Configuration {
    pub robots: Stock,
    pub resources: Stock,
}

/// A game position: robots, stockpiles and the number of elapsed steps.
pub struct Position {
    pub robots: Stock,
    pub resources: Stock,
    pub step: nat,
}

impl Position {
    /// One ore robot, empty stockpiles, no step taken.
    pub open spec fn initial() -> Position {
        Position {
            robots: Stock { ore: 1, clay: 0, obsidian: 0, geode: 0 },
            resources: Stock::zero(),
            step: 0,
        }
    }

    pub open spec fn configuration(self) -> Configuration {
        Configuration { robots: self.robots, resources: self.resources }
    }

    /// Whether every quantity and the step fit in a `usize`.
    pub open spec fn representable(self) -> bool {
        &&& self.robots.representable()
        &&& self.resources.representable()
        &&& self.step <= usize::MAX
    }

    /// Every robot adds one unit of its kind; one step elapses.
    pub open spec fn tick(self) -> Position {
        Position {
            robots: self.robots,
            resources: self.resources.plus(self.robots),
            step: self.step + 1,
        }
    }

    /// Pays `offer.cost` and gains one robot of `offer.kind`.
    pub open spec fn build(self, offer: Offer) -> Position {
        Position {
            robots: self.robots.with_one_more(offer.kind),
            resources: self.resources.minus(offer.cost),
            step: self.step,
        }
    }
}

/// The recipes whose cost the stockpile `resources` covers, in recipe order.
pub open spec fn affordable(recipes: Seq<Offer>, resources: Stock) -> Seq<Offer> {
    recipes.filter(|offer: Offer| resources.covers(offer.cost))
}

/// The number of moves open at `p`: one per affordable recipe, and waiting.
pub open spec fn branching(recipes: Seq<Offer>, p: Position) -> nat {
    affordable(recipes, p.resources).len() + 1
}

/// The position that move `i` leads to. Affordability is judged on the
/// stockpile before production; the robot is paid for after it. The last
/// move builds nothing.
pub open spec fn successor(recipes: Seq<Offer>, p: Position, i: int) -> Position {
    let offers = affordable(recipes, p.resources);
    if 0 <= i < offers.len() {
        p.tick().build(offers[i])
    } else {
        p.tick()
    }
}

pub open spec fn larger(a: nat, b: nat) -> nat {
    if a >= b {
        a
    } else {
        b
    }
}

} // verus!
