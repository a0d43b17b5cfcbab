//! Resource kinds and the fixed-size, kind-indexed inventory.

use vstd::prelude::*;
use crate::model::Stock;

verus! {

/// The four resource kinds, in their fixed order. A robot of kind `K`
/// produces one unit of resource `K` per step.
#[derive(Clone, Copy, Debug, PartialEq, Eq, Structural, Hash, PartialOrd, Ord)]
pub enum Resource {
    Ore,
    Clay,
    Obsidian,
    Geode,
}

/// One non-negative quantity per resource kind. Used for recipe costs, robot
/// counts and resource stockpiles alike.
#[derive(Clone, Copy, Debug, PartialEq, Eq, Structural, Hash)]
pub struct Inventory {
    pub ore: usize,
    pub clay: usize,
    pub obsidian: usize,
    pub geode: usize,
}

impl View for Inventory {
    type V = Stock;

    open spec fn view(&self) -> Stock {
        Stock {
            ore: self.ore as nat,
            clay: self.clay as nat,
            obsidian: self.obsidian as nat,
            geode: self.geode as nat,
        }
    }
}

impl Inventory {
    /// An inventory holding the four given quantities.
    pub fn new(ore: usize, clay: usize, obsidian: usize, geode: usize) -> (inventory: Inventory)
        ensures
            inventory@ == (Stock { ore: ore as nat, clay: clay as nat, obsidian: obsidian as nat, geode: geode as nat }),
    {
        Inventory { ore, clay, obsidian, geode }
    }

    /// The inventory with nothing in it.
    pub fn empty() -> (inventory: Inventory)
        ensures
            inventory@ == Stock::zero(),
    {
        Inventory { ore: 0, clay: 0, obsidian: 0, geode: 0 }
    }

    /// The quantity held of one kind.
    pub fn get(&self, kind: Resource) -> (quantity: usize)
        ensures
            quantity == self@.get(kind),
    {
        match kind {
            Resource::Ore => self.ore,
            Resource::Clay => self.clay,
            Resource::Obsidian => self.obsidian,
            Resource::Geode => self.geode,
        }
    }

    /// Whether every entry of `cost` is at most the matching entry of `self`.
    pub fn covers(&self, cost: &Inventory) -> (enough: bool)
        ensures
            enough == self@.covers(cost@),
    {
        cost.ore <= self.ore && cost.clay <= self.clay && cost.obsidian <= self.obsidian
            && cost.geode <= self.geode
    }
}

} // verus!
