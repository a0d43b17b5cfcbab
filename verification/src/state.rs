//! The game state and its transitions.

use vstd::prelude::*;
use vstd::std_specs::cmp::PartialEqSpecImpl;
use crate::model::{Configuration, Offer, Position};
use crate::resource::{Inventory, Resource};

verus! {

/// Robot counts, resource stockpiles and the number of elapsed steps.
///
/// Two states are equal when their robots and resources are: the step plays
/// no part in `==`, in `hash` or in `digest`.
#[derive(Clone, Copy, Debug)]
pub struct State {
    pub robots: Inventory,
    pub resources: Inventory,
    pub step: usize,
}

impl View for State {
    type V = Position;

    open spec fn view(&self) -> Position {
        Position { robots: self.robots@, resources: self.resources@, step: self.step as nat }
    }
}

/// One round of a multiplicative hash: folds `value` into `seed`.
pub open spec fn mix(seed: u64, value: nat) -> u64 {
    seed.wrapping_mul(0x0000_0100_0000_01b3).wrapping_add(value as u64)
}

/// The hash of a configuration: a function of robots and resources alone.
pub open spec fn digest_of(c: Configuration) -> u64 {
    let h0 = mix(0xcbf2_9ce4_8422_2325, c.robots.ore);
    let h1 = mix(h0, c.robots.clay);
    let h2 = mix(h1, c.robots.obsidian);
    let h3 = mix(h2, c.robots.geode);
    let h4 = mix(h3, c.resources.ore);
    let h5 = mix(h4, c.resources.clay);
    let h6 = mix(h5, c.resources.obsidian);
    mix(h6, c.resources.geode)
}

fn mix_in(seed: u64, value: usize) -> (mixed: u64)
    ensures
        mixed == mix(seed, value as nat),
{
    seed.wrapping_mul(0x0000_0100_0000_01b3).wrapping_add(value as u64)
}

impl State {
    /// Production: every robot adds one unit of its kind to the stockpile,
    /// then the step counter advances by one.
    pub fn tick(&mut self)
        requires
            old(self)@.tick().representable(),
        ensures
            final(self)@ == old(self)@.tick(),
            final(self).resources.geode >= old(self).resources.geode,
    {
        self.resources.ore = self.resources.ore + self.robots.ore;
        self.resources.clay = self.resources.clay + self.robots.clay;
        self.resources.obsidian = self.resources.obsidian + self.robots.obsidian;
        self.resources.geode = self.resources.geode + self.robots.geode;
        self.step = self.step + 1;
    }

    /// The state after paying `cost` for one more robot of `kind`. The step
    /// is unchanged.
    pub fn build(&self, kind: Resource, cost: &Inventory) -> (child: State)
        requires
            self.resources@.covers(cost@),
            self.robots@.get(kind) < usize::MAX,
        ensures
            child@ == self@.build(Offer { kind, cost: cost@ }),
    {
        let mut robots = self.robots;
        match kind {
            Resource::Ore => {
                robots.ore = robots.ore + 1;
            },
            Resource::Clay => {
                robots.clay = robots.clay + 1;
            },
            Resource::Obsidian => {
                robots.obsidian = robots.obsidian + 1;
            },
            Resource::Geode => {
                robots.geode = robots.geode + 1;
            },
        }
        let resources = Inventory {
            ore: self.resources.ore - cost.ore,
            clay: self.resources.clay - cost.clay,
            obsidian: self.resources.obsidian - cost.obsidian,
            geode: self.resources.geode - cost.geode,
        };
        State { robots, resources, step: self.step }
    }

    /// A hash of robots and resources. Equal states have equal digests.
    pub fn digest(&self) -> (d: u64)
        ensures
            d == digest_of(self@.configuration()),
    {
        let h0 = mix_in(0xcbf2_9ce4_8422_2325, self.robots.ore);
        let h1 = mix_in(h0, self.robots.clay);
        let h2 = mix_in(h1, self.robots.obsidian);
        let h3 = mix_in(h2, self.robots.geode);
        let h4 = mix_in(h3, self.resources.ore);
        let h5 = mix_in(h4, self.resources.clay);
        let h6 = mix_in(h5, self.resources.obsidian);
        mix_in(h6, self.resources.geode)
    }
}

impl Default for State {
    /// The root of every search: one ore robot, nothing in stock, step 0.
    fn default() -> (state: State)
        ensures
            state@ == Position::initial(),
    {
        State {
            robots: Inventory { ore: 1, clay: 0, obsidian: 0, geode: 0 },
            resources: Inventory { ore: 0, clay: 0, obsidian: 0, geode: 0 },
            step: 0,
        }
    }
}

impl PartialEq for State {
    fn eq(&self, other: &State) -> (equal: bool) {
        self.robots == other.robots && self.resources == other.resources
    }
}

impl PartialEqSpecImpl for State {
    open spec fn obeys_eq_spec() -> bool {
        true
    }

    open spec fn eq_spec(&self, other: &State) -> bool {
        self.robots == other.robots && self.resources == other.resources
    }
}

impl Eq for State {

}

/// Hands `value` to `std::hash::Hasher::write_u64`. Nothing is claimed of
/// the hasher's state afterwards.
#[verifier::external_body]
fn feed<H: std::hash::Hasher>(hasher: &mut H, value: u64) {
    hasher.write_u64(value);
}

impl std::hash::Hash for State {
    /// Feeds the digest, so that equal states hash alike.
    fn hash<H: std::hash::Hasher>(&self, hasher: &mut H) {
        feed(hasher, self.digest());
    }
}

} // verus!
