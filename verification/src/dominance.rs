//! The dominance set: for each configuration that a finished subtree could
//! not improve on, the earliest step at which it was seen.

use std::collections::HashMap;
use vstd::prelude::*;
use crate::model::Configuration;
use crate::state::{digest_of, State};

verus! {

/// Whether `chain` holds a state with configuration `c`.
spec fn holds(chain: Seq<State>, c: Configuration) -> bool {
    exists|i: int| 0 <= i < chain.len() && (#[trigger] chain[i])@.configuration() == c
}

/// An index at which `chain` holds configuration `c`, if there is one.
spec fn slot(chain: Seq<State>, c: Configuration) -> int {
    choose|i: int| 0 <= i < chain.len() && (#[trigger] chain[i])@.configuration() == c
}

/// No two states of `chain` share a configuration.
spec fn distinct(chain: Seq<State>) -> bool {
    forall|i: int, j: int|
        0 <= i < j < chain.len() ==> (#[trigger] chain[i])@.configuration() != (
        #[trigger] chain[j])@.configuration()
}

/// Every state of `chain` has digest `h`.
spec fn hashed_to(chain: Seq<State>, h: u64) -> bool {
    forall|i: int| 0 <= i < chain.len() ==> digest_of((#[trigger] chain[i])@.configuration()) == h
}

/// What recording `c` at `step` does to a set: the entry is written unless
/// the set already holds `c` at that step or an earlier one.
pub open spec fn recorded(memo: Map<Configuration, nat>, c: Configuration, step: nat) -> Map<
    Configuration,
    nat,
> {
    if memo.contains_key(c) && memo[c] <= step {
        memo
    } else {
        memo.insert(c, step)
    }
}

/// Looks for a state with the configuration of `state` in `chain`.
fn find(chain: &Vec<State>, state: &State) -> (at: Option<usize>)
    ensures
        match at {
            Some(i) => i < chain.len() && chain@[i as int]@.configuration()
                == state@.configuration(),
            None => !holds(chain@, state@.configuration()),
        },
{
    let mut i: usize = 0;
    while i < chain.len()
        invariant
            0 <= i <= chain.len(),
            forall|j: int|
                0 <= j < i ==> (#[trigger] chain@[j])@.configuration() != state@.configuration(),
        decreases chain.len() - i,
    {
        if chain[i] == *state {
            return Some(i);
        }
        i = i + 1;
    }
    None
}

/// A set of states, at most one per configuration, found by configuration.
pub struct DominanceSet {
    buckets: HashMap<u64, Vec<State>>,
}

impl DominanceSet {
    spec fn chain(self, h: u64) -> Seq<State> {
        if self.buckets@.contains_key(h) {
            self.buckets@[h]@
        } else {
            Seq::empty()
        }
    }

    #[verifier::type_invariant]
    spec fn well_formed(self) -> bool {
        forall|h: u64| #[trigger]
            self.buckets@.contains_key(h) ==> hashed_to(self.buckets@[h]@, h) && distinct(
                self.buckets@[h]@,
            )
    }

    /// The set as a map from configuration to the step recorded for it.
    pub closed spec fn view(&self) -> Map<Configuration, nat> {
        Map::new(
            |c: Configuration| holds(self.chain(digest_of(c)), c),
            |c: Configuration|
                self.chain(digest_of(c))[slot(self.chain(digest_of(c)), c)].step as nat,
        )
    }

    /// The empty set.
    pub fn new() -> (set: DominanceSet)
        ensures
            set@ == Map::<Configuration, nat>::empty(),
    {
        let set = DominanceSet { buckets: HashMap::new() };
        assert(set@ =~= Map::<Configuration, nat>::empty());
        set
    }

    /// The step recorded for the configuration of `state`, if any.
    pub fn earliest(&self, state: &State) -> (step: Option<usize>)
        ensures
            match step {
                Some(s) => self@.contains_key(state@.configuration()) && self@[state@.configuration()]
                    == s,
                None => !self@.contains_key(state@.configuration()),
            },
    {
        broadcast use vstd::std_specs::hash::group_hash_axioms;

        proof {
            use_type_invariant(self);
        }
        let h = state.digest();
        match self.buckets.get(&h) {
            None => None,
            Some(bucket) => {
                assert(bucket@ == self.chain(h));
                match find(bucket, state) {
                    Some(i) => {
                        assert(slot(bucket@, state@.configuration()) == i);
                        Some(bucket[i].step)
                    },
                    None => None,
                }
            },
        }
    }

    /// Records `state`: afterwards the set holds its configuration at the
    /// earlier of its step and the step held before.
    pub fn record(&mut self, state: State)
        ensures
            final(self)@ == recorded(old(self)@, state@.configuration(), state@.step),
    {
        broadcast use vstd::std_specs::hash::group_hash_axioms;

        proof {
            use_type_invariant(&*self);
        }
        let h = state.digest();
        let ghost c = state@.configuration();
        let ghost before = *self;
        let mut buckets: HashMap<u64, Vec<State>> = HashMap::new();
        core::mem::swap(&mut self.buckets, &mut buckets);
        let mut bucket = match buckets.remove(&h) {
            Some(bucket) => bucket,
            None => Vec::new(),
        };
        assert(bucket@ == before.chain(h));
        let ghost old_chain = bucket@;
        let at = find(&bucket, &state);
        let ghost found = at is Some;
        let ghost i = if found { at->0 as int } else { 0 };
        match at {
            Some(k) => {
                assert(slot(old_chain, c) == k);
                if state.step < bucket[k].step {
                    bucket.set(k, state);
                }
            },
            None => {
                bucket.push(state);
            },
        }
        let ghost new_chain = bucket@;
        assert(hashed_to(new_chain, h));
        assert(distinct(new_chain));
        buckets.insert(h, bucket);
        core::mem::swap(&mut self.buckets, &mut buckets);
        proof {
            let goal = recorded(before@, c, state@.step);
            assert forall|d: Configuration| #[trigger] self@.contains_key(d) <==> goal.contains_key(d) by {
                let g = digest_of(d);
                if g == h {
                    assert(self.chain(g) == new_chain);
                    assert(before.chain(g) == old_chain);
                    if holds(new_chain, d) {
                        let k = slot(new_chain, d);
                        if d != c {
                            assert(old_chain[k]@.configuration() == d);
                        }
                    }
                    if holds(old_chain, d) {
                        let k = slot(old_chain, d);
                        assert(new_chain[k]@.configuration() == d);
                    }
                    if d == c {
                        if found {
                            assert(new_chain[i]@.configuration() == c);
                        } else {
                            assert(new_chain[new_chain.len() - 1]@.configuration() == c);
                        }
                    }
                } else {
                    assert(self.chain(g) == before.chain(g));
                }
            }
            assert forall|d: Configuration| #[trigger] self@.contains_key(d) implies self@[d] == goal[d] by {
                let g = digest_of(d);
                if g == h {
                    assert(self.chain(g) == new_chain);
                    assert(before.chain(g) == old_chain);
                    let k = slot(new_chain, d);
                    if d == c {
                        if found {
                            assert(new_chain[i]@.configuration() == c);
                            assert(k == i);
                        } else {
                            assert(new_chain[new_chain.len() - 1]@.configuration() == c);
                            assert(k == new_chain.len() - 1);
                        }
                    } else {
                        assert(old_chain[k]@.configuration() == d);
                        assert(slot(old_chain, d) == k);
                    }
                } else {
                    assert(self.chain(g) == before.chain(g));
                }
            }
            assert(self@ =~= goal);
        }
    }
}

} // verus!
