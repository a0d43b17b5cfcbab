//! Branch-and-bound search for the largest geode yield a robot factory can
//! reach within a fixed number of production steps.
//!
//! The executable code is verified against a mathematical model:
//!
//! - `model`: quantities, positions and moves over the natural numbers;
//! - `game`: the optimum of the game, the admissible bound and dominance;
//! - `max_search`: the search, equal step by step to its model `run`;
//! - `soundness`: why `run` returns the optimum.
//!
//! `resource`, `state`, `blueprint` and `dominance` hold the data types,
//! `grammar` reads blueprints from text and `scoring` adds up results.

pub mod resource;
pub mod model;
pub mod game;
pub mod state;
pub mod grammar;
pub mod blueprint;
pub mod dominance;
pub mod max_search;
pub mod soundness;
pub mod scoring;
