//! Proof-carrying tuning of release builds: the decisions of `cargo temper`, each with a contract.

use vstd::prelude::*;

pub mod anchored;
pub mod capture;
pub mod cargo;
pub mod classify;
pub mod cli;
pub mod config_graph;
pub mod confirm;
pub mod corpus;
pub mod document;
pub mod error;
pub mod fixtures;
pub mod harness;
pub mod hash;
pub mod interposition;
pub mod json;
pub mod measurement;
pub mod order;
pub mod parity;
pub mod paths;
pub mod phases;
pub mod preflight;
pub mod prerequisites;
pub mod profiles;
pub mod promotion;
pub mod run;
pub mod search;
pub mod shim;
pub mod strategy;
pub mod text;
pub mod tools;
pub mod training;
pub mod workload;
pub mod wrapper;

verus! {

} // verus!
