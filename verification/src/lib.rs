use vstd::prelude::*;

pub mod aging;
pub mod anomaly;
pub mod alert;
pub mod calendar;
pub mod cleaner;
pub mod cli;
pub mod db;
pub mod duplicates;
pub mod fileclass;
pub mod fragmentation;
pub mod hub;
pub mod largefiles;
pub mod mft;
pub mod model_manager;
pub mod notify;
pub mod order;
pub mod recommendations;
pub mod pairing;
pub mod platform;
pub mod prediction;
pub mod registry;
pub mod relay;
pub mod report;
pub mod risk;
pub mod scanner;
pub mod scheduler;
pub mod service;
pub mod settings;
pub mod storage;
pub mod text;
pub mod tokens;
pub mod watcher;

verus! {
} // verus!
