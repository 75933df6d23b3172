//! Verified core of a keyboard-driven UI hint navigator: hint labels, prefix
//! filtering, the hint session state machine, deduplication and the pure
//! decisions around enumeration, input and configuration.

pub mod text;
pub mod geom;
pub mod hint;
pub mod anchor;
pub mod filter;
pub mod session;
pub mod planner;
pub mod fnv;
pub mod dedupe;
pub mod error;
pub mod uia_options;
pub mod label;
pub mod config;
pub mod startup;
pub mod input;
pub mod chord;
pub mod click;
pub mod strategy;
pub mod uia_debug;
pub mod pattern;
pub mod fallback;
pub mod collect;
pub mod ladder;
pub mod invoke;
pub mod render;
pub mod controller;

use vstd::prelude::*;

verus! {
} // verus!
