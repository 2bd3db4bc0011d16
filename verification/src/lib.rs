//! Verified core of the Archipelag.io command-line client.
use vstd::prelude::*;

pub mod models;
pub mod cli;
pub mod client;
pub mod commands;
pub mod config;
pub mod duration;
pub mod json;
pub mod output;
pub mod text;
pub mod paint;

verus! {

} // verus!
