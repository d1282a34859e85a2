//! Decision logic of the nightly optimization loop: experiment lifecycle,
//! daemon URL policy, UTF-8 safe truncation and the parsing of tool output.

use vstd::prelude::*;

pub mod cycle;
pub mod daemon;
pub mod extension;
pub mod proposal;
pub mod types;
pub mod stats;
pub mod targets;
pub mod text;
pub mod tool_output;
