//! The verified core of `odyn`, a vendoring tool for Odin projects: dependencies are Git
//! repositories cloned into `odyn_deps/` and pinned to a commit in `Odyn.lock`.
use vstd::prelude::*;

pub mod checksum;
pub mod cli;
pub mod git_output;
pub mod lockfile;
pub mod progress;
pub mod project;
pub mod release;
pub mod report;
pub mod source;
pub mod sync;
pub mod text;
pub mod version;

verus! {

} // verus!
