//! Navigation between numbered sway workspaces kept in two groups: the
//! decisions of where to go, and what to remember for the next run.
use vstd::prelude::*;

pub mod actions;
pub mod commit;
pub mod decimal;
pub mod laws;
pub mod state;
pub mod workspace;

verus! {

} // verus!
