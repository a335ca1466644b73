//! Installing and removing self-contained application packages: the launcher
//! descriptor format, lookups in the registration directory, and the decisions of the
//! install and uninstall sequences. The file system work is left to the caller.
use vstd::prelude::*;

pub mod text;
pub mod descriptor;
pub mod store;
pub mod install;
pub mod uninstall;

verus! {

} // verus!
