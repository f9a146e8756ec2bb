//! The names of the options that a parameter block may hold.

use vstd::prelude::*;

verus! {

/// The option that gives a parameter its default value.
pub const DEFAULT_VALUE: &'static str = "defaultValue";

} // verus!
