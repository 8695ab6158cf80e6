//! Options of the fee tests.

use vstd::prelude::*;

verus! {

/// What the fee tests are run with.
#[derive(Debug, Clone, Copy, PartialEq, Eq, Structural, Hash)]
pub struct FeesArgs {
    /// Run the tests against an external node.
    pub external_node: bool,
    /// Do not install or build dependencies first.
    pub no_deps: bool,
}

} // verus!
