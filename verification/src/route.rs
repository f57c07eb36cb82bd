//! The chain modules that a query can be sent to.

use vstd::prelude::*;

verus! {

/// The chain module that answers a query.
#[derive(Clone, Copy, Debug, PartialEq, Eq, Structural, Hash)]
pub enum SeiRoute {
    Oracle,
    Dex,
    Epoch,
    Tokenfactory,
    Evm,
}

} // verus!
