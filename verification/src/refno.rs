//! Reference numbers of model elements.

use vstd::prelude::*;

verus! {

/// A reference number packed into 64 bits: the database half in the upper
/// 32 bits and the element half in the lower 32 bits.
#[derive(Debug, Clone, Copy, Default, PartialEq, Eq, PartialOrd, Ord, Hash, Structural)]
pub struct RefU64(pub u64);

} // verus!
