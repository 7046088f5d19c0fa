//! Protocol constants.

use vstd::prelude::*;

verus! {

/// The number of leading zero bytes that `Block::new` mines for.
pub const DEFAULT_DIFFICULTY: usize = 1;

} // verus!
