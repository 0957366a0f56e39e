use vstd::prelude::*;

verus! {

/// The fixed embedding dimension shared by every tenant in the process.
pub const EMBEDDING_LENGTH: usize = 1536;

} // verus!
