use vstd::prelude::*;

verus! {

/// What went wrong, in words.
pub type Error = String;

} // verus!
