use vstd::prelude::*;

verus! {

/// Marks a cannonball.
#[derive(Clone, Copy, Debug, Default)]
pub struct Cannonball;

} // verus!
