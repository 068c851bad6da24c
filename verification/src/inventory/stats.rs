use vstd::prelude::*;

verus! {

/// How many wisps the player has killed so far.
#[derive(Clone, Copy, Debug, PartialEq, Eq, Structural, Default)]
pub struct StatsWispsKilled(pub usize);

} // verus!
