use vstd::prelude::*;

verus! {

/// Marks the effect shown where a wisp attacks.
#[derive(Clone, Copy, Debug, Default)]
pub struct WispAttackEffect;

} // verus!
