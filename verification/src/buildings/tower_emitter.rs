use vstd::prelude::*;
use crate::buildings::common_components::TowerWispTarget;

verus! {

/// One shooting decision of an emitter tower: it fires at its target wisp once its shooting
/// timer has finished; when that wisp no longer exists it searches for a new target instead.
/// Returns whether it fires (a ripple is sent and the timer restarts).
pub fn shooting_system(target: &mut TowerWispTarget, timer_finished: bool, target_exists: bool) -> (fire:
    bool)
    ensures
        fire == (*old(target) is Wisp && timer_finished && target_exists),
        *final(target) == if *old(target) is Wisp && timer_finished && !target_exists {
            TowerWispTarget::SearchForNewTarget
        } else {
            *old(target)
        },
{
    match *target {
        TowerWispTarget::Wisp(_) => {},
        _ => {
            return false;
        },
    }
    if !timer_finished {
        return false;
    }
    if !target_exists {
        *target = TowerWispTarget::SearchForNewTarget;
        return false;
    }
    true
}

} // verus!
