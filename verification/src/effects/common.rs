use vstd::prelude::*;

verus! {

/// Which frames of a sprite sheet an animation runs through. The frame timer, which counts
/// fractional seconds, is kept beside it.
#[derive(Clone, Copy, Debug, PartialEq, Eq, Structural)]
pub struct AnimationController {
    pub atlas_first_frame: usize,
    pub atlas_last_frame: usize,
    pub repeating: bool,
    /// Set once a non-repeating animation showed its last frame.
    pub has_finished: bool,
}

impl AnimationController {
    pub fn new(atlas_first_frame: usize, atlas_last_frame: usize, repeating: bool) -> (r: Self)
        ensures
            r.atlas_first_frame == atlas_first_frame,
            r.atlas_last_frame == atlas_last_frame,
            r.repeating == repeating,
            !r.has_finished,
    {
        AnimationController { atlas_first_frame, atlas_last_frame, repeating, has_finished: false }
    }
}

/// Advances an animation when its frame timer has just finished: to the next frame, or from
/// the last frame back to the first when repeating; a non-repeating animation stays on its
/// last frame and is marked finished.
pub fn animate_sprite_system(
    controller: &mut AnimationController,
    atlas_index: &mut usize,
    timer_just_finished: bool,
)
    requires
        timer_just_finished && *old(atlas_index) != old(controller).atlas_last_frame
            ==> *old(atlas_index) < usize::MAX,
    ensures
        !timer_just_finished ==> *final(controller) == *old(controller) && *final(atlas_index)
            == *old(atlas_index),
        timer_just_finished && *old(atlas_index) != old(controller).atlas_last_frame
            ==> *final(atlas_index) == *old(atlas_index) + 1 && *final(controller) == *old(controller),
        timer_just_finished && *old(atlas_index) == old(controller).atlas_last_frame
            && old(controller).repeating ==> *final(atlas_index) == old(controller).atlas_first_frame
            && *final(controller) == *old(controller),
        timer_just_finished && *old(atlas_index) == old(controller).atlas_last_frame
            && !old(controller).repeating ==> *final(atlas_index) == old(controller).atlas_last_frame
            && *final(controller) == (AnimationController { has_finished: true, ..*old(controller) }),
{
    if timer_just_finished {
        *atlas_index = if *atlas_index == controller.atlas_last_frame {
            if controller.repeating {
                controller.atlas_first_frame
            } else {
                controller.has_finished = true;
                controller.atlas_last_frame
            }
        } else {
            *atlas_index + 1
        };
    }
}

} // verus!
