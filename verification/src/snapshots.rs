//! Which stored snapshot a viewer shows at a playback step.

use vstd::prelude::*;

verus! {

/// The distance between two steps.
pub open spec fn step_distance(a: usize, b: usize) -> int {
    if a >= b { a - b } else { b - a }
}

/// The snapshot nearest to the playback step `step`: the index of the
/// first saved step at the least distance from it, 0 when none was saved.
pub fn nearest_snapshot(saved_steps: &[usize], step: usize) -> (r: usize)
    ensures
        saved_steps@.len() == 0 ==> r == 0,
        saved_steps@.len() > 0 ==> r < saved_steps@.len(),
        forall|k: int| 0 <= k < saved_steps@.len()
            ==> step_distance(saved_steps@[r as int], step) <= step_distance(#[trigger] saved_steps@[k], step),
        forall|k: int| 0 <= k < r
            ==> step_distance(saved_steps@[r as int], step) < step_distance(#[trigger] saved_steps@[k], step),
{
    if saved_steps.len() == 0 {
        return 0;
    }
    let mut best: usize = 0;
    let mut best_d: usize = if saved_steps[0] >= step { saved_steps[0] - step } else { step - saved_steps[0] };
    let mut i: usize = 1;
    while i < saved_steps.len()
        invariant
            1 <= i <= saved_steps@.len(),
            best < i,
            best_d == step_distance(saved_steps@[best as int], step),
            forall|k: int| 0 <= k < i ==> best_d <= step_distance(#[trigger] saved_steps@[k], step),
            forall|k: int| 0 <= k < best ==> best_d < step_distance(#[trigger] saved_steps@[k], step),
        decreases saved_steps@.len() - i,
    {
        let s = saved_steps[i];
        let d = if s >= step { s - step } else { step - s };
        if d < best_d {
            best = i;
            best_d = d;
        }
        i = i + 1;
    }
    best
}

} // verus!
