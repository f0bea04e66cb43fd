//! Directional input: from the four held-key flags to at most one step.

use vstd::prelude::*;

verus! {

/// Which of the four direction keys are held during one tick.
#[derive(Clone, Copy, Debug, PartialEq, Eq, Structural)]
pub struct DirectionKeys {
    pub left: bool,
    pub up: bool,
    pub down: bool,
    pub right: bool,
}

/// The step that a key state asks for: the first held direction in the
/// order left, up, down, right, as a `(dx, dy)` pair with rows growing
/// downwards; nothing when no key is held.
pub open spec fn resolved_delta(keys: DirectionKeys) -> Option<(int, int)> {
    if keys.left {
        Some((-1int, 0int))
    } else if keys.up {
        Some((0int, -1int))
    } else if keys.down {
        Some((0int, 1int))
    } else if keys.right {
        Some((1int, 0int))
    } else {
        None
    }
}

/// Resolves the held keys to at most one single-tile step.
pub fn resolve(keys: DirectionKeys) -> (delta: Option<(i32, i32)>)
    ensures
        delta.is_some() == resolved_delta(keys).is_some(),
        delta matches Some(d) ==> resolved_delta(keys) == Some((d.0 as int, d.1 as int)),
{
    if keys.left {
        Some((-1, 0))
    } else if keys.up {
        Some((0, -1))
    } else if keys.down {
        Some((0, 1))
    } else if keys.right {
        Some((1, 0))
    } else {
        None
    }
}

/// While left is held, the step is the one to the left, whatever else is
/// held with it.
pub proof fn lemma_left_wins(keys: DirectionKeys)
    requires
        keys.left,
    ensures
        resolved_delta(keys) == Some((-1int, 0int)),
{
}

/// A step is asked for exactly when some key is held, and it is never
/// diagonal: it moves one tile along one axis.
pub proof fn lemma_single_axis_step(keys: DirectionKeys)
    ensures
        resolved_delta(keys).is_some() <==> (keys.left || keys.up || keys.down || keys.right),
        resolved_delta(keys) matches Some(step) ==> (step.0 == 0 && (step.1 == 1 || step.1 == -1))
            || (step.1 == 0 && (step.0 == 1 || step.0 == -1)),
{
}

} // verus!
