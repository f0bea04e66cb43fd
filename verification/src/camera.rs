//! The camera: the map cell that the window's first slot shows.

use vstd::prelude::*;

verus! {

/// A camera position, in tiles, counted from the map's top-left cell.
#[derive(Clone, Copy, Debug, PartialEq, Eq, Structural)]
pub struct Camera {
    pub x: u32,
    pub y: u32,
}

/// One coordinate after a step of `delta` along an axis of `extent` cells:
/// the sum, brought back into `[0, extent - 1]`.
pub open spec fn clamp_axis(pos: int, delta: int, extent: int) -> int {
    let target = pos + delta;
    if target < 0 {
        0
    } else if target > extent - 1 {
        extent - 1
    } else {
        target
    }
}

/// The position after a move request: unchanged for the zero step, else
/// clamped to the map on both axes.
pub open spec fn moved(pos: (int, int), dx: int, dy: int, width: int, height: int) -> (int, int) {
    if dx == 0 && dy == 0 {
        pos
    } else {
        (clamp_axis(pos.0, dx, width), clamp_axis(pos.1, dy, height))
    }
}

/// The position after a run of move requests, taken in order.
pub open spec fn moved_along(
    pos: (int, int),
    steps: Seq<(int, int)>,
    width: int,
    height: int,
) -> (int, int)
    decreases steps.len(),
{
    if steps.len() == 0 {
        pos
    } else {
        let before = moved_along(pos, steps.drop_last(), width, height);
        moved(before, steps.last().0, steps.last().1, width, height)
    }
}

/// Whether a position is a cell of a map of the given extent.
pub open spec fn on_map(pos: (int, int), width: int, height: int) -> bool {
    0 <= pos.0 < width && 0 <= pos.1 < height
}

impl Camera {
    /// The camera's position as a pair of integers.
    pub open spec fn pos(self) -> (int, int) {
        (self.x as int, self.y as int)
    }

    /// A camera at the map's top-left cell.
    pub fn new() -> (camera: Camera)
        ensures
            camera.pos() == (0int, 0int),
    {
        Camera { x: 0, y: 0 }
    }

    /// The current position.
    pub fn position(&self) -> (p: (u32, u32))
        ensures
            p.0 == self.x,
            p.1 == self.y,
    {
        (self.x, self.y)
    }

    /// Moves by `(dx, dy)` tiles and clamps the result to a map of
    /// `map_width` by `map_height` cells. The zero step changes nothing.
    /// Returns whether a step was asked for, that is, whether what the
    /// window shows has to be bound anew.
    pub fn move_by(&mut self, dx: i32, dy: i32, map_width: u32, map_height: u32) -> (stepped: bool)
        requires
            map_width > 0,
            map_height > 0,
        ensures
            stepped == (dx != 0 || dy != 0),
            final(self).pos() == moved(
                old(self).pos(),
                dx as int,
                dy as int,
                map_width as int,
                map_height as int,
            ),
            stepped ==> on_map(final(self).pos(), map_width as int, map_height as int),
    {
        if dx == 0 && dy == 0 {
            return false;
        }
        self.x = step_axis(self.x, dx, map_width);
        self.y = step_axis(self.y, dy, map_height);
        true
    }
}

/// One coordinate after a clamped step.
fn step_axis(pos: u32, delta: i32, extent: u32) -> (r: u32)
    requires
        extent > 0,
    ensures
        r == clamp_axis(pos as int, delta as int, extent as int),
{
    let target: i64 = pos as i64 + delta as i64;
    if target < 0 {
        0
    } else if target > extent as i64 - 1 {
        extent - 1
    } else {
        target as u32
    }
}

/// A step that the map does not clamp is undone by the opposite step.
pub proof fn lemma_round_trip(pos: (int, int), dx: int, dy: int, width: int, height: int)
    requires
        on_map(pos, width, height),
        on_map((pos.0 + dx, pos.1 + dy), width, height),
    ensures
        moved(moved(pos, dx, dy, width, height), -dx, -dy, width, height) == pos,
{
}

/// A clamped step always lands on the map, however far it reaches.
pub proof fn lemma_step_lands_on_map(pos: (int, int), dx: int, dy: int, width: int, height: int)
    requires
        width > 0,
        height > 0,
        dx != 0 || dy != 0,
    ensures
        on_map(moved(pos, dx, dy, width, height), width, height),
{
}

/// A camera that starts on the map stays on it through any run of steps.
pub proof fn lemma_moves_stay_on_map(
    pos: (int, int),
    steps: Seq<(int, int)>,
    width: int,
    height: int,
)
    requires
        on_map(pos, width, height),
    ensures
        on_map(moved_along(pos, steps, width, height), width, height),
    decreases steps.len(),
{
    if steps.len() > 0 {
        lemma_moves_stay_on_map(pos, steps.drop_last(), width, height);
    }
}

} // verus!
