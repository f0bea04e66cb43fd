//! The per-frame update: the held keys become one step of the camera, and
//! a step of the camera binds the window anew.

use crate::camera::{moved, on_map, Camera};
use crate::input::{resolve, resolved_delta, DirectionKeys};
use crate::tilemap::{TileGrid, TileMapData};
use crate::viewport::{laid_out, slot_total, ViewportError, ViewportWindow, WindowView};
use vstd::prelude::*;

verus! {

/// The mathematical model of a game: where the camera is, the grid it
/// moves over, and what the window shows.
pub struct GameView {
    pub camera: (int, int),
    pub grid: TileGrid,
    pub window: WindowView,
}

impl GameView {
    /// The camera is on the map and the window shows what lies under it.
    pub open spec fn wf(self) -> bool {
        &&& self.grid.wf()
        &&& self.window.wf()
        &&& on_map(self.camera, self.grid.width as int, self.grid.height as int)
        &&& self.window.shows(self.grid, self.camera)
    }

    /// The game after a move request: nothing changes for the zero step;
    /// any other step moves the camera, clamped to the map, and binds
    /// every slot of the window anew.
    pub open spec fn moved_by(self, dx: int, dy: int) -> GameView {
        if dx == 0 && dy == 0 {
            self
        } else {
            let camera = moved(
                self.camera,
                dx,
                dy,
                self.grid.width as int,
                self.grid.height as int,
            );
            GameView { camera, window: self.window.rebound_all(self.grid, camera), ..self }
        }
    }

    /// The game after one tick with the given keys held.
    pub open spec fn after(self, keys: DirectionKeys) -> GameView {
        match resolved_delta(keys) {
            Some(step) => self.moved_by(step.0, step.1),
            None => self,
        }
    }

    /// The game after a run of ticks, one for each key state in order.
    pub open spec fn after_all(self, inputs: Seq<DirectionKeys>) -> GameView
        decreases inputs.len(),
    {
        if inputs.len() == 0 {
            self
        } else {
            self.after_all(inputs.drop_last()).after(inputs.last())
        }
    }
}

/// The game as it starts: the camera at the map's top-left cell, under a
/// new window over all layers of the grid.
pub open spec fn started(grid: TileGrid, window_width: nat, window_height: nat) -> GameView {
    GameView {
        camera: (0, 0),
        grid,
        window: laid_out(grid, (0, 0), window_width, window_height, grid.layers.len()),
    }
}

/// The state that one frame reads and the next one writes.
#[derive(Debug)]
pub struct GameState {
    camera: Camera,
    world_map: TileMapData,
    window: ViewportWindow,
}

impl View for GameState {
    type V = GameView;

    closed spec fn view(&self) -> GameView {
        GameView { camera: self.camera.pos(), grid: self.world_map@, window: self.window@ }
    }
}

impl GameState {
    /// The invariant of every state that `new` hands out.
    pub closed spec fn wf(&self) -> bool {
        &&& self.world_map.wf()
        &&& self.window.wf()
        &&& self@.wf()
    }

    /// What `wf` says of the model.
    pub proof fn lemma_wf_view(&self)
        requires
            self.wf(),
        ensures
            self@.wf(),
    {
    }

    /// Starts a game on `world_map` with a window of `window_width` by
    /// `window_height` screen cells. Fails when the window cannot be laid
    /// out.
    pub fn new(world_map: TileMapData, window_width: u32, window_height: u32) -> (r: Result<
        GameState,
        ViewportError,
    >)
        requires
            world_map.wf(),
        ensures
            r.is_ok() <==> slot_total(
                window_width as int,
                window_height as int,
                world_map@.layers.len() as int,
            ) <= usize::MAX,
            r matches Ok(state) ==> state.wf() && state@ == started(
                world_map@,
                window_width as nat,
                window_height as nat,
            ),
            r matches Err(e) ==> e == ViewportError::TooManySlots,
    {
        let camera = Camera::new();
        match ViewportWindow::new(&world_map, camera, window_width, window_height) {
            Ok(window) => Ok(GameState { camera, world_map, window }),
            Err(e) => Err(e),
        }
    }

    /// Where the camera is.
    pub fn camera(&self) -> (camera: Camera)
        ensures
            camera.pos() == self@.camera,
    {
        self.camera
    }

    /// The grid that the camera moves over.
    pub fn world_map(&self) -> (map: &TileMapData)
        requires
            self.wf(),
        ensures
            map@ == self@.grid,
            map.wf(),
    {
        &self.world_map
    }

    /// The window and what it shows.
    pub fn window(&self) -> (window: &ViewportWindow)
        requires
            self.wf(),
        ensures
            window@ == self@.window,
            window.wf(),
    {
        &self.window
    }

    /// Moves the camera by `(dx, dy)` tiles, clamped to the map, and binds
    /// the window anew. The zero step changes nothing. Returns whether the
    /// window was bound anew.
    pub fn move_camera(&mut self, dx: i32, dy: i32) -> (refreshed: bool)
        requires
            old(self).wf(),
        ensures
            final(self).wf(),
            final(self)@ == old(self)@.moved_by(dx as int, dy as int),
            refreshed == (dx != 0 || dy != 0),
    {
        let width = self.world_map.width();
        let height = self.world_map.height();
        let stepped = self.camera.move_by(dx, dy, width, height);
        if stepped {
            self.window.refresh(&self.world_map, self.camera);
        }
        stepped
    }

    /// One tick of the frame loop: resolves the held keys to at most one
    /// step and moves the camera by it. Returns whether the window was
    /// bound anew.
    pub fn step(&mut self, keys: DirectionKeys) -> (refreshed: bool)
        requires
            old(self).wf(),
        ensures
            final(self).wf(),
            final(self)@ == old(self)@.after(keys),
            refreshed == resolved_delta(keys).is_some(),
    {
        match resolve(keys) {
            Some(delta) => self.move_camera(delta.0, delta.1),
            None => false,
        }
    }
}

/// Two loads of the same map data, played with the same window through
/// the same run of key states, show the same slots from the same camera
/// position.
pub proof fn lemma_replay_shows_same_slots(
    first: TileGrid,
    second: TileGrid,
    window_width: nat,
    window_height: nat,
    inputs: Seq<DirectionKeys>,
)
    requires
        first.width == second.width,
        first.height == second.height,
        first.layers.len() == second.layers.len(),
        forall|d: int|
            0 <= d < first.layers.len() ==> (#[trigger] first.layers[d]) =~= second.layers[d],
    ensures
        started(first, window_width, window_height).after_all(inputs).window.slots == started(
            second,
            window_width,
            window_height,
        ).after_all(inputs).window.slots,
        started(first, window_width, window_height).after_all(inputs).camera == started(
            second,
            window_width,
            window_height,
        ).after_all(inputs).camera,
{
    assert(first.layers =~= second.layers);
}

/// A game that is well formed stays so through every tick, whatever keys
/// are held: the camera stays on the map and the window keeps showing
/// what lies under it.
pub proof fn lemma_ticks_keep_game_wf(game: GameView, inputs: Seq<DirectionKeys>)
    requires
        game.wf(),
    ensures
        game.after_all(inputs).wf(),
        game.after_all(inputs).grid == game.grid,
    decreases inputs.len(),
{
    if inputs.len() > 0 {
        lemma_ticks_keep_game_wf(game, inputs.drop_last());
        let before = game.after_all(inputs.drop_last());
        let keys = inputs.last();
        match resolved_delta(keys) {
            Some(step) => {
                lemma_move_keeps_game_wf(before, step.0, step.1);
            },
            None => {},
        }
    }
}

/// A well-formed game stays so through a move request.
pub proof fn lemma_move_keeps_game_wf(game: GameView, dx: int, dy: int)
    requires
        game.wf(),
    ensures
        game.moved_by(dx, dy).wf(),
        game.moved_by(dx, dy).grid == game.grid,
{
    if dx != 0 || dy != 0 {
        let after = game.moved_by(dx, dy);
        crate::viewport::lemma_rebound_all_shows(game.window, game.grid, after.camera);
    }
}

} // verus!
