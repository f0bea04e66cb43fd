//! The viewport window: a fixed grid of slots, one per screen cell and
//! layer, each bound to the map cell that the camera puts under it.

use crate::camera::Camera;
use crate::tilemap::{TileGrid, TileMapData};
use vstd::prelude::*;

verus! {

/// The edge of a square tile, in screen units.
pub const TILE_SIZE: u32 = 16;

/// Why a window could not be laid out.
#[derive(Clone, Copy, Debug, PartialEq, Eq, Structural)]
pub enum ViewportError {
    /// The window asks for more slots than can be counted.
    TooManySlots,
}

/// One rendering unit of the window. The screen cell and the layer are
/// its identity and never change; visibility and image index are its
/// content.
#[derive(Clone, Copy, Debug, PartialEq, Eq, Structural)]
pub struct Slot {
    pub screen_col: u32,
    pub screen_row: u32,
    pub layer: usize,
    pub visible: bool,
    pub image_index: u32,
}

/// The image that the slot at `(col, row)` of `layer` shows when the
/// camera is at `cam`: that of the tile under it, or none where the cell is
/// empty or lies outside the grid.
pub open spec fn shown_image(grid: TileGrid, cam: (int, int), col: int, row: int, layer: int)
    -> Option<u32> {
    let x = cam.0 + col;
    let y = cam.1 + row;
    if grid.in_bounds(layer, x, y) && grid.tile(layer, x, y) != 0 {
        Some((grid.tile(layer, x, y) - 1) as u32)
    } else {
        None
    }
}

/// A slot after it has been bound to the grid under a camera: visible with
/// the tile's image, or hidden with the image it had.
pub open spec fn rebound(slot: Slot, grid: TileGrid, cam: (int, int)) -> Slot {
    match shown_image(grid, cam, slot.screen_col as int, slot.screen_row as int, slot.layer as int) {
        Some(image) => Slot { visible: true, image_index: image, ..slot },
        None => Slot { visible: false, ..slot },
    }
}

/// The slot that a new window holds for a screen cell and a layer.
pub open spec fn fresh_slot(grid: TileGrid, cam: (int, int), col: u32, row: u32, layer: usize)
    -> Slot {
    rebound(
        Slot { screen_col: col, screen_row: row, layer, visible: false, image_index: 0 },
        grid,
        cam,
    )
}

/// Where the slot of a screen cell and a layer stands in the window: layer
/// by layer, column by column, row by row.
pub open spec fn slot_index(width: int, height: int, col: int, row: int, layer: int) -> int {
    (layer * width + col) * height + row
}

/// The number of slots of a window.
pub open spec fn slot_total(width: int, height: int, layer_count: int) -> int {
    (layer_count * width) * height
}

impl Slot {
    /// Whether the slot's content agrees with the grid under the camera.
    pub open spec fn shows(self, grid: TileGrid, cam: (int, int)) -> bool {
        let shown = shown_image(
            grid,
            cam,
            self.screen_col as int,
            self.screen_row as int,
            self.layer as int,
        );
        &&& self.visible == shown.is_some()
        &&& self.visible ==> shown == Some(self.image_index)
    }

    /// Whether the slot is drawn with transparency: every layer above the
    /// base layer is.
    pub fn is_transparent(&self) -> (t: bool)
        ensures
            t == (self.layer != 0),
    {
        self.layer != 0
    }

    /// The slot's screen offset in units of `TILE_SIZE`-wide tiles: to the
    /// right by its column, downwards (negative) by its row, and as deep as
    /// its layer.
    pub fn screen_offset(&self) -> (offset: (i64, i64, usize))
        ensures
            offset.0 == self.screen_col * TILE_SIZE,
            offset.1 == -(self.screen_row * TILE_SIZE),
            offset.2 == self.layer,
    {
        let right: i64 = self.screen_col as i64 * TILE_SIZE as i64;
        let down: i64 = self.screen_row as i64 * TILE_SIZE as i64;
        (right, -down, self.layer)
    }
}

/// Binds a slot to the map cell that the camera puts under it.
pub fn bind(slot: Slot, map: &TileMapData, camera: Camera) -> (bound: Slot)
    requires
        map.wf(),
    ensures
        bound == rebound(slot, map@, camera.pos()),
        bound.shows(map@, camera.pos()),
{
    let x: u64 = camera.x as u64 + slot.screen_col as u64;
    let y: u64 = camera.y as u64 + slot.screen_row as u64;
    if x < map.width() as u64 && y < map.height() as u64 {
        match map.tile_at(slot.layer, x as u32, y as u32) {
            Ok(value) => {
                if value != 0 {
                    Slot { visible: true, image_index: value - 1, ..slot }
                } else {
                    Slot { visible: false, ..slot }
                }
            },
            Err(_) => Slot { visible: false, ..slot },
        }
    } else {
        Slot { visible: false, ..slot }
    }
}

/// The mathematical model of a window.
pub struct WindowView {
    pub width: nat,
    pub height: nat,
    pub layer_count: nat,
    pub slots: Seq<Slot>,
}

impl WindowView {
    /// Whether `slot` is the slot that stands at `index`: its identity
    /// lies in the window and leads to that index.
    pub open spec fn placed(self, slot: Slot, index: int) -> bool {
        &&& slot.screen_col < self.width
        &&& slot.screen_row < self.height
        &&& slot.layer < self.layer_count
        &&& slot_index(
            self.width as int,
            self.height as int,
            slot.screen_col as int,
            slot.screen_row as int,
            slot.layer as int,
        ) == index
    }

    /// There is one slot for every screen cell and layer, each at its index.
    pub open spec fn wf(self) -> bool {
        &&& self.slots.len() == slot_total(
            self.width as int,
            self.height as int,
            self.layer_count as int,
        )
        &&& forall|i: int| 0 <= i < self.slots.len() ==> self.placed(#[trigger] self.slots[i], i)
    }

    /// Whether a screen cell and a layer belong to the window.
    pub open spec fn holds(self, col: int, row: int, layer: int) -> bool {
        0 <= col < self.width && 0 <= row < self.height && 0 <= layer < self.layer_count
    }

    /// The slot of a screen cell and a layer.
    pub open spec fn slot(self, col: int, row: int, layer: int) -> Slot
        recommends
            self.wf(),
            self.holds(col, row, layer),
    {
        self.slots[slot_index(self.width as int, self.height as int, col, row, layer)]
    }

    /// Whether every slot agrees with the grid under the camera.
    pub open spec fn shows(self, grid: TileGrid, cam: (int, int)) -> bool {
        forall|i: int| 0 <= i < self.slots.len() ==> (#[trigger] self.slots[i]).shows(grid, cam)
    }

    /// The window once every slot has been bound anew to the grid under
    /// the camera.
    pub open spec fn rebound_all(self, grid: TileGrid, cam: (int, int)) -> WindowView {
        WindowView {
            slots: Seq::new(self.slots.len(), |i: int| rebound(self.slots[i], grid, cam)),
            ..self
        }
    }
}

/// Binding every slot anew keeps a window well formed and makes it show
/// what lies under the camera.
pub proof fn lemma_rebound_all_shows(window: WindowView, grid: TileGrid, cam: (int, int))
    requires
        window.wf(),
    ensures
        window.rebound_all(grid, cam).wf(),
        window.rebound_all(grid, cam).shows(grid, cam),
{
    let after = window.rebound_all(grid, cam);
}

/// The screen cell and the layer of the slot that stands at `index`, as
/// `(col, row, layer)`.
pub open spec fn slot_cell(width: int, height: int, index: int) -> (int, int, int) {
    ((index / height) % width, index % height, (index / height) / width)
}

/// The window that is laid out over `layer_count` layers of the grid with
/// the camera at `cam`: one new slot for every screen cell and layer.
pub open spec fn laid_out(
    grid: TileGrid,
    cam: (int, int),
    width: nat,
    height: nat,
    layer_count: nat,
) -> WindowView {
    WindowView {
        width,
        height,
        layer_count,
        slots: Seq::new(
            slot_total(width as int, height as int, layer_count as int) as nat,
            |i: int|
                {
                    let cell = slot_cell(width as int, height as int, i);
                    fresh_slot(grid, cam, cell.0 as u32, cell.1 as u32, cell.2 as usize)
                },
        ),
    }
}

/// The slot that stands at the index of a screen cell and a layer is the
/// slot of that cell and layer.
pub proof fn lemma_slot_cell(width: int, height: int, col: int, row: int, layer: int)
    requires
        0 <= col < width,
        0 <= row < height,
    ensures
        slot_cell(width, height, slot_index(width, height, col, row, layer)) == (col, row, layer),
{
    let strip = layer * width + col;
    let index = slot_index(width, height, col, row, layer);
    vstd::arithmetic::div_mod::lemma_fundamental_div_mod_converse(index, height, strip, row);
    vstd::arithmetic::div_mod::lemma_fundamental_div_mod_converse(strip, width, layer, col);
}

/// The index of a slot of the window lies below the number of slots.
pub proof fn lemma_slot_index_in_range(
    width: int,
    height: int,
    layer_count: int,
    col: int,
    row: int,
    layer: int,
)
    requires
        0 <= col < width,
        0 <= row < height,
        0 <= layer < layer_count,
    ensures
        0 <= slot_index(width, height, col, row, layer) < slot_total(width, height, layer_count),
{
    let strip = layer * width + col;
    assert(0 <= layer * width) by (nonlinear_arith)
        requires
            0 <= layer,
            0 < width,
    ;
    assert(layer * width + width <= layer_count * width) by (nonlinear_arith)
        requires
            layer + 1 <= layer_count,
            0 < width,
    ;
    assert(0 <= strip * height) by (nonlinear_arith)
        requires
            0 <= strip,
            0 < height,
    ;
    assert(strip * height + height <= (layer_count * width) * height) by (nonlinear_arith)
        requires
            strip + 1 <= layer_count * width,
            0 < height,
    ;
}

/// Two slots of the window with the same index are the same slot.
pub proof fn lemma_slot_index_unique(
    width: int,
    height: int,
    col_a: int,
    row_a: int,
    layer_a: int,
    col_b: int,
    row_b: int,
    layer_b: int,
)
    requires
        0 <= col_a < width,
        0 <= row_a < height,
        0 <= col_b < width,
        0 <= row_b < height,
        slot_index(width, height, col_a, row_a, layer_a) == slot_index(
            width,
            height,
            col_b,
            row_b,
            layer_b,
        ),
    ensures
        col_a == col_b,
        row_a == row_b,
        layer_a == layer_b,
{
    let strip_a = layer_a * width + col_a;
    let strip_b = layer_b * width + col_b;
    let index = slot_index(width, height, col_a, row_a, layer_a);
    vstd::arithmetic::div_mod::lemma_fundamental_div_mod_converse(index, height, strip_a, row_a);
    vstd::arithmetic::div_mod::lemma_fundamental_div_mod_converse(index, height, strip_b, row_b);
    vstd::arithmetic::div_mod::lemma_fundamental_div_mod_converse(strip_a, width, layer_a, col_a);
    vstd::arithmetic::div_mod::lemma_fundamental_div_mod_converse(strip_a, width, layer_b, col_b);
}

/// In a well-formed window the slot found for a screen cell and a layer
/// is the one with that identity.
pub proof fn lemma_slot_identity(window: WindowView, col: int, row: int, layer: int)
    requires
        window.wf(),
        window.holds(col, row, layer),
    ensures
        0 <= slot_index(window.width as int, window.height as int, col, row, layer)
            < window.slots.len(),
        window.slot(col, row, layer).screen_col == col,
        window.slot(col, row, layer).screen_row == row,
        window.slot(col, row, layer).layer == layer,
{
    let w = window.width as int;
    let h = window.height as int;
    lemma_slot_index_in_range(w, h, window.layer_count as int, col, row, layer);
    let index = slot_index(w, h, col, row, layer);
    let found = window.slots[index];
    lemma_slot_index_unique(
        w,
        h,
        found.screen_col as int,
        found.screen_row as int,
        found.layer as int,
        col,
        row,
        layer,
    );
}

/// Once every slot agrees with the grid under the camera, a slot of the
/// window whose layer is a layer of the grid is hidden exactly when the
/// cell under it is empty or lies outside the map.
pub proof fn lemma_hidden_iff_empty_or_outside(
    window: WindowView,
    grid: TileGrid,
    cam: (int, int),
    col: int,
    row: int,
    layer: int,
)
    requires
        window.wf(),
        window.shows(grid, cam),
        window.holds(col, row, layer),
        layer < grid.layers.len(),
    ensures
        !window.slot(col, row, layer).visible <==> (!grid.cell_in_bounds(cam.0 + col, cam.1 + row)
            || grid.tile(layer, cam.0 + col, cam.1 + row) == 0),
        window.slot(col, row, layer).visible ==> window.slot(col, row, layer).image_index
            == grid.tile(layer, cam.0 + col, cam.1 + row) - 1,
{
    lemma_slot_identity(window, col, row, layer);
}

/// The window: `width` by `height` screen cells over `layer_count` layers.
#[derive(Debug)]
pub struct ViewportWindow {
    width: u32,
    height: u32,
    layer_count: usize,
    slots: Vec<Slot>,
}

impl View for ViewportWindow {
    type V = WindowView;

    closed spec fn view(&self) -> WindowView {
        WindowView {
            width: self.width as nat,
            height: self.height as nat,
            layer_count: self.layer_count as nat,
            slots: self.slots@,
        }
    }
}

impl ViewportWindow {
    /// The invariant of every window that `new` hands out.
    pub open spec fn wf(&self) -> bool {
        self@.wf()
    }

    /// Lays out a window of `width` by `height` screen cells over every
    /// layer of `map` and binds each slot to the cell under it. Fails when
    /// the number of slots does not fit the machine's word.
    pub fn new(map: &TileMapData, camera: Camera, width: u32, height: u32) -> (r: Result<
        ViewportWindow,
        ViewportError,
    >)
        requires
            map.wf(),
        ensures
            r.is_ok() <==> slot_total(width as int, height as int, map@.layers.len() as int)
                <= usize::MAX,
            r matches Ok(window) ==> {
                &&& window.wf()
                &&& window@ == laid_out(
                    map@,
                    camera.pos(),
                    width as nat,
                    height as nat,
                    map@.layers.len(),
                )
                &&& window@.shows(map@, camera.pos())
            },
            r matches Err(e) ==> e == ViewportError::TooManySlots,
    {
        let layer_count = map.layer_count();
        let ghost w = width as int;
        let ghost h = height as int;
        let ghost grid = map@;
        let ghost cam = camera.pos();
        if width == 0 || height == 0 {
            let window = ViewportWindow { width, height, layer_count, slots: Vec::new() };
            proof {
                lemma_total_of_nothing(w, h, layer_count as int);
                assert(window@.slots =~= laid_out(
                    grid,
                    cam,
                    width as nat,
                    height as nat,
                    layer_count as nat,
                ).slots);
            }
            return Ok(window);
        }
        match (layer_count as u64).checked_mul(width as u64) {
            None => {
                proof {
                    lemma_total_grows(w, h, layer_count as int);
                }
                return Err(ViewportError::TooManySlots);
            },
            Some(strips) => match strips.checked_mul(height as u64) {
                None => {
                    return Err(ViewportError::TooManySlots);
                },
                Some(total) => {
                    if total > usize::MAX as u64 {
                        return Err(ViewportError::TooManySlots);
                    }
                },
            },
        }
        proof {
            lemma_first_index(w, h);
        }
        let mut slots: Vec<Slot> = Vec::new();
        let mut layer: usize = 0;
        while layer < layer_count
            invariant
                map.wf(),
                grid == map@,
                cam == camera.pos(),
                w == width,
                h == height,
                layer <= layer_count,
                slots.len() == slot_index(w, h, 0, 0, layer as int),
                forall|i: int|
                    0 <= i < slots.len() ==> filled(
                        #[trigger] slots[i],
                        i,
                        w,
                        h,
                        layer_count as int,
                        grid,
                        cam,
                    ),
            decreases layer_count - layer,
        {
            let mut col: u32 = 0;
            while col < width
                invariant
                    map.wf(),
                    grid == map@,
                    cam == camera.pos(),
                    w == width,
                    h == height,
                    layer < layer_count,
                    col <= width,
                    slots.len() == slot_index(w, h, col as int, 0, layer as int),
                    forall|i: int|
                        0 <= i < slots.len() ==> filled(
                            #[trigger] slots[i],
                            i,
                            w,
                            h,
                            layer_count as int,
                            grid,
                            cam,
                        ),
                decreases width - col,
            {
                let mut row: u32 = 0;
                while row < height
                    invariant
                        map.wf(),
                        grid == map@,
                        cam == camera.pos(),
                        w == width,
                        h == height,
                        layer < layer_count,
                        col < width,
                        row <= height,
                        slots.len() == slot_index(w, h, col as int, row as int, layer as int),
                        forall|i: int|
                            0 <= i < slots.len() ==> filled(
                                #[trigger] slots[i],
                                i,
                                w,
                                h,
                                layer_count as int,
                                grid,
                                cam,
                            ),
                    decreases height - row,
                {
                    let blank = Slot {
                        screen_col: col,
                        screen_row: row,
                        layer,
                        visible: false,
                        image_index: 0,
                    };
                    slots.push(bind(blank, map, camera));
                    row += 1;
                }
                proof {
                    lemma_next_strip(w, h, col as int, layer as int);
                }
                col += 1;
            }
            proof {
                lemma_next_layer(w, h, layer as int);
            }
            layer += 1;
        }
        let window = ViewportWindow { width, height, layer_count, slots };
        proof {
            let plan = laid_out(grid, cam, width as nat, height as nat, layer_count as nat);
            assert forall|i: int| 0 <= i < window@.slots.len() implies #[trigger] window@.slots[i]
                == plan.slots[i] by {
                let slot = window.slots[i];
                lemma_slot_cell(
                    w,
                    h,
                    slot.screen_col as int,
                    slot.screen_row as int,
                    slot.layer as int,
                );
            }
            assert(window@.slots =~= plan.slots);
        }
        Ok(window)
    }

    /// Binds every slot anew to the cell that the camera now puts under it.
    /// A slot over an empty cell, outside the map or above the map's last
    /// layer is hidden and keeps its image; no slot changes its identity.
    pub fn refresh(&mut self, map: &TileMapData, camera: Camera)
        requires
            old(self).wf(),
            map.wf(),
        ensures
            final(self).wf(),
            final(self)@ == old(self)@.rebound_all(map@, camera.pos()),
            final(self)@.shows(map@, camera.pos()),
    {
        let count = self.slots.len();
        let mut i: usize = 0;
        while i < count
            invariant
                map.wf(),
                i <= count,
                count == self.slots.len(),
                self.slots.len() == old(self).slots.len(),
                self.width == old(self).width,
                self.height == old(self).height,
                self.layer_count == old(self).layer_count,
                forall|k: int|
                    0 <= k < i ==> #[trigger] self.slots[k] == rebound(
                        old(self).slots[k],
                        map@,
                        camera.pos(),
                    ),
                forall|k: int| i <= k < count ==> #[trigger] self.slots[k] == old(self).slots[k],
            decreases count - i,
        {
            let bound = bind(self.slots[i], map, camera);
            self.slots.set(i, bound);
            i += 1;
        }
        proof {
            assert(self@.slots =~= old(self)@.rebound_all(map@, camera.pos()).slots);
        }
    }

    /// The number of screen columns.
    pub fn width(&self) -> (w: u32)
        ensures
            w == self@.width,
    {
        self.width
    }

    /// The number of screen rows.
    pub fn height(&self) -> (h: u32)
        ensures
            h == self@.height,
    {
        self.height
    }

    /// The number of layers that the window was laid out for.
    pub fn layer_count(&self) -> (n: usize)
        ensures
            n == self@.layer_count,
    {
        self.layer_count
    }

    /// The number of slots.
    pub fn slot_count(&self) -> (n: usize)
        ensures
            n == self@.slots.len(),
    {
        self.slots.len()
    }

    /// All slots, layer by layer, column by column, row by row.
    pub fn slots(&self) -> (all: &Vec<Slot>)
        ensures
            all@ == self@.slots,
    {
        &self.slots
    }

    /// The slot of screen cell `(col, row)` on `layer`, if the window has it.
    pub fn slot(&self, col: u32, row: u32, layer: usize) -> (found: Option<Slot>)
        requires
            self.wf(),
        ensures
            found.is_some() <==> self@.holds(col as int, row as int, layer as int),
            found matches Some(slot) ==> {
                &&& slot == self@.slot(col as int, row as int, layer as int)
                &&& slot.screen_col == col
                &&& slot.screen_row == row
                &&& slot.layer == layer
            },
    {
        if col >= self.width || row >= self.height || layer >= self.layer_count {
            return None;
        }
        proof {
            assert(self@.slots.len() == self.slots.len() <= usize::MAX);
            lemma_slot_identity(self@, col as int, row as int, layer as int);
            lemma_index_steps(
                self.width as int,
                self.height as int,
                col as int,
                row as int,
                layer as int,
            );
        }
        let strip: usize = layer * (self.width as usize) + col as usize;
        let index: usize = strip * (self.height as usize) + row as usize;
        Some(self.slots[index])
    }
}

/// What `new` has established of the slot at `index` once it is pushed.
spec fn filled(
    slot: Slot,
    index: int,
    width: int,
    height: int,
    layer_count: int,
    grid: TileGrid,
    cam: (int, int),
) -> bool {
    &&& slot.screen_col < width
    &&& slot.screen_row < height
    &&& slot.layer < layer_count
    &&& slot_index(width, height, slot.screen_col as int, slot.screen_row as int, slot.layer as int)
        == index
    &&& slot == fresh_slot(grid, cam, slot.screen_col, slot.screen_row, slot.layer)
    &&& slot.shows(grid, cam)
}

/// After the last row of a column comes the first row of the next column.
proof fn lemma_next_strip(width: int, height: int, col: int, layer: int)
    ensures
        slot_index(width, height, col, height, layer) == slot_index(
            width,
            height,
            col + 1,
            0,
            layer,
        ),
{
    assert((layer * width + col) * height + height == (layer * width + (col + 1)) * height)
        by (nonlinear_arith);
}

/// After the last column of a layer comes the first column of the next layer.
proof fn lemma_next_layer(width: int, height: int, layer: int)
    ensures
        slot_index(width, height, width, 0, layer) == slot_index(width, height, 0, 0, layer + 1),
{
    assert(layer * width + width == (layer + 1) * width) by (nonlinear_arith);
}

/// A count of strips that passes a bound stays past it when each strip
/// has at least one row.
proof fn lemma_total_grows(width: int, height: int, layer_count: int)
    requires
        0 < height,
        layer_count * width > u64::MAX,
    ensures
        slot_total(width, height, layer_count) > u64::MAX,
{
    assert((layer_count * width) * height >= layer_count * width) by (nonlinear_arith)
        requires
            height >= 1,
            layer_count * width >= 0,
    ;
}

/// A window without columns or without rows has no slots.
proof fn lemma_total_of_nothing(width: int, height: int, layer_count: int)
    requires
        width == 0 || height == 0,
    ensures
        slot_total(width, height, layer_count) == 0,
{
    assert((layer_count * width) * height == 0) by (nonlinear_arith)
        requires
            width == 0 || height == 0,
    ;
}

/// Every partial sum on the way to a slot's index is bounded by the index.
proof fn lemma_index_steps(width: int, height: int, col: int, row: int, layer: int)
    requires
        0 <= col < width,
        0 <= row < height,
        0 <= layer,
    ensures
        0 <= layer * width <= layer * width + col <= (layer * width + col) * height
            <= slot_index(width, height, col, row, layer),
{
    assert(0 <= layer * width) by (nonlinear_arith)
        requires
            0 <= layer,
            0 <= width,
    ;
    assert(layer * width + col <= (layer * width + col) * height) by (nonlinear_arith)
        requires
            0 <= layer * width + col,
            1 <= height,
    ;
}

/// The first slot of the first layer stands at index zero.
proof fn lemma_first_index(width: int, height: int)
    ensures
        slot_index(width, height, 0, 0, 0) == 0,
{
    assert((0 * width + 0) * height + 0 == 0) by (nonlinear_arith);
}

} // verus!
