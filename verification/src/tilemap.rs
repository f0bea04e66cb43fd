//! The tile grid: a fixed extent and an ordered stack of layers, each one a
//! row-major array of tile indices with `0` standing for "no tile".

use vstd::prelude::*;

verus! {

/// Why a tile grid could not be built or read.
#[derive(Clone, Copy, Debug, PartialEq, Eq, Structural)]
pub enum MapError {
    /// The width or the height is zero.
    EmptyExtent,
    /// A layer that is declared a tile layer carries no tile data.
    LayerDataAbsent,
    /// A layer does not hold exactly `width * height` tiles.
    LayerSizeMismatch,
    /// A layer index or a cell coordinate lies outside the grid.
    OutOfBounds,
}

/// The mathematical model of a tile grid.
pub struct TileGrid {
    pub width: nat,
    pub height: nat,
    pub layers: Seq<Seq<u32>>,
}

impl TileGrid {
    /// The extent is positive and every layer covers it exactly.
    pub open spec fn wf(self) -> bool {
        &&& self.width > 0
        &&& self.height > 0
        &&& forall|d: int|
            0 <= d < self.layers.len() ==> (#[trigger] self.layers[d]).len() == self.width
                * self.height
    }

    /// Whether `(x, y)` is a cell of the grid.
    pub open spec fn cell_in_bounds(self, x: int, y: int) -> bool {
        0 <= x < self.width && 0 <= y < self.height
    }

    /// Whether `layer` names a layer and `(x, y)` a cell of it.
    pub open spec fn in_bounds(self, layer: int, x: int, y: int) -> bool {
        0 <= layer < self.layers.len() && self.cell_in_bounds(x, y)
    }

    /// The raw tile index stored at `(x, y)` of `layer`.
    pub open spec fn tile(self, layer: int, x: int, y: int) -> u32
        recommends
            self.wf(),
            self.in_bounds(layer, x, y),
    {
        self.layers[layer][y * self.width + x]
    }

    /// What a lookup yields: the stored index, or the bounds error.
    pub open spec fn lookup(self, layer: int, x: int, y: int) -> Result<u32, MapError> {
        if self.in_bounds(layer, x, y) {
            Ok(self.tile(layer, x, y))
        } else {
            Err(MapError::OutOfBounds)
        }
    }
}

/// What building a grid from an extent and its layers yields.
pub open spec fn grid_from_layers(width: nat, height: nat, layers: Seq<Seq<u32>>) -> Result<
    TileGrid,
    MapError,
> {
    let grid = TileGrid { width, height, layers };
    if width == 0 || height == 0 {
        Err(MapError::EmptyExtent)
    } else if !grid.wf() {
        Err(MapError::LayerSizeMismatch)
    } else {
        Ok(grid)
    }
}

/// A row-major cell index stays inside a layer of `width * height` cells.
pub proof fn lemma_cell_index_in_layer(width: int, height: int, x: int, y: int)
    requires
        0 <= x < width,
        0 <= y < height,
    ensures
        0 <= y * width + x < width * height,
{
    assert(0 <= y * width) by (nonlinear_arith)
        requires
            0 <= y,
            0 < width,
    ;
    assert(y * width + width <= height * width) by (nonlinear_arith)
        requires
            y + 1 <= height,
            0 < width,
    ;
    assert(height * width == width * height) by (nonlinear_arith);
}

/// The layers of a grid as sequences of tile indices.
pub open spec fn layer_views(layers: Seq<Vec<u32>>) -> Seq<Seq<u32>> {
    layers.map_values(|l: Vec<u32>| l@)
}

/// An immutable multi-layer grid of tile indices.
#[derive(Debug)]
pub struct TileMapData {
    width: u32,
    height: u32,
    layers: Vec<Vec<u32>>,
}

impl View for TileMapData {
    type V = TileGrid;

    closed spec fn view(&self) -> TileGrid {
        TileGrid {
            width: self.width as nat,
            height: self.height as nat,
            layers: layer_views(self.layers@),
        }
    }
}

impl TileMapData {
    /// The invariant of every grid that the constructors hand out.
    pub open spec fn wf(&self) -> bool {
        self@.wf()
    }

    /// Builds a grid of `width` by `height` cells from layers given back to
    /// front. Fails on an empty extent, and on a layer of the wrong length.
    pub fn new(width: u32, height: u32, layers: Vec<Vec<u32>>) -> (r: Result<TileMapData, MapError>)
        ensures
            match r {
                Ok(m) => m.wf() && grid_from_layers(
                    width as nat,
                    height as nat,
                    layer_views(layers@),
                ) == Ok::<TileGrid, MapError>(m@),
                Err(e) => grid_from_layers(
                    width as nat,
                    height as nat,
                    layer_views(layers@),
                ) == Err::<TileGrid, MapError>(e),
            },
    {
        if width == 0 || height == 0 {
            return Err(MapError::EmptyExtent);
        }
        assert(width as u64 * height as u64 <= u64::MAX) by (nonlinear_arith)
            requires
                width as u64 <= 0xffff_ffff,
                height as u64 <= 0xffff_ffff,
        ;
        let cells: u64 = width as u64 * height as u64;
        let ghost rows = layer_views(layers@);
        let ghost grid = TileGrid { width: width as nat, height: height as nat, layers: rows };
        let mut d: usize = 0;
        while d < layers.len()
            invariant
                d <= layers.len(),
                width != 0,
                height != 0,
                cells == width as nat * height as nat,
                rows == layer_views(layers@),
                grid == (TileGrid { width: width as nat, height: height as nat, layers: rows }),
                forall|k: int| 0 <= k < d ==> (#[trigger] rows[k]).len() == cells,
            decreases layers.len() - d,
        {
            if layers[d].len() as u64 != cells {
                assert(grid.layers[d as int].len() != grid.width * grid.height);
                return Err(MapError::LayerSizeMismatch);
            }
            d += 1;
        }
        Ok(TileMapData { width, height, layers })
    }

    /// The number of columns.
    pub fn width(&self) -> (w: u32)
        ensures
            w == self@.width,
    {
        self.width
    }

    /// The number of rows.
    pub fn height(&self) -> (h: u32)
        ensures
            h == self@.height,
    {
        self.height
    }

    /// The number of layers.
    pub fn layer_count(&self) -> (n: usize)
        ensures
            n == self@.layers.len(),
    {
        self.layers.len()
    }

    /// The raw tile index at `(x, y)` of `layer`; `0` means that the cell is
    /// empty, any other value is one more than the tile's image index.
    pub fn tile_at(&self, layer: usize, x: u32, y: u32) -> (r: Result<u32, MapError>)
        requires
            self.wf(),
        ensures
            r == self@.lookup(layer as int, x as int, y as int),
    {
        if layer >= self.layers.len() || x >= self.width || y >= self.height {
            return Err(MapError::OutOfBounds);
        }
        let tiles = &self.layers[layer];
        proof {
            lemma_cell_index_in_layer(self.width as int, self.height as int, x as int, y as int);
            assert(y as u64 * self.width as u64 + x as u64 <= u64::MAX) by (nonlinear_arith)
                requires
                    y as u64 <= 0xffff_ffff,
                    self.width as u64 <= 0xffff_ffff,
                    x as u64 <= 0xffff_ffff,
            ;
        }
        let index: u64 = y as u64 * self.width as u64 + x as u64;
        assert(index < tiles.len());
        Ok(tiles[index as usize])
    }
}

} // verus!
