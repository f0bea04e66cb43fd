//! Tile grids from maps in the Tiled JSON format, as `rs_tiled_json` reads
//! them: the tile layers of a map, in the map's order, become the layers of
//! the grid; object, image and group layers are left out.

use crate::tilemap::{grid_from_layers, layer_views, MapError, TileGrid, TileMapData};
use vstd::prelude::*;

verus! {

/// A map as `rs_tiled_json` holds it. Nothing inside it is visible here.
#[verifier::external_type_specification]
#[verifier::external_body]
pub struct ExMap(rs_tiled_json::Map);

/// A layer of such a map. Nothing inside it is visible here.
#[verifier::external_type_specification]
#[verifier::external_body]
pub struct ExLayer(rs_tiled_json::Layer);

/// The width of a map in tiles: what `Map::width` returns.
pub uninterp spec fn map_width(map: rs_tiled_json::Map) -> u16;

/// The height of a map in tiles: what `Map::height` returns.
pub uninterp spec fn map_height(map: rs_tiled_json::Map) -> u16;

/// The layers of a map in their order: what `Map::layers` lends.
pub uninterp spec fn map_layers(map: rs_tiled_json::Map) -> Seq<rs_tiled_json::Layer>;

/// Whether a layer is marked as a tile layer: what `Layer::is_tile_layer`
/// returns.
pub uninterp spec fn layer_is_tile_layer(layer: rs_tiled_json::Layer) -> bool;

/// The tile indices that a layer carries, if it carries any: what
/// `Layer::get_data` lends.
pub uninterp spec fn layer_data(layer: rs_tiled_json::Layer) -> Option<Seq<u32>>;

/// `Map::width` reads the map's `width` field. Unproved: the result is
/// that one value of the map, here called `map_width`.
pub assume_specification[ rs_tiled_json::Map::width ](map: &rs_tiled_json::Map) -> (width: u16)
    ensures
        width == map_width(*map),
;

/// `Map::height` reads the map's `height` field. Unproved: the result is
/// that one value of the map, here called `map_height`.
pub assume_specification[ rs_tiled_json::Map::height ](map: &rs_tiled_json::Map) -> (height: u16)
    ensures
        height == map_height(*map),
;

/// `Map::layers` lends the map's vector of layers. Unproved: the vector
/// holds the layers of the map, here called `map_layers`, in their order.
pub assume_specification[ rs_tiled_json::Map::layers ](map: &rs_tiled_json::Map) -> (layers: &Vec<
    rs_tiled_json::Layer,
>)
    ensures
        layers@ == map_layers(*map),
;

/// `Layer::is_tile_layer` tests the layer's type tag. Unproved: the
/// result is that one flag of the layer, here called `layer_is_tile_layer`.
pub assume_specification[ rs_tiled_json::Layer::is_tile_layer ](
    layer: &rs_tiled_json::Layer,
) -> (is_tile_layer: bool)
    ensures
        is_tile_layer == layer_is_tile_layer(*layer),
;

/// `Layer::get_data` lends the tile indices of a layer whose payload is
/// tile data, and nothing for any other payload. Unproved: what it lends
/// is the layer's data, here called `layer_data`. The type tag and the
/// payload are separate fields, so nothing is claimed of how this result
/// goes with that of `Layer::is_tile_layer`.
pub assume_specification[ rs_tiled_json::Layer::get_data ](layer: &rs_tiled_json::Layer) -> (data:
    Option<&Vec<u32>>)
    ensures
        match data {
            Some(tiles) => layer_data(*layer) == Some(tiles@),
            None => layer_data(*layer) is None,
        },
;

/// One layer as a map source delivers it: the flag that marks it as a
/// tile layer, and its tile indices if it has any.
#[derive(Debug)]
pub struct RawLayer {
    pub is_tile_layer: bool,
    pub data: Option<Vec<u32>>,
}

/// The mathematical model of a delivered layer.
pub struct LayerRecord {
    pub is_tile_layer: bool,
    pub data: Option<Seq<u32>>,
}

impl View for RawLayer {
    type V = LayerRecord;

    open spec fn view(&self) -> LayerRecord {
        LayerRecord {
            is_tile_layer: self.is_tile_layer,
            data: match self.data {
                Some(tiles) => Some(tiles@),
                None => None,
            },
        }
    }
}

/// The models of a run of delivered layers.
pub open spec fn record_views(layers: Seq<RawLayer>) -> Seq<LayerRecord> {
    layers.map_values(|layer: RawLayer| layer@)
}

/// The record of a layer of an `rs_tiled_json` map.
pub open spec fn layer_record(layer: rs_tiled_json::Layer) -> LayerRecord {
    LayerRecord { is_tile_layer: layer_is_tile_layer(layer), data: layer_data(layer) }
}

/// The records of the layers of an `rs_tiled_json` map, in the map's order.
pub open spec fn map_records(map: rs_tiled_json::Map) -> Seq<LayerRecord> {
    map_layers(map).map_values(|layer: rs_tiled_json::Layer| layer_record(layer))
}

impl LayerRecord {
    /// What the layer adds to the grid: its tiles if it is a tile layer.
    pub open spec fn payload(self) -> Option<Seq<u32>> {
        if self.is_tile_layer {
            self.data
        } else {
            None
        }
    }

    /// Whether the layer is declared a tile layer and yet carries no tiles.
    pub open spec fn lacks_data(self) -> bool {
        self.is_tile_layer && self.data is None
    }
}

/// The tile layers among the records, in their order.
pub open spec fn tile_layers(records: Seq<LayerRecord>) -> Seq<Seq<u32>> {
    records.filter_map(|record: LayerRecord| record.payload())
}

/// Whether some record is a tile layer without tiles.
pub open spec fn some_layer_lacks_data(records: Seq<LayerRecord>) -> bool {
    exists|i: int| 0 <= i < records.len() && (#[trigger] records[i]).lacks_data()
}

/// What building a grid from delivered layers yields: the grid of the tile
/// layers, unless the extent is empty, a tile layer carries no tiles, or
/// one does not cover the extent.
pub open spec fn grid_from_records(width: nat, height: nat, records: Seq<LayerRecord>) -> Result<
    TileGrid,
    MapError,
> {
    if width == 0 || height == 0 {
        Err(MapError::EmptyExtent)
    } else if some_layer_lacks_data(records) {
        Err(MapError::LayerDataAbsent)
    } else {
        grid_from_layers(width, height, tile_layers(records))
    }
}

/// The tile layers of a run of records that ends in `last` are those of
/// the run before it, followed by what `last` adds.
pub proof fn lemma_tile_layers_push(records: Seq<LayerRecord>, last: LayerRecord)
    ensures
        tile_layers(records.push(last)) == match last.payload() {
            Some(tiles) => tile_layers(records).push(tiles),
            None => tile_layers(records),
        },
{
    assert(records.push(last).drop_last() == records);
}

impl TileMapData {
    /// Builds a grid of `width` by `height` cells from layers as a map
    /// source delivers them, back to front. The tile layers become the
    /// grid's layers; the others are left out. Fails on an empty extent, on
    /// a tile layer without tiles, and on one of the wrong length.
    pub fn from_raw_layers(width: u32, height: u32, raw: &Vec<RawLayer>) -> (r: Result<
        TileMapData,
        MapError,
    >)
        ensures
            match r {
                Ok(map) => map.wf() && grid_from_records(
                    width as nat,
                    height as nat,
                    record_views(raw@),
                ) == Ok::<TileGrid, MapError>(map@),
                Err(e) => grid_from_records(width as nat, height as nat, record_views(raw@))
                    == Err::<TileGrid, MapError>(e),
            },
    {
        if width == 0 || height == 0 {
            return Err(MapError::EmptyExtent);
        }
        let ghost records = record_views(raw@);
        let mut layers: Vec<Vec<u32>> = Vec::new();
        let mut i: usize = 0;
        while i < raw.len()
            invariant
                i <= raw.len(),
                width != 0,
                height != 0,
                records == record_views(raw@),
                forall|k: int| 0 <= k < i ==> !(#[trigger] records[k]).lacks_data(),
                layer_views(layers@) == tile_layers(records.take(i as int)),
            decreases raw.len() - i,
        {
            let layer = &raw[i];
            proof {
                assert(records.take(i + 1) == records.take(i as int).push(records[i as int]));
                lemma_tile_layers_push(records.take(i as int), records[i as int]);
            }
            if layer.is_tile_layer {
                match &layer.data {
                    Some(tiles) => {
                        layers.push(tiles.clone());
                    },
                    None => {
                        return Err(MapError::LayerDataAbsent);
                    },
                }
            }
            i += 1;
        }
        assert(records.take(i as int) == records);
        TileMapData::new(width, height, layers)
    }

    /// Builds the grid of a map that `rs_tiled_json` has read: the map's
    /// extent, and its tile layers in the map's order.
    pub fn from_map(map: &rs_tiled_json::Map) -> (r: Result<TileMapData, MapError>)
        ensures
            match r {
                Ok(grid) => grid.wf() && grid_from_records(
                    map_width(*map) as nat,
                    map_height(*map) as nat,
                    map_records(*map),
                ) == Ok::<TileGrid, MapError>(grid@),
                Err(e) => grid_from_records(
                    map_width(*map) as nat,
                    map_height(*map) as nat,
                    map_records(*map),
                ) == Err::<TileGrid, MapError>(e),
            },
    {
        let layers = map.layers();
        let ghost records = map_records(*map);
        let mut raw: Vec<RawLayer> = Vec::new();
        let mut i: usize = 0;
        while i < layers.len()
            invariant
                i <= layers.len(),
                layers@ == map_layers(*map),
                records == map_records(*map),
                record_views(raw@) == records.take(i as int),
            decreases layers.len() - i,
        {
            let layer = &layers[i];
            let data = match layer.get_data() {
                Some(tiles) => Some(tiles.clone()),
                None => None,
            };
            let delivered = RawLayer { is_tile_layer: layer.is_tile_layer(), data };
            let ghost before = raw@;
            raw.push(delivered);
            proof {
                assert(record_views(raw@) == record_views(before).push(delivered@));
            }
            i += 1;
        }
        assert(records.take(i as int) == records);
        TileMapData::from_raw_layers(map.width() as u32, map.height() as u32, &raw)
    }
}

} // verus!
