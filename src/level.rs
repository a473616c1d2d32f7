//! The level data that the map pipeline reads, as exported by the level
//! editor. Positions are in pixels.
use vstd::prelude::*;

verus! {

/// A named field of an entity; `value` is `None` where it is not a string.
pub struct FieldInstance {
    pub identifier: String,
    pub value: Option<String>,
}

/// An entity placed in a level (an entrance, an enemy, a spawn point).
pub struct EntityInstance {
    pub identifier: String,
    pub px_x: i32,
    pub px_y: i32,
    pub width: i32,
    pub height: i32,
    pub fields: Vec<FieldInstance>,
}

/// A tile placed in a layer, at its top-left pixel within the layer.
#[derive(Clone, Copy, Debug, PartialEq, Eq, Structural)]
pub struct TileInstance {
    pub px_x: i32,
    pub px_y: i32,
    pub tile_id: i32,
}

/// One layer of a level.
pub struct LayerInstance {
    pub identifier: String,
    /// The layer's kind as the editor names it (`Entities`, `Tiles`, `IntGrid`, ...).
    pub layer_type: String,
    /// Side of a grid cell, in pixels.
    pub grid_size: i32,
    /// Width of the layer, in cells.
    pub c_wid: i32,
    pub px_offset_x: i32,
    pub px_offset_y: i32,
    pub tileset_uid: Option<i32>,
    /// Hand-placed tiles followed by auto-layer tiles.
    pub tiles: Vec<TileInstance>,
    /// One value per cell, row by row; non-zero marks the cell.
    pub int_grid: Vec<i32>,
    pub entities: Vec<EntityInstance>,
}

/// One level of a map.
pub struct Level {
    pub identifier: String,
    pub world_x: i32,
    pub world_y: i32,
    pub px_wid: i32,
    pub px_hei: i32,
    /// Background colour as `#rrggbb`, where the level sets one.
    pub bg_color: Option<String>,
    /// Value of the level's `music` field, where it is a string.
    pub music: Option<String>,
    pub layers: Vec<LayerInstance>,
}

} // verus!
