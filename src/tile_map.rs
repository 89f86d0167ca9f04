use vstd::prelude::*;

verus! {

/// A tile map in the JSON map format: its size in tiles, the size of one tile
/// in pixels, its layers and tilesets, and format metadata.
pub struct TileMap {
    pub height: u32,
    pub width: u32,
    pub layers: Vec<Layer>,
    pub infinite: bool,
    pub tileheight: u32,
    pub tilewidth: u32,
    pub tilesets: Vec<Tileset>,
    pub version: String,
    pub orientation: String,
    pub renderorder: String,
}

/// One grid of tile ids, row-major from the top-left corner; id 0 is an empty
/// cell. The opacity is kept as the bit pattern of its 32-bit float.
pub struct Layer {
    pub data: Vec<u32>,
    pub height: u32,
    pub width: u32,
    pub name: String,
    pub opacity_bits: u32,
    pub visible: bool,
    pub x: u32,
    pub y: u32,
}

/// An image cut into a uniform grid of tiles.
pub struct Tileset {
    pub columns: u32,
    pub firstgid: u32,
    pub image: String,
    pub imageheight: u32,
    pub imagewidth: u32,
    pub margin: u32,
    pub name: String,
    pub spacing: u32,
    pub tilecount: u32,
    pub tileheight: u32,
    pub tilewidth: u32,
}

} // verus!
