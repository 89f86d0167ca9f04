use vstd::prelude::*;

use crate::tile_map::TileMap;

verus! {

/// A rectangle of an image in pixels, from its top-left corner `min` to its
/// bottom-right corner `max`.
#[derive(Clone, Copy, PartialEq, Eq, Structural)]
pub struct AtlasRect {
    pub min_x: u32,
    pub min_y: u32,
    pub max_x: u32,
    pub max_y: u32,
}

/// An image cut into frames: its size, and one rectangle per frame, in frame
/// order.
pub struct TextureAtlasGrid {
    pub image_width: u32,
    pub image_height: u32,
    pub rects: Vec<AtlasRect>,
}

/// The frame in column `x` and row `y` of a grid of `tile_width` by
/// `tile_height` tiles.
pub open spec fn grid_rect(x: int, y: int, tile_width: int, tile_height: int) -> AtlasRect {
    AtlasRect {
        min_x: (x * tile_width) as u32,
        min_y: (y * tile_height) as u32,
        max_x: ((x + 1) * tile_width) as u32,
        max_y: ((y + 1) * tile_height) as u32,
    }
}

/// The map's tilesets have a first one, and its tiles have a size.
pub open spec fn has_tile_geometry(map: TileMap) -> bool {
    &&& map.tilesets@.len() > 0
    &&& map.tilesets@[0].tilewidth > 0
    &&& map.tilesets@[0].tileheight > 0
}

/// `(x + 1) * t` stays within `n * t` for `x < n`.
proof fn lemma_next_edge(x: int, n: int, t: int)
    requires
        0 <= x < n,
        0 <= t,
    ensures
        0 <= x * t,
        (x + 1) * t <= n * t,
{
    assert((x + 1) * t <= n * t) by (nonlinear_arith)
        requires
            x + 1 <= n,
            0 <= t,
    ;
    assert(0 <= x * t) by (nonlinear_arith)
        requires
            0 <= x,
            0 <= t,
    ;
}

/// Cuts the first tileset's image into a grid of equal tiles, row by row from
/// the top-left corner; a partial tile at the right or bottom edge is left
/// out.
pub fn create_texture_atlas(map: &TileMap) -> (r: TextureAtlasGrid)
    requires
        has_tile_geometry(*map),
    ensures
        ({
            let ts = map.tilesets@[0];
            let cols = ts.imagewidth / ts.tilewidth;
            let rows = ts.imageheight / ts.tileheight;
            &&& r.image_width == ts.imagewidth
            &&& r.image_height == ts.imageheight
            &&& r.rects@.len() == rows * cols
            &&& forall|k: int|
                0 <= k < r.rects@.len() ==> #[trigger] r.rects@[k] == grid_rect(
                    k % (cols as int),
                    k / (cols as int),
                    ts.tilewidth as int,
                    ts.tileheight as int,
                )
        }),
{
    let tileset = &map.tilesets[0];
    let tile_width = tileset.tilewidth;
    let tile_height = tileset.tileheight;
    let image_width = tileset.imagewidth;
    let image_height = tileset.imageheight;
    let cols = image_width / tile_width;
    let rows = image_height / tile_height;
    proof {
        vstd::arithmetic::div_mod::lemma_fundamental_div_mod(image_width as int, tile_width as int);
        vstd::arithmetic::div_mod::lemma_fundamental_div_mod(image_height as int, tile_height as int);
        vstd::arithmetic::div_mod::lemma_mod_pos_bound(image_width as int, tile_width as int);
        vstd::arithmetic::div_mod::lemma_mod_pos_bound(image_height as int, tile_height as int);
        assert(cols * tile_width <= image_width);
        assert(rows * tile_height <= image_height);
    }
    let mut rects: Vec<AtlasRect> = Vec::new();
    let mut y: u32 = 0;
    while y < rows
        invariant
            y <= rows,
            cols == image_width / tile_width,
            rows == image_height / tile_height,
            tile_width > 0,
            tile_height > 0,
            cols * tile_width <= image_width,
            rows * tile_height <= image_height,
            rects@.len() == y * cols,
            forall|k: int|
                0 <= k < rects@.len() ==> #[trigger] rects@[k] == grid_rect(
                    k % (cols as int),
                    k / (cols as int),
                    tile_width as int,
                    tile_height as int,
                ),
        decreases rows - y,
    {
        proof {
            lemma_next_edge(y as int, rows as int, tile_height as int);
        }
        let mut x: u32 = 0;
        while x < cols
            invariant
                y < rows,
                x <= cols,
                cols == image_width / tile_width,
                tile_width > 0,
                tile_height > 0,
                cols * tile_width <= image_width,
                rows * tile_height <= image_height,
                0 <= y * tile_height,
                (y + 1) * tile_height <= rows * tile_height,
                rects@.len() == y * cols + x,
                forall|k: int|
                    0 <= k < rects@.len() ==> #[trigger] rects@[k] == grid_rect(
                        k % (cols as int),
                        k / (cols as int),
                        tile_width as int,
                        tile_height as int,
                    ),
            decreases cols - x,
        {
            proof {
                lemma_next_edge(x as int, cols as int, tile_width as int);
                vstd::arithmetic::div_mod::lemma_fundamental_div_mod_converse(
                    (y * cols + x) as int,
                    cols as int,
                    y as int,
                    x as int,
                );
                vstd::arithmetic::mul::lemma_mul_is_distributive_add_other_way(
                    tile_width as int,
                    x as int,
                    1,
                );
                vstd::arithmetic::mul::lemma_mul_is_distributive_add_other_way(
                    tile_height as int,
                    y as int,
                    1,
                );
            }
            let rect = AtlasRect {
                min_x: x * tile_width,
                min_y: y * tile_height,
                max_x: x * tile_width + tile_width,
                max_y: y * tile_height + tile_height,
            };
            rects.push(rect);
            x = x + 1;
        }
        assert(y * cols + cols == (y + 1) * cols) by (nonlinear_arith);
        y = y + 1;
    }
    TextureAtlasGrid { image_width, image_height, rects }
}

} // verus!
