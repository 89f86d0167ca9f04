use vstd::prelude::*;

use crate::tile_map::TileMap;

verus! {

/// Column of the cell at linear `index` in a row-major grid `width` cells wide.
pub open spec fn grid_x(index: int, width: int) -> int {
    index % width
}

/// Row, counted from the bottom, of the cell at linear `index` in a row-major
/// grid that is stored from the top and is `height` rows high.
pub open spec fn grid_y(index: int, width: int, height: int) -> int {
    height - 1 - index / width
}

/// Atlas frame of a nonzero tile id: ids count from one, frames from zero.
pub open spec fn atlas_frame(tile_id: int) -> int {
    tile_id - 1
}

/// The cell at `index` can be placed: the grid has columns and the cell lies
/// within its rows.
pub open spec fn cell_in_grid(map: TileMap, index: int) -> bool {
    map.width > 0 && index / (map.width as int) < map.height
}

/// Every nonzero tile of every layer lies within the map's grid.
pub open spec fn tiles_in_grid(map: TileMap) -> bool {
    forall|l: int, i: int|
        0 <= l < map.layers@.len() && 0 <= i < map.layers@[l].data@.len()
            && #[trigger] map.layers@[l].data@[i] != 0 ==> cell_in_grid(map, i)
}

/// One sprite to draw for one tile: where the tile came from (layer, which is
/// also its depth, and index), its grid cell, its atlas frame and its world
/// position in pixels.
#[derive(Clone, Copy, PartialEq, Eq, Structural)]
pub struct TileSprite {
    pub layer: usize,
    pub index: usize,
    pub tile_id: u32,
    pub grid_x: u32,
    pub grid_y: u32,
    pub atlas_index: u32,
    pub x: u64,
    pub y: u64,
}

/// The sprite of the nonzero tile `tile_id` found at `index` of layer `layer`.
pub open spec fn sprite_for(map: TileMap, layer: int, index: int, tile_id: u32) -> TileSprite {
    let gx = grid_x(index, map.width as int);
    let gy = grid_y(index, map.width as int, map.height as int);
    TileSprite {
        layer: layer as usize,
        index: index as usize,
        tile_id,
        grid_x: gx as u32,
        grid_y: gy as u32,
        atlas_index: atlas_frame(tile_id as int) as u32,
        x: (gx * map.tilewidth) as u64,
        y: (gy * map.tileheight) as u64,
    }
}

/// The sprites of the tiles in `data`, a prefix of layer `layer`, in order;
/// empty cells give none.
pub open spec fn layer_sprites(map: TileMap, layer: int, data: Seq<u32>) -> Seq<TileSprite>
    decreases data.len(),
{
    if data.len() == 0 {
        Seq::empty()
    } else {
        let before = layer_sprites(map, layer, data.drop_last());
        if data.last() == 0 {
            before
        } else {
            before.push(sprite_for(map, layer, data.len() - 1, data.last()))
        }
    }
}

/// The sprites of the first `n` layers of the map, layer by layer.
pub open spec fn map_sprites(map: TileMap, n: int) -> Seq<TileSprite>
    decreases n,
{
    if n <= 0 {
        Seq::empty()
    } else {
        map_sprites(map, n - 1) + layer_sprites(map, n - 1, map.layers@[n - 1].data@)
    }
}

/// Grid cell of linear `index`: its column and its row counted from the bottom.
pub fn tile_grid_position(index: u64, width: u32, height: u32) -> (r: (u32, u32))
    requires
        width > 0,
        (index as int) / (width as int) < height as int,
    ensures
        r.0 == grid_x(index as int, width as int),
        r.1 == grid_y(index as int, width as int, height as int),
{
    let row = index / (width as u64);
    let x = (index % (width as u64)) as u32;
    let y = (height - 1 - row as u32) as u32;
    (x, y)
}

/// Atlas frame of the nonzero tile id `tile_id` in its tileset's atlas.
pub fn atlas_index(tile_id: u32) -> (r: u32)
    requires
        tile_id > 0,
    ensures
        r == atlas_frame(tile_id as int),
{
    tile_id - 1
}

/// The sprite for the nonzero tile `tile_id` at `index` of layer `layer`.
fn make_sprite(map: &TileMap, layer: usize, index: usize, tile_id: u32) -> (r: TileSprite)
    requires
        tile_id != 0,
        cell_in_grid(*map, index as int),
    ensures
        r == sprite_for(*map, layer as int, index as int, tile_id),
{
    let (gx, gy) = tile_grid_position(index as u64, map.width, map.height);
    assert(gx * map.tilewidth <= u64::MAX) by (nonlinear_arith)
        requires
            gx <= u32::MAX,
            map.tilewidth <= u32::MAX,
    ;
    assert(gy * map.tileheight <= u64::MAX) by (nonlinear_arith)
        requires
            gy <= u32::MAX,
            map.tileheight <= u32::MAX,
    ;
    TileSprite {
        layer,
        index,
        tile_id,
        grid_x: gx,
        grid_y: gy,
        atlas_index: atlas_index(tile_id),
        x: gx as u64 * map.tilewidth as u64,
        y: gy as u64 * map.tileheight as u64,
    }
}

/// Whether every nonzero tile of every layer lies within the map's grid.
pub fn tiles_fit_grid(map: &TileMap) -> (r: bool)
    ensures
        r == tiles_in_grid(*map),
{
    let mut l: usize = 0;
    while l < map.layers.len()
        invariant
            l <= map.layers.len(),
            forall|a: int, i: int|
                0 <= a < l && 0 <= i < map.layers@[a].data@.len()
                    && #[trigger] map.layers@[a].data@[i] != 0 ==> cell_in_grid(*map, i),
        decreases map.layers.len() - l,
    {
        let data = &map.layers[l].data;
        let mut i: usize = 0;
        while i < data.len()
            invariant
                l < map.layers.len(),
                i <= data.len(),
                *data == map.layers@[l as int].data,
                forall|a: int, j: int|
                    0 <= a < l && 0 <= j < map.layers@[a].data@.len()
                        && #[trigger] map.layers@[a].data@[j] != 0 ==> cell_in_grid(*map, j),
                forall|j: int| 0 <= j < i && #[trigger] data@[j] != 0 ==> cell_in_grid(*map, j),
            decreases data.len() - i,
        {
            if data[i] != 0 {
                if map.width == 0 {
                    return false;
                }
                if (i as u64) / (map.width as u64) >= map.height as u64 {
                    return false;
                }
            }
            i = i + 1;
        }
        l = l + 1;
    }
    true
}

/// One sprite for each nonzero tile of each layer, layer by layer and in the
/// order of the layer's data.
pub fn spawn_tiles(map: &TileMap) -> (r: Vec<TileSprite>)
    requires
        tiles_in_grid(*map),
    ensures
        r@ == map_sprites(*map, map.layers@.len() as int),
{
    let mut out: Vec<TileSprite> = Vec::new();
    let mut l: usize = 0;
    while l < map.layers.len()
        invariant
            l <= map.layers.len(),
            tiles_in_grid(*map),
            out@ == map_sprites(*map, l as int),
        decreases map.layers.len() - l,
    {
        let data = &map.layers[l].data;
        let ghost before = out@;
        let mut i: usize = 0;
        while i < data.len()
            invariant
                l < map.layers.len(),
                i <= data.len(),
                *data == map.layers@[l as int].data,
                tiles_in_grid(*map),
                out@ == before + layer_sprites(*map, l as int, data@.take(i as int)),
            decreases data.len() - i,
        {
            let tile_id = data[i];
            assert(data@.take(i as int + 1).drop_last() =~= data@.take(i as int));
            if tile_id != 0 {
                assert(cell_in_grid(*map, i as int));
                let sprite = make_sprite(map, l, i, tile_id);
                out.push(sprite);
                assert(out@ =~= before + layer_sprites(*map, l as int, data@.take(i as int + 1)));
            }
            i = i + 1;
        }
        assert(data@.take(data.len() as int) =~= data@);
        l = l + 1;
    }
    out
}

/// Every sprite of a layer prefix comes from a nonzero tile at its index.
proof fn lemma_layer_sprites_from_tiles(map: TileMap, layer: int, data: Seq<u32>)
    requires
        0 <= layer <= usize::MAX,
        data.len() <= usize::MAX,
    ensures
        forall|k: int|
            0 <= k < layer_sprites(map, layer, data).len() ==> {
                let s = #[trigger] layer_sprites(map, layer, data)[k];
                &&& s.layer == layer as usize
                &&& 0 <= s.index < data.len()
                &&& s.tile_id != 0
                &&& data[s.index as int] == s.tile_id
                &&& s == sprite_for(map, layer, s.index as int, s.tile_id)
            },
    decreases data.len(),
{
    if data.len() > 0 {
        let before = data.drop_last();
        lemma_layer_sprites_from_tiles(map, layer, before);
        let all = layer_sprites(map, layer, data);
        let prev = layer_sprites(map, layer, before);
        assert forall|k: int| 0 <= k < all.len() implies {
            let s = #[trigger] all[k];
            &&& s.layer == layer as usize
            &&& 0 <= s.index < data.len()
            &&& s.tile_id != 0
            &&& data[s.index as int] == s.tile_id
            &&& s == sprite_for(map, layer, s.index as int, s.tile_id)
        } by {
            if k < prev.len() {
                assert(all[k] == prev[k]);
                assert(before[prev[k].index as int] == data[prev[k].index as int]);
            }
        }
    }
}

/// Every layer, and every layer's data, has a length that fits in `usize`.
pub open spec fn lengths_fit(map: TileMap) -> bool {
    &&& map.layers@.len() <= usize::MAX
    &&& forall|l: int| 0 <= l < map.layers@.len() ==> #[trigger] map.layers@[l].data@.len() <= usize::MAX
}

/// An empty cell (tile id 0) never gives a sprite: every sprite comes from a
/// nonzero tile of its layer, at its index, and is placed where that index
/// says.
pub proof fn lemma_zero_tile_never_spawns(map: TileMap)
    requires
        lengths_fit(map),
    ensures
        forall|k: int|
            0 <= k < map_sprites(map, map.layers@.len() as int).len() ==> {
                let s = #[trigger] map_sprites(map, map.layers@.len() as int)[k];
                &&& 0 <= s.layer < map.layers@.len()
                &&& 0 <= s.index < map.layers@[s.layer as int].data@.len()
                &&& s.tile_id != 0
                &&& map.layers@[s.layer as int].data@[s.index as int] == s.tile_id
                &&& s == sprite_for(map, s.layer as int, s.index as int, s.tile_id)
            },
{
    lemma_map_sprites_from_tiles(map, map.layers@.len() as int);
}

proof fn lemma_map_sprites_from_tiles(map: TileMap, n: int)
    requires
        lengths_fit(map),
        n <= map.layers@.len(),
    ensures
        forall|k: int|
            0 <= k < map_sprites(map, n).len() ==> {
                let s = #[trigger] map_sprites(map, n)[k];
                &&& 0 <= s.layer < n
                &&& 0 <= s.index < map.layers@[s.layer as int].data@.len()
                &&& s.tile_id != 0
                &&& map.layers@[s.layer as int].data@[s.index as int] == s.tile_id
                &&& s == sprite_for(map, s.layer as int, s.index as int, s.tile_id)
            },
    decreases n,
{
    if n > 0 {
        lemma_map_sprites_from_tiles(map, n - 1);
        let data = map.layers@[n - 1].data@;
        lemma_layer_sprites_from_tiles(map, n - 1, data);
        let a = map_sprites(map, n - 1);
        let b = layer_sprites(map, n - 1, data);
        assert forall|k: int| 0 <= k < map_sprites(map, n).len() implies {
            let s = #[trigger] map_sprites(map, n)[k];
            &&& 0 <= s.layer < n
            &&& 0 <= s.index < map.layers@[s.layer as int].data@.len()
            &&& s.tile_id != 0
            &&& map.layers@[s.layer as int].data@[s.index as int] == s.tile_id
            &&& s == sprite_for(map, s.layer as int, s.index as int, s.tile_id)
        } by {
            if k < a.len() {
                assert(map_sprites(map, n)[k] == a[k]);
            } else {
                assert(map_sprites(map, n)[k] == b[k - a.len()]);
            }
        }
    }
}

/// On a map whose nonzero tiles all lie within its grid, the sprite of the
/// tile at linear index `i` of a map `W` cells wide and `H` high stands in
/// column `i mod W` and row `H - 1 - (i div W)`, at `tilewidth` and
/// `tileheight` pixels per cell.
pub proof fn lemma_sprite_cell(map: TileMap)
    requires
        lengths_fit(map),
        tiles_in_grid(map),
    ensures
        forall|k: int|
            0 <= k < map_sprites(map, map.layers@.len() as int).len() ==> {
                let s = #[trigger] map_sprites(map, map.layers@.len() as int)[k];
                &&& s.grid_x as int == (s.index as int) % (map.width as int)
                &&& s.grid_y as int == map.height - 1 - (s.index as int) / (map.width as int)
                &&& s.x as int == s.grid_x * map.tilewidth
                &&& s.y as int == s.grid_y * map.tileheight
            },
{
    lemma_zero_tile_never_spawns(map);
    let all = map_sprites(map, map.layers@.len() as int);
    assert forall|k: int| 0 <= k < all.len() implies {
        let s = #[trigger] all[k];
        &&& s.grid_x as int == (s.index as int) % (map.width as int)
        &&& s.grid_y as int == map.height - 1 - (s.index as int) / (map.width as int)
        &&& s.x as int == s.grid_x * map.tilewidth
        &&& s.y as int == s.grid_y * map.tileheight
    } by {
        let s = all[k];
        let i = s.index as int;
        let w = map.width as int;
        assert(map.layers@[s.layer as int].data@[i] != 0);
        assert(cell_in_grid(map, i));
        vstd::arithmetic::div_mod::lemma_mod_pos_bound(i, w);
        vstd::arithmetic::div_mod::lemma_div_pos_is_pos(i, w);
        let gx = i % w;
        let gy = map.height - 1 - i / w;
        assert(0 <= gx * map.tilewidth <= u64::MAX) by (nonlinear_arith)
            requires
                0 <= gx <= u32::MAX,
                map.tilewidth <= u32::MAX,
        ;
        assert(0 <= gy * map.tileheight <= u64::MAX) by (nonlinear_arith)
            requires
                0 <= gy <= u32::MAX,
                map.tileheight <= u32::MAX,
        ;
    }
}

} // verus!
