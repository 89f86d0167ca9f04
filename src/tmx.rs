use vstd::prelude::*;

verus! {

/// How the cells of a TMX map are laid out.
#[derive(Clone, Copy, PartialEq, Eq, Structural)]
pub enum Orientation {
    Orthogonal,
    Isometric,
    Staggered,
    Hexagonal,
}

/// The tilemap grid that renders a TMX orientation.
#[derive(Clone, Copy, PartialEq, Eq, Structural)]
pub enum GridKind {
    Square,
    IsometricDiamond,
    IsometricStaggered,
    HexagonRow,
}

/// The grid kind for each orientation.
pub open spec fn grid_kind_of(o: Orientation) -> GridKind {
    match o {
        Orientation::Orthogonal => GridKind::Square,
        Orientation::Isometric => GridKind::IsometricDiamond,
        Orientation::Staggered => GridKind::IsometricStaggered,
        Orientation::Hexagonal => GridKind::HexagonRow,
    }
}

/// The grid kind that renders maps of orientation `o`.
pub fn tilemap_type(o: Orientation) -> (r: GridKind)
    ensures
        r == grid_kind_of(o),
{
    match o {
        Orientation::Orthogonal => GridKind::Square,
        Orientation::Isometric => GridKind::IsometricDiamond,
        Orientation::Staggered => GridKind::IsometricStaggered,
        Orientation::Hexagonal => GridKind::HexagonRow,
    }
}

/// A change to a loaded map asset, naming the asset by its id.
#[derive(Clone, Copy, PartialEq, Eq, Structural)]
pub enum MapAssetEvent {
    Added(u64),
    Modified(u64),
    Removed(u64),
    Other,
}

/// Whether an entry names a map other than `id`.
pub open spec fn is_other_map(id: u64) -> spec_fn(u64) -> bool {
    |h: u64| h != id
}

/// The maps to rebuild after a run of asset events: an added or modified map
/// is queued; a removal drops the entries of the removed map queued so far
/// and keeps those of other maps; other events change nothing.
pub open spec fn changed_after(events: Seq<MapAssetEvent>) -> Seq<u64>
    decreases events.len(),
{
    if events.len() == 0 {
        Seq::empty()
    } else {
        let before = changed_after(events.drop_last());
        match events.last() {
            MapAssetEvent::Added(id) => before.push(id),
            MapAssetEvent::Modified(id) => before.push(id),
            MapAssetEvent::Removed(id) => before.filter(is_other_map(id)),
            MapAssetEvent::Other => before,
        }
    }
}

/// The entries of `queued` that name maps other than `id`, in order.
fn drop_map(queued: &Vec<u64>, id: u64) -> (r: Vec<u64>)
    ensures
        r@ == queued@.filter(is_other_map(id)),
{
    let mut kept: Vec<u64> = Vec::new();
    let mut j: usize = 0;
    while j < queued.len()
        invariant
            j <= queued.len(),
            kept@ == queued@.take(j as int).filter(is_other_map(id)),
        decreases queued.len() - j,
    {
        let ghost upto = queued@.take(j as int + 1);
        proof {
            reveal(Seq::filter);
        }
        assert(upto.drop_last() =~= queued@.take(j as int));
        assert(upto.last() == queued@[j as int]);
        if queued[j] != id {
            kept.push(queued[j]);
            assert(is_other_map(id)(upto.last()));
        } else {
            assert(!is_other_map(id)(upto.last()));
        }
        j = j + 1;
    }
    assert(queued@.take(queued.len() as int) =~= queued@);
    kept
}

/// The maps to rebuild this frame: those that the asset events leave queued,
/// then the maps newly placed in the world.
pub fn collect_changed_maps(events: &Vec<MapAssetEvent>, new_maps: &Vec<u64>) -> (r: Vec<u64>)
    ensures
        r@ == changed_after(events@) + new_maps@,
{
    let mut changed: Vec<u64> = Vec::new();
    let mut k: usize = 0;
    while k < events.len()
        invariant
            k <= events.len(),
            changed@ == changed_after(events@.take(k as int)),
        decreases events.len() - k,
    {
        assert(events@.take(k as int + 1).drop_last() =~= events@.take(k as int));
        match events[k] {
            MapAssetEvent::Added(id) => changed.push(id),
            MapAssetEvent::Modified(id) => changed.push(id),
            MapAssetEvent::Removed(id) => {
                changed = drop_map(&changed, id);
            },
            MapAssetEvent::Other => {},
        }
        k = k + 1;
    }
    assert(events@.take(events.len() as int) =~= events@);
    let ghost queued = changed@;
    let mut i: usize = 0;
    while i < new_maps.len()
        invariant
            i <= new_maps.len(),
            queued == changed_after(events@),
            changed@ == queued + new_maps@.take(i as int),
        decreases new_maps.len() - i,
    {
        changed.push(new_maps[i]);
        assert(queued + new_maps@.take(i as int + 1) =~= (queued + new_maps@.take(i as int)).push(
            new_maps@[i as int],
        ));
        i = i + 1;
    }
    assert(new_maps@.take(new_maps.len() as int) =~= new_maps@);
    changed
}

/// A tile of a tileset that may carry an image of its own.
#[derive(Clone, Copy, PartialEq, Eq, Structural)]
pub struct TileImageSource {
    pub tile_id: u32,
    pub has_image: bool,
}

/// Where the image of a tile sits in its tileset's list of tile images.
#[derive(Clone, Copy, PartialEq, Eq, Structural)]
pub struct TileImageOffset {
    pub tileset_index: usize,
    pub tile_id: u32,
    pub offset: u32,
}

/// The offsets of the tiles that carry an image, numbered from zero in the
/// order the tiles come.
pub open spec fn image_offsets(tileset_index: usize, tiles: Seq<TileImageSource>) -> Seq<
    TileImageOffset,
>
    decreases tiles.len(),
{
    if tiles.len() == 0 {
        Seq::empty()
    } else {
        let before = image_offsets(tileset_index, tiles.drop_last());
        if tiles.last().has_image {
            before.push(
                TileImageOffset {
                    tileset_index,
                    tile_id: tiles.last().tile_id,
                    offset: before.len() as u32,
                },
            )
        } else {
            before
        }
    }
}

/// No two tiles share an id.
pub open spec fn tile_ids_unique(tiles: Seq<TileImageSource>) -> bool {
    forall|i: int, j: int|
        0 <= i < j < tiles.len() ==> #[trigger] tiles[i].tile_id != #[trigger] tiles[j].tile_id
}

/// No two offsets share a key (tileset, tile id).
pub open spec fn offset_keys_unique(offsets: Seq<TileImageOffset>) -> bool {
    forall|i: int, j: int|
        0 <= i < j < offsets.len() ==> (#[trigger] offsets[i].tileset_index, offsets[i].tile_id) != (
            #[trigger] offsets[j].tileset_index,
            offsets[j].tile_id,
        )
}

/// Every offset belongs to the given tileset and to a tile of `tiles`.
proof fn lemma_offsets_from_tiles(tileset_index: usize, tiles: Seq<TileImageSource>)
    ensures
        forall|k: int|
            0 <= k < image_offsets(tileset_index, tiles).len() ==> {
                &&& (#[trigger] image_offsets(tileset_index, tiles)[k]).tileset_index == tileset_index
                &&& exists|j: int|
                    0 <= j < tiles.len() && tiles[j].tile_id == image_offsets(
                        tileset_index,
                        tiles,
                    )[k].tile_id
            },
    decreases tiles.len(),
{
    if tiles.len() > 0 {
        let before = tiles.drop_last();
        lemma_offsets_from_tiles(tileset_index, before);
        let all = image_offsets(tileset_index, tiles);
        let prev = image_offsets(tileset_index, before);
        assert forall|k: int| 0 <= k < all.len() implies {
            &&& (#[trigger] all[k]).tileset_index == tileset_index
            &&& exists|j: int| 0 <= j < tiles.len() && tiles[j].tile_id == all[k].tile_id
        } by {
            if k < prev.len() {
                assert(all[k] == prev[k]);
                let j = choose|j: int| 0 <= j < before.len() && before[j].tile_id == prev[k].tile_id;
                assert(tiles[j] == before[j]);
            } else {
                assert(tiles[tiles.len() - 1].tile_id == all[k].tile_id);
            }
        }
    }
}

/// Distinct tile ids give offsets with distinct keys.
pub proof fn lemma_offset_keys_unique(tileset_index: usize, tiles: Seq<TileImageSource>)
    requires
        tile_ids_unique(tiles),
    ensures
        offset_keys_unique(image_offsets(tileset_index, tiles)),
    decreases tiles.len(),
{
    if tiles.len() > 0 {
        let before = tiles.drop_last();
        assert(tile_ids_unique(before)) by {
            assert forall|i: int, j: int| 0 <= i < j < before.len() implies #[trigger] before[i].tile_id
                != #[trigger] before[j].tile_id by {
                assert(before[i] == tiles[i] && before[j] == tiles[j]);
            }
        }
        lemma_offset_keys_unique(tileset_index, before);
        lemma_offsets_from_tiles(tileset_index, before);
        let all = image_offsets(tileset_index, tiles);
        let prev = image_offsets(tileset_index, before);
        if tiles.last().has_image {
            assert forall|i: int, j: int| 0 <= i < j < all.len() implies (
                #[trigger] all[i].tileset_index,
                all[i].tile_id,
            ) != (#[trigger] all[j].tileset_index, all[j].tile_id) by {
                if j < prev.len() {
                    assert(all[i] == prev[i] && all[j] == prev[j]);
                } else {
                    assert(all[i] == prev[i]);
                    assert(prev[i] == image_offsets(tileset_index, before)[i]);
                    let m = choose|m: int| 0 <= m < before.len() && before[m].tile_id == prev[i].tile_id;
                    assert(tiles[m] == before[m]);
                    assert(tiles[m].tile_id != tiles[tiles.len() - 1].tile_id);
                }
            }
        }
    }
}

/// Numbers the tile images of a tileset that has no single image: each tile
/// that carries an image gets the next place in the tileset's image list.
pub fn tile_image_offsets(tileset_index: usize, tiles: &Vec<TileImageSource>) -> (r: Vec<
    TileImageOffset,
>)
    ensures
        r@ == image_offsets(tileset_index, tiles@),
        tile_ids_unique(tiles@) ==> offset_keys_unique(r@),
{
    let mut out: Vec<TileImageOffset> = Vec::new();
    let mut k: usize = 0;
    while k < tiles.len()
        invariant
            k <= tiles.len(),
            out@ == image_offsets(tileset_index, tiles@.take(k as int)),
        decreases tiles.len() - k,
    {
        assert(tiles@.take(k as int + 1).drop_last() =~= tiles@.take(k as int));
        let tile = tiles[k];
        if tile.has_image {
            let offset = out.len() as u32;
            out.push(TileImageOffset { tileset_index, tile_id: tile.tile_id, offset });
        }
        k = k + 1;
    }
    assert(tiles@.take(tiles.len() as int) =~= tiles@);
    proof {
        if tile_ids_unique(tiles@) {
            lemma_offset_keys_unique(tileset_index, tiles@);
        }
    }
    out
}

/// The offset recorded for tile `tile_id` of tileset `tileset_index`: the
/// first entry for it.
pub open spec fn offset_of(offsets: Seq<TileImageOffset>, tileset_index: usize, tile_id: u32) -> Option<
    u32,
>
    decreases offsets.len(),
{
    if offsets.len() == 0 {
        None
    } else if offsets[0].tileset_index == tileset_index && offsets[0].tile_id == tile_id {
        Some(offsets[0].offset)
    } else {
        offset_of(offsets.subrange(1, offsets.len() as int), tileset_index, tile_id)
    }
}

/// Looks up the offset recorded for tile `tile_id` of tileset `tileset_index`.
pub fn find_offset(offsets: &Vec<TileImageOffset>, tileset_index: usize, tile_id: u32) -> (r: Option<
    u32,
>)
    ensures
        r == offset_of(offsets@, tileset_index, tile_id),
{
    let mut k: usize = 0;
    assert(offsets@.subrange(0, offsets.len() as int) =~= offsets@);
    while k < offsets.len()
        invariant
            k <= offsets.len(),
            offset_of(offsets@, tileset_index, tile_id) == offset_of(
                offsets@.subrange(k as int, offsets.len() as int),
                tileset_index,
                tile_id,
            ),
        decreases offsets.len() - k,
    {
        let ghost rest = offsets@.subrange(k as int, offsets.len() as int);
        assert(rest.subrange(1, rest.len() as int) =~= offsets@.subrange(
            k as int + 1,
            offsets.len() as int,
        ));
        let entry = offsets[k];
        if entry.tileset_index == tileset_index && entry.tile_id == tile_id {
            return Some(entry.offset);
        }
        k = k + 1;
    }
    None
}

/// A tile placed in a TMX layer: which tileset it comes from, its id within
/// that tileset, and how it is flipped.
#[derive(Clone, Copy, PartialEq, Eq, Structural)]
pub struct LayerTile {
    pub tileset_index: usize,
    pub id: u32,
    pub flip_h: bool,
    pub flip_v: bool,
    pub flip_d: bool,
}

/// A finite TMX tile layer: a grid of optional tiles, row-major from the top.
pub struct FiniteTileGrid {
    pub width: u32,
    pub height: u32,
    pub tiles: Vec<Option<LayerTile>>,
}

/// How a tileset's tiles find their textures: one image for the whole
/// tileset, indexed by tile id, or one image per tile, indexed by its offset.
#[derive(Clone, Copy, PartialEq, Eq, Structural)]
pub enum TextureKind {
    Single,
    Vector,
}

/// A tile to create on the tilemap: its cell, counted from the bottom-left,
/// its texture index and its flips.
#[derive(Clone, Copy, PartialEq, Eq, Structural)]
pub struct TilePlacement {
    pub x: u32,
    pub y: u32,
    pub texture_index: u32,
    pub flip_x: bool,
    pub flip_y: bool,
    pub flip_d: bool,
}

impl FiniteTileGrid {
    /// The grid holds one cell for each column of each row.
    pub open spec fn wf(&self) -> bool {
        self.tiles@.len() == self.width * self.height
    }

    /// The tile at column `x`, row `y` from the top; none outside the grid.
    pub open spec fn tile_at(&self, x: int, y: int) -> Option<LayerTile> {
        if 0 <= x < self.width && 0 <= y < self.height {
            self.tiles@[y * self.width + x]
        } else {
            None
        }
    }

    /// Reads the tile at column `x`, row `y` from the top.
    pub fn get_tile(&self, x: u32, y: u32) -> (r: Option<LayerTile>)
        requires
            self.wf(),
        ensures
            r == self.tile_at(x as int, y as int),
    {
        if x < self.width && y < self.height {
            let cells = self.tiles.len();
            proof {
                assert((y + 1) * self.width <= self.height * self.width) by (nonlinear_arith)
                    requires
                        y + 1 <= self.height,
                ;
                assert((y + 1) * self.width == y * self.width + self.width) by (nonlinear_arith);
                assert(self.height * self.width == self.width * self.height) by (nonlinear_arith);
                assert(y * self.width + x < cells);
            }
            let index = y as usize * self.width as usize + x as usize;
            self.tiles[index]
        } else {
            None
        }
    }
}

/// The placement for cell (`x`, `y`), counted from the bottom of a map
/// `map_height` rows high, when a tile of tileset `tileset_index` lies there.
pub open spec fn placement_at(
    grid: FiniteTileGrid,
    map_height: u32,
    tileset_index: usize,
    kind: TextureKind,
    offsets: Seq<TileImageOffset>,
    x: int,
    y: int,
) -> Option<TilePlacement> {
    match grid.tile_at(x, map_height - 1 - y) {
        None => None,
        Some(t) => if t.tileset_index != tileset_index {
            None
        } else {
            Some(
                TilePlacement {
                    x: x as u32,
                    y: y as u32,
                    texture_index: match kind {
                        TextureKind::Single => t.id,
                        TextureKind::Vector => offset_of(offsets, tileset_index, t.id).unwrap(),
                    },
                    flip_x: t.flip_h,
                    flip_y: t.flip_v,
                    flip_d: t.flip_d,
                },
            )
        },
    }
}

/// A tile that needs a texture offset has one recorded.
pub open spec fn offset_known(
    grid: FiniteTileGrid,
    map_height: u32,
    tileset_index: usize,
    kind: TextureKind,
    offsets: Seq<TileImageOffset>,
    x: int,
    y: int,
) -> bool {
    match grid.tile_at(x, map_height - 1 - y) {
        Some(t) => kind == TextureKind::Vector && t.tileset_index == tileset_index ==> offset_of(
            offsets,
            tileset_index,
            t.id,
        ) is Some,
        None => true,
    }
}

/// Every cell of the map whose tile needs a texture offset has one.
pub open spec fn offsets_cover(
    grid: FiniteTileGrid,
    map_width: u32,
    map_height: u32,
    tileset_index: usize,
    kind: TextureKind,
    offsets: Seq<TileImageOffset>,
) -> bool {
    forall|x: int, y: int|
        0 <= x < map_width && 0 <= y < map_height ==> #[trigger] offset_known(
            grid,
            map_height,
            tileset_index,
            kind,
            offsets,
            x,
            y,
        )
}

/// The placements of column `x`, rows `0 .. ny` from the bottom, in order.
pub open spec fn column_placements(
    grid: FiniteTileGrid,
    map_height: u32,
    tileset_index: usize,
    kind: TextureKind,
    offsets: Seq<TileImageOffset>,
    x: int,
    ny: int,
) -> Seq<TilePlacement>
    decreases ny,
{
    if ny <= 0 {
        Seq::empty()
    } else {
        let before = column_placements(grid, map_height, tileset_index, kind, offsets, x, ny - 1);
        match placement_at(grid, map_height, tileset_index, kind, offsets, x, ny - 1) {
            Some(p) => before.push(p),
            None => before,
        }
    }
}

/// The placements of columns `0 .. nx`, column by column.
pub open spec fn grid_placements(
    grid: FiniteTileGrid,
    map_height: u32,
    tileset_index: usize,
    kind: TextureKind,
    offsets: Seq<TileImageOffset>,
    nx: int,
) -> Seq<TilePlacement>
    decreases nx,
{
    if nx <= 0 {
        Seq::empty()
    } else {
        grid_placements(grid, map_height, tileset_index, kind, offsets, nx - 1) + column_placements(
            grid,
            map_height,
            tileset_index,
            kind,
            offsets,
            nx - 1,
            map_height as int,
        )
    }
}

/// Whether every cell of the map whose tile needs a texture offset has one.
pub fn offsets_complete(
    grid: &FiniteTileGrid,
    map_width: u32,
    map_height: u32,
    tileset_index: usize,
    kind: TextureKind,
    offsets: &Vec<TileImageOffset>,
) -> (r: bool)
    requires
        grid.wf(),
    ensures
        r == offsets_cover(*grid, map_width, map_height, tileset_index, kind, offsets@),
{
    if kind == TextureKind::Single {
        return true;
    }
    let mut x: u32 = 0;
    while x < map_width
        invariant
            x <= map_width,
            grid.wf(),
            kind == TextureKind::Vector,
            forall|a: int, b: int|
                0 <= a < x && 0 <= b < map_height ==> #[trigger] offset_known(
                    *grid,
                    map_height,
                    tileset_index,
                    kind,
                    offsets@,
                    a,
                    b,
                ),
        decreases map_width - x,
    {
        let mut y: u32 = 0;
        while y < map_height
            invariant
                x < map_width,
                y <= map_height,
                grid.wf(),
                kind == TextureKind::Vector,
                forall|a: int, b: int|
                    0 <= a < x && 0 <= b < map_height ==> #[trigger] offset_known(
                        *grid,
                        map_height,
                        tileset_index,
                        kind,
                        offsets@,
                        a,
                        b,
                    ),
                forall|b: int|
                    0 <= b < y ==> #[trigger] offset_known(
                        *grid,
                        map_height,
                        tileset_index,
                        kind,
                        offsets@,
                        x as int,
                        b,
                    ),
            decreases map_height - y,
        {
            match grid.get_tile(x, map_height - 1 - y) {
                Some(tile) => {
                    if tile.tileset_index == tileset_index && find_offset(
                        offsets,
                        tileset_index,
                        tile.id,
                    ).is_none() {
                        assert(!offset_known(
                            *grid,
                            map_height,
                            tileset_index,
                            kind,
                            offsets@,
                            x as int,
                            y as int,
                        ));
                        return false;
                    }
                },
                None => {},
            }
            y = y + 1;
        }
        x = x + 1;
    }
    true
}

/// The tiles of one tileset on one finite layer of a map `map_width` by
/// `map_height` cells, column by column and from the bottom row up: the TMX
/// rows, stored from the top, are turned over. Cells that are empty, or hold
/// a tile of another tileset, give nothing.
pub fn layer_tile_placements(
    grid: &FiniteTileGrid,
    map_width: u32,
    map_height: u32,
    tileset_index: usize,
    kind: TextureKind,
    offsets: &Vec<TileImageOffset>,
) -> (r: Vec<TilePlacement>)
    requires
        grid.wf(),
        offsets_cover(*grid, map_width, map_height, tileset_index, kind, offsets@),
    ensures
        r@ == grid_placements(*grid, map_height, tileset_index, kind, offsets@, map_width as int),
{
    let mut out: Vec<TilePlacement> = Vec::new();
    let mut x: u32 = 0;
    while x < map_width
        invariant
            x <= map_width,
            grid.wf(),
            offsets_cover(*grid, map_width, map_height, tileset_index, kind, offsets@),
            out@ == grid_placements(*grid, map_height, tileset_index, kind, offsets@, x as int),
        decreases map_width - x,
    {
        let ghost before = out@;
        let mut y: u32 = 0;
        while y < map_height
            invariant
                x < map_width,
                y <= map_height,
                grid.wf(),
                offsets_cover(*grid, map_width, map_height, tileset_index, kind, offsets@),
                out@ == before + column_placements(
                    *grid,
                    map_height,
                    tileset_index,
                    kind,
                    offsets@,
                    x as int,
                    y as int,
                ),
            decreases map_height - y,
        {
            let mapped_y = map_height - 1 - y;
            assert(offset_known(*grid, map_height, tileset_index, kind, offsets@, x as int, y as int));
            match grid.get_tile(x, mapped_y) {
                None => {},
                Some(tile) => {
                    if tile.tileset_index == tileset_index {
                        let texture_index = match kind {
                            TextureKind::Single => tile.id,
                            TextureKind::Vector => {
                                match find_offset(offsets, tileset_index, tile.id) {
                                    Some(offset) => offset,
                                    None => {
                                        assert(false);
                                        0
                                    },
                                }
                            },
                        };
                        out.push(
                            TilePlacement {
                                x,
                                y,
                                texture_index,
                                flip_x: tile.flip_h,
                                flip_y: tile.flip_v,
                                flip_d: tile.flip_d,
                            },
                        );
                    }
                },
            }
            y = y + 1;
        }
        x = x + 1;
    }
    out
}

} // verus!
