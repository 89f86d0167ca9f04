use topdown_game::tmx::{
    collect_changed_maps, find_offset, offsets_complete, layer_tile_placements, tile_image_offsets, tilemap_type, FiniteTileGrid,
    GridKind, LayerTile, MapAssetEvent, Orientation, TextureKind, TileImageOffset, TileImageSource,
};

fn tile(tileset_index: usize, id: u32) -> Option<LayerTile> {
    Some(LayerTile { tileset_index, id, flip_h: false, flip_v: true, flip_d: false })
}

#[test]
fn orientations_map_to_grid_kinds() {
    assert!(tilemap_type(Orientation::Orthogonal) == GridKind::Square);
    assert!(tilemap_type(Orientation::Isometric) == GridKind::IsometricDiamond);
    assert!(tilemap_type(Orientation::Staggered) == GridKind::IsometricStaggered);
    assert!(tilemap_type(Orientation::Hexagonal) == GridKind::HexagonRow);
}

#[test]
fn added_and_modified_maps_are_queued_then_new_ones() {
    let events = vec![MapAssetEvent::Added(1), MapAssetEvent::Other, MapAssetEvent::Modified(2)];
    assert_eq!(collect_changed_maps(&events, &vec![7]), vec![1, 2, 7]);
}

#[test]
fn removal_drops_only_the_removed_map() {
    let events = vec![
        MapAssetEvent::Added(1),
        MapAssetEvent::Modified(2),
        MapAssetEvent::Added(1),
        MapAssetEvent::Removed(1),
        MapAssetEvent::Modified(3),
    ];
    assert_eq!(collect_changed_maps(&events, &Vec::new()), vec![2, 3]);
    let other = vec![MapAssetEvent::Added(4), MapAssetEvent::Removed(5)];
    assert_eq!(collect_changed_maps(&other, &Vec::new()), vec![4]);
}

#[test]
fn removal_keeps_other_maps_queued() {
    let events = vec![MapAssetEvent::Added(1), MapAssetEvent::Added(2), MapAssetEvent::Removed(1)];
    assert_eq!(collect_changed_maps(&events, &Vec::new()), vec![2]);
    // A map modified again after its removal is queued again.
    let again = vec![MapAssetEvent::Removed(1), MapAssetEvent::Modified(1)];
    assert_eq!(collect_changed_maps(&again, &Vec::new()), vec![1]);
}

#[test]
fn tile_images_are_numbered_in_order() {
    let tiles = vec![
        TileImageSource { tile_id: 4, has_image: true },
        TileImageSource { tile_id: 2, has_image: false },
        TileImageSource { tile_id: 9, has_image: true },
    ];
    let offsets = tile_image_offsets(3, &tiles);
    assert!(
        offsets
            == vec![
                TileImageOffset { tileset_index: 3, tile_id: 4, offset: 0 },
                TileImageOffset { tileset_index: 3, tile_id: 9, offset: 1 },
            ]
    );
    assert_eq!(find_offset(&offsets, 3, 9), Some(1));
    assert_eq!(find_offset(&offsets, 3, 2), None);
    assert_eq!(find_offset(&offsets, 0, 4), None);
    assert!(offsets[0].tile_id != offsets[1].tile_id);
}

#[test]
fn layer_rows_are_turned_over() {
    // Two columns, two rows; the top row holds tile 5 at the left.
    let grid = FiniteTileGrid { width: 2, height: 2, tiles: vec![tile(0, 5), None, tile(1, 6), tile(0, 7)] };
    let placed = layer_tile_placements(&grid, 2, 2, 0, TextureKind::Single, &Vec::new());
    assert_eq!(placed.len(), 2);
    assert_eq!((placed[0].x, placed[0].y, placed[0].texture_index), (0, 1, 5));
    assert!(placed[0].flip_y && !placed[0].flip_x && !placed[0].flip_d);
    assert_eq!((placed[1].x, placed[1].y, placed[1].texture_index), (1, 0, 7));
    let other = layer_tile_placements(&grid, 2, 2, 1, TextureKind::Single, &Vec::new());
    assert_eq!(other.len(), 1);
    assert_eq!((other[0].x, other[0].y, other[0].texture_index), (0, 0, 6));
}

#[test]
fn per_tile_images_use_offsets() {
    let grid = FiniteTileGrid { width: 2, height: 1, tiles: vec![tile(0, 4), tile(0, 9)] };
    let offsets = vec![
        TileImageOffset { tileset_index: 0, tile_id: 4, offset: 0 },
        TileImageOffset { tileset_index: 0, tile_id: 9, offset: 1 },
    ];
    let placed = layer_tile_placements(&grid, 2, 1, 0, TextureKind::Vector, &offsets);
    assert_eq!(placed.len(), 2);
    assert_eq!((placed[0].x, placed[0].y, placed[0].texture_index), (0, 0, 0));
    assert_eq!((placed[1].x, placed[1].y, placed[1].texture_index), (1, 0, 1));
}

#[test]
fn cells_outside_the_layer_are_empty() {
    let grid = FiniteTileGrid { width: 1, height: 1, tiles: vec![tile(0, 3)] };
    assert_eq!(grid.get_tile(0, 0).map(|t| t.id), Some(3));
    assert!(grid.get_tile(1, 0).is_none());
    // The map is taller than the layer: its top row lies off the layer.
    let placed = layer_tile_placements(&grid, 1, 2, 0, TextureKind::Single, &Vec::new());
    assert_eq!(placed.len(), 1);
    assert_eq!((placed[0].x, placed[0].y), (0, 1));
}

#[test]
fn offset_check_finds_missing_offsets() {
    let grid = FiniteTileGrid { width: 2, height: 1, tiles: vec![tile(0, 4), tile(1, 9)] };
    let offsets = vec![TileImageOffset { tileset_index: 0, tile_id: 4, offset: 0 }];
    assert!(offsets_complete(&grid, 2, 1, 0, TextureKind::Vector, &offsets));
    assert!(!offsets_complete(&grid, 2, 1, 1, TextureKind::Vector, &offsets));
    assert!(offsets_complete(&grid, 2, 1, 1, TextureKind::Single, &offsets));
}
