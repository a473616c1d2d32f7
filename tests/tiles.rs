use std::cell::Cell;

use skipngo::geometry::{Vec2, Vec3};
use skipngo::tiles::{
    AlphaSource, LdtkMapTilesetTileCacheItem, CollisionShape, DamageRegion, DamageRegionKnockBack, Tessellation,
    TessellationRequest, TileBuild, LdtkMapTilesetTileCache, TilesetDef, TilesetInfo, TilesetTile,
    TilesetTileCollisionMode, TilesetTileMetadata,
};

fn info() -> TilesetInfo {
    TilesetInfo { uid: 1, columns: 4, grid_size: 16 }
}

fn meta(collision: TilesetTileCollisionMode) -> Option<TilesetTileMetadata> {
    Some(TilesetTileMetadata { collision, damage_region: None })
}

fn square() -> Vec<Vec2> {
    vec![
        Vec2 { x: -4, y: -4 },
        Vec2 { x: 4, y: -4 },
        Vec2 { x: 4, y: 4 },
        Vec2 { x: -4, y: 4 },
    ]
}

#[test]
fn get_or_build_twice_traces_once() {
    let calls = Cell::new(0u32);
    let trace = |_q: TessellationRequest| {
        calls.set(calls.get() + 1);
        Tessellation::Polygon(square())
    };
    let mut cache = LdtkMapTilesetTileCache::new();
    let m = meta(TilesetTileCollisionMode::FromAlpha);
    let first = cache.get_or_build(info(), 5, &m, &trace);
    let second = cache.get_or_build(info(), 5, &m, &trace);
    let expected = TileBuild::Ready(Some(LdtkMapTilesetTileCacheItem {
        collision_shape: CollisionShape::ConvexPolygon { vertices: square() },
        damage_region: None,
    }));
    assert_eq!(first, expected);
    assert_eq!(second, expected);
    assert_eq!(calls.get(), 1);
}

#[test]
fn full_tile_is_half_cell_box() {
    let trace = |_q: TessellationRequest| -> Tessellation { panic!("a full tile is not traced") };
    let mut cache = LdtkMapTilesetTileCache::new();
    let r = cache.get_or_build(info(), 0, &meta(TilesetTileCollisionMode::Full), &trace);
    // Half extents are in half pixels: 16 half pixels is 8 pixels.
    assert_eq!(
        r,
        TileBuild::Ready(Some(LdtkMapTilesetTileCacheItem {
            collision_shape: CollisionShape::Cuboid { half_extent: Vec3 { x: 16, y: 16, z: 0 } },
            damage_region: None,
        }))
    );
    assert!(cache.get(1, 0).is_some());
}

#[test]
fn no_collision_and_unparsed_tiles_have_no_entry() {
    let trace = |_q: TessellationRequest| Tessellation::Polygon(square());
    let mut cache = LdtkMapTilesetTileCache::new();
    assert_eq!(
        cache.get_or_build(info(), 1, &meta(TilesetTileCollisionMode::NoCollision), &trace),
        TileBuild::Ready(None)
    );
    assert_eq!(cache.get_or_build(info(), 2, &None, &trace), TileBuild::Ready(None));
    assert!(cache.get(1, 1).is_none());
    assert!(cache.get(1, 2).is_none());
}

#[test]
fn transparent_tile_has_no_entry() {
    let trace = |_q: TessellationRequest| Tessellation::Empty;
    let mut cache = LdtkMapTilesetTileCache::new();
    let r = cache.get_or_build(info(), 3, &meta(TilesetTileCollisionMode::FromAlpha), &trace);
    assert_eq!(r, TileBuild::Ready(None));
    let two_points = |_q: TessellationRequest| {
        Tessellation::Polygon(vec![Vec2 { x: 0, y: 0 }, Vec2 { x: 1, y: 1 }])
    };
    let r = cache.get_or_build(info(), 4, &meta(TilesetTileCollisionMode::FromAlpha), &two_points);
    assert_eq!(r, TileBuild::Ready(None));
}

#[test]
fn reference_tile_asks_for_its_square() {
    let seen = std::cell::RefCell::new(Vec::new());
    let trace = |q: TessellationRequest| {
        seen.borrow_mut().push(q);
        Tessellation::Polygon(square())
    };
    let mut cache = LdtkMapTilesetTileCache::new();
    let m = meta(TilesetTileCollisionMode::FromAlphaReference { tileset: "ref.png".to_string() });
    cache.get_or_build(info(), 5, &m, &trace);
    let seen = seen.into_inner();
    assert_eq!(
        seen,
        vec![TessellationRequest {
            tileset_uid: 1,
            source: AlphaSource::Reference { path: "ref.png".to_string() },
            x: 16,
            y: 16,
            size: 16,
        }]
    );
}

#[test]
fn missing_image_defers_and_keeps_cache() {
    let trace = |_q: TessellationRequest| Tessellation::ImageMissing;
    let mut cache = LdtkMapTilesetTileCache::new();
    let r = cache.get_or_build(info(), 6, &meta(TilesetTileCollisionMode::FromAlpha), &trace);
    assert_eq!(r, TileBuild::Deferred);
    assert!(cache.get(1, 6).is_none());
}

#[test]
fn build_all_is_all_or_nothing() {
    let damage = DamageRegion {
        damage: 2,
        knock_back: DamageRegionKnockBack { speed: 800, force_duration_ms: 40, freeze_duration_ms: 180 },
    };
    let tilesets = vec![TilesetDef {
        info: info(),
        tiles: vec![
            TilesetTile {
                tile_id: 0,
                metadata: Some(TilesetTileMetadata {
                    collision: TilesetTileCollisionMode::Full,
                    damage_region: Some(damage),
                }),
            },
            TilesetTile {
                tile_id: 1,
                metadata: meta(TilesetTileCollisionMode::FromAlphaReference {
                    tileset: "ref.png".to_string(),
                }),
            },
        ],
    }];
    let loaded = Cell::new(false);
    let trace = |q: TessellationRequest| match q.source {
        AlphaSource::Reference { .. } if !loaded.get() => Tessellation::ImageMissing,
        _ => Tessellation::Polygon(square()),
    };
    let mut cache = LdtkMapTilesetTileCache::new();
    assert!(!cache.build_all(&tilesets, &trace));
    assert!(cache.get(1, 0).is_none());
    loaded.set(true);
    assert!(cache.build_all(&tilesets, &trace));
    assert_eq!(cache.get(1, 0).unwrap().damage_region, Some(damage));
    assert_eq!(
        cache.get(1, 1).unwrap().collision_shape,
        CollisionShape::ConvexPolygon { vertices: square() }
    );
}

#[test]
fn clear_empties_cache() {
    let trace = |_q: TessellationRequest| Tessellation::Empty;
    let mut cache = LdtkMapTilesetTileCache::new();
    cache.get_or_build(info(), 0, &meta(TilesetTileCollisionMode::Full), &trace);
    cache.clear();
    assert!(cache.get(1, 0).is_none());
}

#[test]
fn negative_ids_are_distinct_keys() {
    let trace = |_q: TessellationRequest| Tessellation::Empty;
    let mut cache = LdtkMapTilesetTileCache::new();
    let neg = TilesetInfo { uid: -1, columns: 4, grid_size: 8 };
    cache.get_or_build(neg, 0, &meta(TilesetTileCollisionMode::Full), &trace);
    assert!(cache.get(-1, 0).is_some());
    assert!(cache.get(1, 0).is_none());
    assert!(cache.get(-1, -1).is_none());
}
