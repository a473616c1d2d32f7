use skipngo::entrances::{
    player_start,
    CatalogError, EnemySpawn, EntranceField, map_enemy_spawns, read_map_entrances, parse_entrance,
};
use skipngo::geometry::{Aabb, Vec2, Vec3};
use skipngo::level::{EntityInstance, FieldInstance, LayerInstance, Level, TileInstance};
use skipngo::map_state::MapRuntimeState;
use skipngo::movement::resolve_movement;
use skipngo::spawner::{CollisionBody, find_companion, spawn_level_collisions, map_collision_bodies};
use skipngo::tiles::{
    CollisionShape, Tessellation, TessellationRequest, LdtkMapTilesetTileCache, TilesetDef, TilesetInfo,
    TilesetTile, TilesetTileCollisionMode, TilesetTileMetadata,
};

fn field(name: &str, value: &str) -> FieldInstance {
    FieldInstance { identifier: name.to_string(), value: Some(value.to_string()) }
}

fn layer(name: &str, kind: &str) -> LayerInstance {
    LayerInstance {
        identifier: name.to_string(),
        layer_type: kind.to_string(),
        grid_size: 16,
        c_wid: 16,
        px_offset_x: 0,
        px_offset_y: 0,
        tileset_uid: None,
        tiles: vec![],
        int_grid: vec![],
        entities: vec![],
    }
}

fn level(name: &str, layers: Vec<LayerInstance>) -> Level {
    Level {
        identifier: name.to_string(),
        world_x: 0,
        world_y: 0,
        px_wid: 256,
        px_hei: 256,
        bg_color: None,
        music: None,
        layers,
    }
}

fn full_tileset() -> Vec<TilesetDef> {
    vec![TilesetDef {
        info: TilesetInfo { uid: 1, columns: 4, grid_size: 16 },
        tiles: vec![TilesetTile {
            tile_id: 0,
            metadata: Some(TilesetTileMetadata {
                collision: TilesetTileCollisionMode::Full,
                damage_region: None,
            }),
        }],
    }]
}

fn no_trace(_q: TessellationRequest) -> Tessellation {
    Tessellation::Empty
}

fn built_cache() -> LdtkMapTilesetTileCache {
    let mut cache = LdtkMapTilesetTileCache::new();
    assert!(cache.build_all(&full_tileset(), &no_trace));
    cache
}

fn tile_at(gx: i32, gy: i32) -> TileInstance {
    TileInstance { px_x: gx * 16, px_y: gy * 16, tile_id: 0 }
}

fn entrance(id: &str, to: &str, spawn_at: &str, px_x: i32, px_y: i32) -> EntityInstance {
    EntityInstance {
        identifier: "Entrance".to_string(),
        px_x,
        px_y,
        width: 16,
        height: 16,
        fields: vec![field("id", id), field("to", to), field("spawn_at", spawn_at)],
    }
}

#[test]
fn tile_body_sits_at_tile_centre() {
    let mut walls = layer("Walls", "Tiles");
    walls.tileset_uid = Some(1);
    walls.px_offset_x = 4;
    walls.tiles = vec![tile_at(2, 3)];
    let mut lv = level("start", vec![walls]);
    lv.world_x = 100;
    lv.world_y = -50;
    let mut out = Vec::new();
    spawn_level_collisions(&lv, &built_cache(), &mut out);
    // (100 + 4 + 32) px plus half a cell, in half pixels.
    assert_eq!(
        out,
        vec![CollisionBody {
            position: Vec3 { x: 2 * 136 + 16, y: 2 * (-50 + 48) + 16, z: 0 },
            shape: CollisionShape::Cuboid { half_extent: Vec3 { x: 16, y: 16, z: 0 } },
            damage_region: None,
        }]
    );
}

#[test]
fn masked_tile_is_not_spawned() {
    let mut walls = layer("Walls", "Tiles");
    walls.tileset_uid = Some(1);
    walls.tiles = vec![tile_at(1, 0), tile_at(2, 0)];
    let mut mask = layer("WallsNoCollision", "IntGrid");
    mask.int_grid = vec![0; 256];
    mask.int_grid[1] = 1;
    let lv = level("start", vec![walls, mask]);
    assert_eq!(find_companion(&lv, 0), Some(1));
    assert_eq!(find_companion(&lv, 1), None);
    let bodies = map_collision_bodies(&vec![lv], &built_cache());
    assert_eq!(bodies.len(), 1);
    assert_eq!(bodies[0].position, Vec3 { x: 2 * 32 + 16, y: 16, z: 0 });
}

#[test]
fn tile_without_cache_entry_or_tileset_is_skipped() {
    let mut walls = layer("Walls", "Tiles");
    walls.tileset_uid = Some(1);
    walls.tiles = vec![TileInstance { px_x: 0, px_y: 0, tile_id: 9 }];
    let mut deco = layer("Deco", "Tiles");
    deco.tiles = vec![tile_at(0, 0)];
    let lv = level("start", vec![walls, deco]);
    let bodies = map_collision_bodies(&vec![lv], &built_cache());
    assert!(bodies.is_empty());
}

#[test]
fn actor_stops_against_border_tile() {
    // A 16 by 16 level of Full tiles on its border, plus the tile at (6, 5).
    let mut walls = layer("Walls", "Tiles");
    walls.tileset_uid = Some(1);
    for i in 0..16 {
        walls.tiles.push(tile_at(i, 0));
        walls.tiles.push(tile_at(i, 15));
        walls.tiles.push(tile_at(0, i));
        walls.tiles.push(tile_at(15, i));
    }
    walls.tiles.push(tile_at(6, 5));
    let lv = level("start", vec![walls]);
    let bodies = map_collision_bodies(&vec![lv], &built_cache());
    let boxes: Vec<Aabb> = bodies.iter().map(|b| b.bounds().unwrap()).collect();
    // The actor fills grid cell (5, 5): pixels 80..96 on each axis.
    let actor = Aabb { min: Vec2 { x: 160, y: 160 }, max: Vec2 { x: 192, y: 192 } };
    let step = resolve_movement(&actor, Vec2 { x: 1, y: 0 }, &vec![boxes.clone()], 1);
    assert_eq!(step, Vec2 { x: 0, y: 0 });
    let free = resolve_movement(&actor, Vec2 { x: -1, y: 0 }, &vec![boxes], 1);
    assert_eq!(free, Vec2 { x: -1, y: 0 });
}

#[test]
fn entrance_sensor_is_shrunk_and_centred() {
    let mut ents = layer("Entities", "Entities");
    ents.px_offset_y = 8;
    ents.entities = vec![entrance("a", "second", "b", 32, 48)];
    let mut lv = level("first", vec![ents]);
    lv.world_x = 1000;
    let sensors = read_map_entrances(&vec![lv]).unwrap();
    assert_eq!(sensors.len(), 1);
    let s = &sensors[0];
    assert_eq!(s.entrance.id, "a");
    assert_eq!(s.entrance.level, "first");
    assert_eq!(s.entrance.to_level, "second");
    assert_eq!(s.entrance.spawn_at, "b");
    assert_eq!(s.position, Vec3 { x: 2 * 1032 + 16, y: 2 * 56 + 16, z: 0 });
    // 16 px / 2.2 is about 7.27 px: 14 half pixels.
    assert_eq!(s.half_extent, Vec3 { x: 14, y: 14, z: 0 });
}

#[test]
fn entrances_only_on_entity_layers() {
    let mut tiles = layer("Ground", "Tiles");
    tiles.entities = vec![entrance("x", "y", "z", 0, 0)];
    let mut ents = layer("Entities", "Entities");
    ents.entities = vec![
        EntityInstance {
            identifier: "SpawnPoint".to_string(),
            px_x: 0,
            px_y: 0,
            width: 16,
            height: 16,
            fields: vec![field("name", "PlayerStart")],
        },
        entrance("a", "b", "c", 0, 0),
    ];
    let sensors = read_map_entrances(&vec![level("l", vec![tiles, ents])]).unwrap();
    assert_eq!(sensors.len(), 1);
    assert_eq!(sensors[0].entrance.id, "a");
}

#[test]
fn entrance_missing_field_is_an_error() {
    let mut e = entrance("a", "b", "c", 0, 0);
    e.fields.remove(1);
    assert_eq!(
        parse_entrance(&e, &"l".to_string()),
        Err(CatalogError::MissingField(EntranceField::To))
    );
    let mut e = entrance("a", "b", "c", 0, 0);
    e.fields[2].value = None;
    assert_eq!(
        parse_entrance(&e, &"l".to_string()),
        Err(CatalogError::NotText(EntranceField::SpawnAt))
    );
    let mut ents = layer("Entities", "Entities");
    let mut bad = entrance("a", "b", "c", 0, 0);
    bad.fields.clear();
    ents.entities = vec![bad];
    assert_eq!(
        read_map_entrances(&vec![level("l", vec![ents])]).unwrap_err(),
        CatalogError::MissingField(EntranceField::Id)
    );
}

#[test]
fn enemies_are_collected_per_level() {
    let mut ents = layer("Entities", "Entities");
    ents.px_offset_x = 2;
    ents.entities = vec![
        EntityInstance {
            identifier: "Enemy".to_string(),
            px_x: 10,
            px_y: 20,
            width: 8,
            height: 8,
            fields: vec![],
        },
        entrance("a", "b", "c", 0, 0),
    ];
    let enemies = map_enemy_spawns(&vec![level("cave", vec![ents])]);
    assert_eq!(
        enemies,
        vec![EnemySpawn { level: "cave".to_string(), position: Vec3 { x: 24, y: 40, z: 100 } }]
    );
}

#[test]
fn map_state_runs_pipeline_in_order() {
    let mut walls = layer("Walls", "Tiles");
    walls.tileset_uid = Some(1);
    walls.tiles = vec![tile_at(0, 0)];
    let mut ents = layer("Entities", "Entities");
    ents.entities = vec![entrance("a", "start", "a", 16, 16)];
    let levels = vec![level("start", vec![walls, ents])];
    let mut state = MapRuntimeState::new("start".to_string());
    assert!(!state.navmesh_due());
    assert!(state.spawn_map_collisions(&levels, &full_tileset(), &no_trace));
    assert_eq!(state.bodies.len(), 1);
    state.spawn_map_entrances(&levels);
    assert!(!state.navmesh_due());
    state.spawn_map_enemies(&levels);
    assert!(state.navmesh_due());
    let triangulate = |_pts: Vec<Vec2>| -> Option<Vec<u32>> { None };
    let probe = |_a: Vec2, _b: Vec2| true;
    assert!(state.generate_map_navigation_mesh(&levels, &triangulate, &probe));
    assert!(!state.navmesh_due());
    assert_eq!(state.navmeshes.as_ref().unwrap().len(), 1);
    assert!(state.navmeshes.as_ref().unwrap()[0].is_none());
    state.invalidate();
    assert!(!state.collisions_loaded && state.bodies.is_empty() && state.navmeshes.is_none());
    assert_eq!(state.current_level, "start");
}

#[test]
fn map_state_waits_for_missing_image() {
    let tilesets = vec![TilesetDef {
        info: TilesetInfo { uid: 1, columns: 4, grid_size: 16 },
        tiles: vec![TilesetTile {
            tile_id: 0,
            metadata: Some(TilesetTileMetadata {
                collision: TilesetTileCollisionMode::FromAlpha,
                damage_region: None,
            }),
        }],
    }];
    let missing = |_q: TessellationRequest| Tessellation::ImageMissing;
    let mut state = MapRuntimeState::new("start".to_string());
    assert!(!state.spawn_map_collisions(&vec![], &tilesets, &missing));
    assert!(!state.collisions_loaded);
    assert!(state.tile_cache.get(1, 0).is_none());
}

#[test]
fn player_starts_at_spawn_point() {
    let empty = layer("Ground", "Tiles");
    let mut ents = layer("Entities", "Entities");
    ents.entities = vec![
        EntityInstance {
            identifier: "SpawnPoint".to_string(),
            px_x: 1,
            px_y: 1,
            width: 16,
            height: 16,
            fields: vec![field("name", "Other")],
        },
        EntityInstance {
            identifier: "SpawnPoint".to_string(),
            px_x: 40,
            px_y: 24,
            width: 16,
            height: 16,
            fields: vec![field("name", "PlayerStart")],
        },
    ];
    let mut lv = level("start", vec![empty, ents]);
    lv.world_x = 100;
    assert_eq!(player_start(&lv), Some(Vec3 { x: 280, y: 48, z: 4 }));
    lv.layers[1].entities.remove(1);
    assert_eq!(player_start(&lv), None);
}

#[test]
fn hot_reload_clears_one_part() {
    let mut walls = layer("Walls", "Tiles");
    walls.tileset_uid = Some(1);
    walls.tiles = vec![tile_at(0, 0)];
    let mut ents = layer("Entities", "Entities");
    ents.entities = vec![entrance("a", "start", "a", 16, 16)];
    let levels = vec![level("start", vec![walls, ents])];
    let mut state = MapRuntimeState::new("start".to_string());
    assert!(state.spawn_map_collisions(&levels, &full_tileset(), &no_trace));
    state.spawn_map_entrances(&levels);
    state.hot_reload_map_entrances();
    assert!(!state.entrances_loaded && state.entrances.is_empty());
    assert!(state.collisions_loaded && state.bodies.len() == 1);
    state.hot_reload_map_collisions();
    assert!(!state.collisions_loaded && state.bodies.is_empty());
    assert!(state.tile_cache.get(1, 0).is_none());
}
