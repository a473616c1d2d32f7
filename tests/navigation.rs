use std::cell::Cell;

use skipngo::entrances::EnemySpawn;
use skipngo::geometry::{Vec2, Vec3};
use skipngo::level::{LayerInstance, Level};
use skipngo::navmesh::{
    PointGrid, Triangle, build_level_navmesh, grid_points, level_point_grid, prune_triangles,
    triangles_from_indices,
};
use skipngo::pathfinder::{active_enemies, chase_target};

fn level(px: i32, grid: i32) -> Level {
    Level {
        identifier: "l".to_string(),
        world_x: 10,
        world_y: 20,
        px_wid: px,
        px_hei: px,
        bg_color: None,
        music: None,
        layers: vec![LayerInstance {
            identifier: "Ground".to_string(),
            layer_type: "Tiles".to_string(),
            grid_size: grid,
            c_wid: px / grid,
            px_offset_x: 0,
            px_offset_y: 0,
            tileset_uid: None,
            tiles: vec![],
            int_grid: vec![],
            entities: vec![],
        }],
    }
}

#[test]
fn grid_covers_level_column_by_column() {
    let g = level_point_grid(&level(32, 16)).unwrap();
    assert_eq!(g, PointGrid { origin: Vec2 { x: 36, y: 56 }, spacing: 32, columns: 2, rows: 2 });
    let pts = grid_points(&g);
    assert_eq!(pts.len(), 9);
    assert_eq!(pts[0], Vec2 { x: 36, y: 56 });
    assert_eq!(pts[1], Vec2 { x: 36, y: 88 });
    assert_eq!(pts[3], Vec2 { x: 68, y: 56 });
    assert_eq!(pts[8], Vec2 { x: 100, y: 120 });
}

#[test]
fn level_without_layers_has_no_grid() {
    let mut lv = level(32, 16);
    lv.layers.clear();
    assert_eq!(level_point_grid(&lv), None);
    let triangulate = |_p: Vec<Vec2>| -> Option<Vec<u32>> { Some(vec![]) };
    let probe = |_a: Vec2, _b: Vec2| true;
    assert!(build_level_navmesh(&lv, &triangulate, &probe).is_none());
}

#[test]
fn indices_group_into_triangles() {
    let t = triangles_from_indices(&vec![0, 1, 2, 2, 1, 3, 7]);
    assert_eq!(
        t,
        vec![
            Triangle { first: 0, second: 1, third: 2 },
            Triangle { first: 2, second: 1, third: 3 },
        ]
    );
}

#[test]
fn triangle_across_obstacle_is_pruned() {
    // Points 0..4 of a square; the edge between 1 and 3 crosses a wall.
    let points = vec![
        Vec2 { x: 0, y: 0 },
        Vec2 { x: 10, y: 0 },
        Vec2 { x: 0, y: 10 },
        Vec2 { x: 10, y: 10 },
    ];
    let tris = vec![
        Triangle { first: 0, second: 1, third: 2 },
        Triangle { first: 3, second: 1, third: 2 },
        Triangle { first: 1, second: 3, third: 0 },
        Triangle { first: 0, second: 2, third: 9 },
    ];
    let calls = Cell::new(0u32);
    let probe = |a: Vec2, b: Vec2| {
        calls.set(calls.get() + 1);
        !((a == points[1] && b == points[3]) || (a == points[3] && b == points[1]))
    };
    let kept = prune_triangles(&points, &tris, &probe);
    assert_eq!(kept, vec![Triangle { first: 0, second: 1, third: 2 }]);
    // Edges (0,1) (0,2) (1,2) (1,3); (2,3) is never probed because (1,3)
    // is probed first and blocked; (0,3) likewise.
    assert_eq!(calls.get(), 4);
}

#[test]
fn open_level_keeps_every_triangle() {
    let lv = level(16, 16);
    let triangulate = |pts: Vec<Vec2>| -> Option<Vec<u32>> {
        assert_eq!(pts.len(), 4);
        Some(vec![0, 1, 2, 1, 3, 2])
    };
    let probe = |_a: Vec2, _b: Vec2| true;
    let mesh = build_level_navmesh(&lv, &triangulate, &probe).unwrap();
    assert_eq!(mesh.vertices.len(), 4);
    assert_eq!(mesh.triangles.len(), 2);
    let failing = |_pts: Vec<Vec2>| -> Option<Vec<u32>> { None };
    assert!(build_level_navmesh(&lv, &failing, &probe).is_none());
}

#[test]
fn enemy_chases_player_directly_or_by_path() {
    let enemy = Vec2 { x: 0, y: 0 };
    let player = Vec2 { x: 50, y: 0 };
    assert_eq!(chase_target(enemy, player, true, &None), Some(player));
    let path = Some(vec![enemy, Vec2 { x: 0, y: 10 }, player]);
    assert_eq!(chase_target(enemy, player, false, &path), Some(Vec2 { x: 0, y: 10 }));
    assert_eq!(chase_target(enemy, player, false, &None), None);
    assert_eq!(chase_target(enemy, player, false, &Some(vec![enemy])), None);
    assert_eq!(chase_target(enemy, enemy, true, &None), None);
}

#[test]
fn only_enemies_of_current_level_move() {
    let enemies = vec![
        EnemySpawn { level: "a".to_string(), position: Vec3 { x: 0, y: 0, z: 100 } },
        EnemySpawn { level: "b".to_string(), position: Vec3 { x: 0, y: 0, z: 100 } },
        EnemySpawn { level: "a".to_string(), position: Vec3 { x: 1, y: 0, z: 100 } },
    ];
    assert_eq!(active_enemies(&enemies, &"a".to_string()), vec![0, 2]);
    assert!(active_enemies(&enemies, &"c".to_string()).is_empty());
}
