use skipngo::color::{Rgb, background_color};
use skipngo::entrances::Entrance;
use skipngo::geometry::Vec3;
use skipngo::level::{EntityInstance, FieldInstance, LayerInstance, Level};
use skipngo::map_state::MapRuntimeState;
use skipngo::teleport::{
    EntranceStatus, MusicChange, OverlapEvent, OverlapPhase, Teleport, can_teleport, change_music,
    find_level, plan_teleport,
};

fn door(id: &str, level: &str, to: &str, spawn_at: &str) -> Entrance {
    Entrance {
        id: id.to_string(),
        level: level.to_string(),
        to_level: to.to_string(),
        spawn_at: spawn_at.to_string(),
    }
}

fn entity(id: &str, px_x: i32, px_y: i32) -> EntityInstance {
    EntityInstance {
        identifier: "Entrance".to_string(),
        px_x,
        px_y,
        width: 16,
        height: 32,
        fields: vec![FieldInstance { identifier: "id".to_string(), value: Some(id.to_string()) }],
    }
}

fn level(name: &str, world_x: i32, entities: Vec<EntityInstance>, layers: usize) -> Level {
    let mut ls = Vec::new();
    for i in 0..layers {
        ls.push(LayerInstance {
            identifier: format!("L{}", i),
            layer_type: "Entities".to_string(),
            grid_size: 16,
            c_wid: 4,
            px_offset_x: 0,
            px_offset_y: 0,
            tileset_uid: None,
            tiles: vec![],
            int_grid: vec![],
            entities: if i == 0 { entities.clone_entities() } else { vec![] },
        });
    }
    Level {
        identifier: name.to_string(),
        world_x,
        world_y: 0,
        px_wid: 64,
        px_hei: 64,
        bg_color: None,
        music: None,
        layers: ls,
    }
}

trait CloneEntities {
    fn clone_entities(&self) -> Vec<EntityInstance>;
}

impl CloneEntities for Vec<EntityInstance> {
    fn clone_entities(&self) -> Vec<EntityInstance> {
        self.iter()
            .map(|e| EntityInstance {
                identifier: e.identifier.clone(),
                px_x: e.px_x,
                px_y: e.px_y,
                width: e.width,
                height: e.height,
                fields: e
                    .fields
                    .iter()
                    .map(|f| FieldInstance { identifier: f.identifier.clone(), value: f.value.clone() })
                    .collect(),
            })
            .collect()
    }
}

#[test]
fn facing_entrances_do_not_bounce() {
    let a = door("A", "L1", "L2", "B");
    let b = door("B", "L2", "L1", "A");
    let mut status = EntranceStatus::default();
    assert_eq!(status, EntranceStatus::Outside);
    assert!(status.on_overlap(&a, OverlapPhase::Started));
    assert_eq!(
        status,
        EntranceStatus::TeleportingTo { entrance_id: "B".to_string(), level_id: "L2".to_string() }
    );
    assert!(!status.on_overlap(&b, OverlapPhase::Started));
    assert!(!status.on_overlap(&a, OverlapPhase::Stopped));
    assert!(matches!(status, EntranceStatus::TeleportingTo { .. }));
    assert!(!status.on_overlap(&b, OverlapPhase::Stopped));
    assert_eq!(status, EntranceStatus::Outside);
}

#[test]
fn leaving_while_outside_does_nothing() {
    let a = door("A", "L1", "L2", "B");
    let mut status = EntranceStatus::Outside;
    assert!(!status.on_overlap(&a, OverlapPhase::Stopped));
    assert_eq!(status, EntranceStatus::Outside);
}

#[test]
fn overlap_events_are_handled_in_order() {
    let doors = vec![door("A", "L1", "L2", "B"), door("B", "L2", "L1", "A")];
    let events = vec![
        OverlapEvent { entrance: 0, phase: OverlapPhase::Started },
        OverlapEvent { entrance: 1, phase: OverlapPhase::Started },
        OverlapEvent { entrance: 0, phase: OverlapPhase::Stopped },
        OverlapEvent { entrance: 1, phase: OverlapPhase::Stopped },
        OverlapEvent { entrance: 1, phase: OverlapPhase::Started },
    ];
    let mut status = EntranceStatus::Outside;
    let teleports = status.on_overlaps(&doors, &events);
    assert_eq!(teleports, vec![0, 1]);
    assert_eq!(
        status,
        EntranceStatus::TeleportingTo { entrance_id: "A".to_string(), level_id: "L1".to_string() }
    );
}

#[test]
fn teleport_lands_on_target_centre() {
    let levels = vec![
        level("L1", 0, vec![entity("A", 16, 16)], 3),
        level("L2", 512, vec![entity("X", 0, 0), entity("B", 32, 48)], 1),
    ];
    let a = door("A", "L1", "L2", "B");
    assert_eq!(find_level(&levels, &"L2".to_string()), Some(1));
    let t = plan_teleport(&levels, 0, &a).unwrap();
    // Centre of B: (512 + 32 + 8, 48 + 16) px in half pixels; z above L1's three layers.
    assert_eq!(t, Teleport { level: 1, position: Vec3 { x: 2 * 544 + 16, y: 2 * 48 + 32, z: 6 } });
}

#[test]
fn teleport_to_missing_target_is_none() {
    let levels = vec![level("L1", 0, vec![entity("A", 0, 0)], 1)];
    assert_eq!(plan_teleport(&levels, 0, &door("A", "L1", "L9", "B")), None);
    assert_eq!(plan_teleport(&levels, 0, &door("A", "L1", "L1", "Q")), None);
}

#[test]
fn music_changes_only_when_needed() {
    let (c, now) = change_music(&Some("a.ogg".to_string()), &Some("b.ogg".to_string()));
    assert_eq!(c, MusicChange { stop_current: true, play: Some("b.ogg".to_string()) });
    assert_eq!(now, Some("b.ogg".to_string()));
    let (c, now) = change_music(&Some("a.ogg".to_string()), &Some("a.ogg".to_string()));
    assert_eq!(c, MusicChange { stop_current: false, play: None });
    assert_eq!(now, Some("a.ogg".to_string()));
    let (c, now) = change_music(&Some("a.ogg".to_string()), &Some("none".to_string()));
    assert_eq!(c, MusicChange { stop_current: true, play: None });
    assert_eq!(now, None);
    let (c, now) = change_music(&None, &Some("b.ogg".to_string()));
    assert_eq!(c, MusicChange { stop_current: false, play: Some("b.ogg".to_string()) });
    assert_eq!(now, Some("b.ogg".to_string()));
    let (c, now) = change_music(&Some("a.ogg".to_string()), &None);
    assert_eq!(c, MusicChange { stop_current: false, play: None });
    assert_eq!(now, Some("a.ogg".to_string()));
}

#[test]
fn background_colour_from_level_or_default() {
    let default = "#102030".to_string();
    assert_eq!(background_color(&None, &default), Some(Rgb { r: 16, g: 32, b: 48 }));
    assert_eq!(
        background_color(&Some("#0aFf7F".to_string()), &default),
        Some(Rgb { r: 10, g: 255, b: 127 })
    );
    assert_eq!(background_color(&Some("0aff7f".to_string()), &default), None);
    assert_eq!(background_color(&Some("#0aff7".to_string()), &default), None);
    assert_eq!(background_color(&Some("#0aff7g".to_string()), &default), None);
    assert_eq!(background_color(&Some("#0aff".to_string()), &default), None);
}

#[test]
fn switching_level_updates_state() {
    let mut l2 = level("L2", 512, vec![entity("B", 32, 48)], 1);
    l2.music = Some("cave.ogg".to_string());
    l2.bg_color = Some("#000010".to_string());
    let levels = vec![level("L1", 0, vec![entity("A", 16, 16)], 2), l2];
    let a = door("A", "L1", "L2", "B");
    let b = door("B", "L2", "L1", "A");
    let white = "#ffffff".to_string();
    let mut state = MapRuntimeState::new("L1".to_string());
    state.music = Some("field.ogg".to_string());
    let mut status = EntranceStatus::Outside;
    assert!(can_teleport(&levels, &state.current_level, &a));
    assert!(status.would_teleport(OverlapPhase::Started));
    let sw = state.change_level(&mut status, &a, OverlapPhase::Started, &levels, &white).unwrap();
    assert_eq!(sw.teleport, Teleport { level: 1, position: Vec3 { x: 2 * 544 + 16, y: 2 * 48 + 32, z: 4 } });
    assert_eq!(sw.music, MusicChange { stop_current: true, play: Some("cave.ogg".to_string()) });
    assert_eq!(sw.background, Some(Rgb { r: 0, g: 0, b: 16 }));
    assert_eq!(state.current_level, "L2");
    assert_eq!(state.music, Some("cave.ogg".to_string()));
    assert_eq!(
        status,
        EntranceStatus::TeleportingTo { entrance_id: "B".to_string(), level_id: "L2".to_string() }
    );
    // Arriving inside B does not teleport again; leaving B ends the teleport.
    assert!(!status.would_teleport(OverlapPhase::Started));
    assert!(state.change_level(&mut status, &b, OverlapPhase::Started, &levels, &white).is_none());
    assert_eq!(state.current_level, "L2");
    assert!(state.change_level(&mut status, &b, OverlapPhase::Stopped, &levels, &white).is_none());
    assert_eq!(status, EntranceStatus::Outside);
    let back = state.change_level(&mut status, &b, OverlapPhase::Started, &levels, &white).unwrap();
    assert_eq!(back.background, Some(Rgb { r: 255, g: 255, b: 255 }));
    assert_eq!(back.music, MusicChange { stop_current: false, play: None });
    assert_eq!(state.current_level, "L1");
}

#[test]
fn teleport_readiness_is_checked() {
    let levels = vec![level("L1", 0, vec![entity("A", 0, 0)], 1)];
    let current = "L1".to_string();
    assert!(can_teleport(&levels, &current, &door("A", "L1", "L1", "A")));
    assert!(!can_teleport(&levels, &current, &door("A", "L1", "L9", "A")));
    assert!(!can_teleport(&levels, &current, &door("A", "L1", "L1", "Q")));
    assert!(!can_teleport(&levels, &"L7".to_string(), &door("A", "L1", "L1", "A")));
}
