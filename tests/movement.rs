use skipngo::Health;
use skipngo::camera::follow_axis;
use skipngo::geometry::{Aabb, Vec2};
use skipngo::movement::{
    CharacterAnimationTimer, CharacterState, CharacterStateAction, CharacterStateDirection, ControlEvent, movement_from_events,
    resolve_movement, slide_step,
};

fn cell(gx: i64, gy: i64) -> Aabb {
    Aabb { min: Vec2 { x: gx * 32, y: gy * 32 }, max: Vec2 { x: gx * 32 + 32, y: gy * 32 + 32 } }
}

#[test]
fn diagonal_step_slides_along_one_axis() {
    let actor = cell(0, 0);
    // Only the diagonal neighbour blocks.
    let boxes = vec![Aabb { min: Vec2 { x: 33, y: 33 }, max: Vec2 { x: 64, y: 64 } }];
    let (d, stopped) = slide_step(&actor, Vec2 { x: 1, y: 1 }, &boxes);
    assert_eq!(d, Vec2 { x: 0, y: 1 });
    assert!(!stopped);
    assert_ne!(d, Vec2 { x: 1, y: 1 });
    assert_ne!(d, Vec2 { x: 0, y: 0 });
}

#[test]
fn blocked_both_ways_stops() {
    let actor = cell(0, 0);
    let boxes = vec![cell(1, 0), cell(0, 1)];
    assert_eq!(slide_step(&actor, Vec2 { x: 1, y: 1 }, &boxes), (Vec2 { x: 0, y: 0 }, true));
    let free = slide_step(&actor, Vec2 { x: -1, y: 0 }, &boxes);
    assert_eq!(free, (Vec2 { x: -1, y: 0 }, false));
}

#[test]
fn all_layers_block_together_and_diagonal_is_throttled() {
    let actor = cell(0, 0);
    let layers = vec![vec![cell(1, 0)], vec![cell(0, 1)]];
    assert_eq!(resolve_movement(&actor, Vec2 { x: 1, y: 1 }, &layers, 1), Vec2 { x: 0, y: 0 });
    assert_eq!(resolve_movement(&actor, Vec2 { x: -1, y: -1 }, &layers, 1), Vec2 { x: -1, y: -1 });
    assert_eq!(resolve_movement(&actor, Vec2 { x: -1, y: -1 }, &layers, 2), Vec2 { x: 0, y: 0 });
    assert_eq!(resolve_movement(&actor, Vec2 { x: -1, y: 0 }, &layers, 2), Vec2 { x: -1, y: 0 });
}

#[test]
fn control_events_count_once_each() {
    let events = vec![
        ControlEvent::MoveRight,
        ControlEvent::MoveRight,
        ControlEvent::MoveUp,
    ];
    assert_eq!(movement_from_events(&events), Vec2 { x: 1, y: -1 });
    let opposite = vec![ControlEvent::MoveLeft, ControlEvent::MoveRight, ControlEvent::MoveDown];
    assert_eq!(movement_from_events(&opposite), Vec2 { x: 0, y: 1 });
    assert_eq!(movement_from_events(&vec![]), Vec2 { x: 0, y: 0 });
}

#[test]
fn character_state_follows_movement() {
    let mut s = CharacterState::default();
    s.anim_frame_idx = 5;
    s.apply_movement(Vec2 { x: 0, y: 0 });
    assert_eq!(s.anim_frame_idx, 5);
    s.apply_movement(Vec2 { x: 1, y: 0 });
    assert_eq!(s.action, CharacterStateAction::Walk);
    assert_eq!(s.direction, CharacterStateDirection::Right);
    assert_eq!(s.anim_frame_idx, 0);
    s.anim_frame_idx = 3;
    s.apply_movement(Vec2 { x: 1, y: -1 });
    assert_eq!(s.direction, CharacterStateDirection::Right);
    assert_eq!(s.anim_frame_idx, 3);
    s.apply_movement(Vec2 { x: 0, y: -1 });
    assert_eq!(s.direction, CharacterStateDirection::Up);
}

#[test]
fn animation_frames_wrap() {
    let mut s = CharacterState::default();
    let frames = vec![7, 8];
    assert_eq!(s.next_frame(&frames), Some(7));
    assert_eq!(s.next_frame(&frames), Some(8));
    assert_eq!(s.next_frame(&frames), Some(7));
    s.anim_frame_idx = u32::MAX;
    assert_eq!(s.next_frame(&frames), Some(8));
    assert_eq!(s.anim_frame_idx, 0);
    assert_eq!(s.next_frame(&vec![]), None);
}

#[test]
fn damage_stops_at_zero() {
    let mut h = Health { current: 3, max: 5 };
    h.take_damage(1);
    assert_eq!(h.current, 2);
    h.take_damage(10);
    assert_eq!(h.current, 0);
    assert_eq!(h.max, 5);
}

#[test]
fn health_depleted_at_zero() {
    let mut h = Health { current: 1, max: 1 };
    assert!(!h.is_depleted());
    h.take_damage(1);
    assert!(h.is_depleted());
}

#[test]
fn animation_timer_repeats() {
    let mut t = CharacterAnimationTimer::new(100);
    assert!(!t.tick(60));
    assert_eq!(t.elapsed_ms, 60);
    assert!(t.tick(60));
    assert_eq!(t.elapsed_ms, 20);
    assert!(t.tick(250));
    assert_eq!(t.elapsed_ms, 70);
    let mut z = CharacterAnimationTimer::new(0);
    assert!(z.tick(0));
    assert_eq!(z.elapsed_ms, 0);
}

#[test]
fn camera_stays_inside_level() {
    // View 100 px wide over a level from 0 to 400 px.
    assert_eq!(follow_axis(200, 100, 0, 400), 200);
    assert_eq!(follow_axis(10, 100, 0, 400), 50);
    assert_eq!(follow_axis(390, 100, 0, 400), 350);
    // A level narrower than the view is not clamped.
    assert_eq!(follow_axis(10, 100, 0, 80), 10);
}

#[test]
fn each_step_is_tested_against_every_layer() {
    let actor = cell(0, 0);
    let diagonal_only = vec![Aabb { min: Vec2 { x: 33, y: 33 }, max: Vec2 { x: 64, y: 64 } }];
    let down_only = vec![Aabb { min: Vec2 { x: 0, y: 33 }, max: Vec2 { x: 31, y: 64 } }];
    // The step down is blocked by the second layer, the step right is free.
    let layers = vec![diagonal_only.clone(), down_only.clone()];
    assert_eq!(resolve_movement(&actor, Vec2 { x: 1, y: 1 }, &layers, 1), Vec2 { x: 1, y: 0 });
    // Same with the layers swapped: never the blocked step down.
    let swapped = vec![down_only, diagonal_only];
    assert_eq!(resolve_movement(&actor, Vec2 { x: 1, y: 1 }, &swapped, 1), Vec2 { x: 1, y: 0 });
}
