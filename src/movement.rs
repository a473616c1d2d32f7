//! Moving a controlled character through static collision boxes by whole
//! pixels, sliding along walls instead of stopping dead on them.
use vstd::prelude::*;

use crate::geometry::{Aabb, Vec2, aabb_ok};

verus! {

/// A direction of movement asked for by the player.
#[derive(Clone, Copy, Debug, PartialEq, Eq, Structural, Hash)]
pub enum ControlEvent {
    MoveUp,
    MoveDown,
    MoveLeft,
    MoveRight,
}

/// `d` with its `x` set to zero.
pub open spec fn without_x(d: Vec2) -> Vec2 {
    Vec2 { x: 0, y: d.y }
}

/// `d` with its `y` set to zero.
pub open spec fn without_y(d: Vec2) -> Vec2 {
    Vec2 { x: d.x, y: 0 }
}

/// Sliding: keep the step `d` if it is free; else drop its `x`, and failing
/// that its `y`, where that frees it; else stop. The flag says that the
/// character was stopped.
pub open spec fn slide(d: Vec2, hit: spec_fn(Vec2) -> bool) -> (Vec2, bool) {
    if !hit(d) {
        (d, false)
    } else if d.x != 0 && !hit(without_x(d)) {
        (without_x(d), false)
    } else if d.y != 0 && !hit(without_y(d)) {
        (without_y(d), false)
    } else {
        (Vec2 { x: 0, y: 0 }, true)
    }
}

/// The actor's box moved by `d` whole pixels overlaps one of `boxes`.
pub open spec fn blocked(actor: Aabb, d: Vec2, boxes: Seq<Aabb>) -> bool {
    exists|i: int|
        0 <= i < boxes.len() && actor.spec_shifted(Vec2 { x: (2 * d.x) as i64, y: (2 * d.y) as i64 }).spec_overlaps(
            #[trigger] boxes[i],
        )
}

/// A step of at most one pixel on each axis.
pub open spec fn unit_step(d: Vec2) -> bool {
    -1 <= d.x <= 1 && -1 <= d.y <= 1
}

/// Whether the actor's box moved by the unit step `d` overlaps a box.
pub fn collides(actor: &Aabb, d: Vec2, boxes: &Vec<Aabb>) -> (r: bool)
    requires
        aabb_ok(*actor),
        unit_step(d),
    ensures
        r == blocked(*actor, d, boxes@),
{
    let moved = Aabb {
        min: Vec2 { x: actor.min.x + 2 * d.x, y: actor.min.y + 2 * d.y },
        max: Vec2 { x: actor.max.x + 2 * d.x, y: actor.max.y + 2 * d.y },
    };
    let mut i: usize = 0;
    while i < boxes.len()
        invariant
            0 <= i <= boxes@.len(),
            moved == actor.spec_shifted(Vec2 { x: (2 * d.x) as i64, y: (2 * d.y) as i64 }),
            forall|j: int| 0 <= j < i ==> !moved.spec_overlaps(#[trigger] boxes@[j]),
        decreases boxes@.len() - i,
    {
        if moved.overlaps(&boxes[i]) {
            return true;
        }
        i = i + 1;
    }
    false
}

/// Resolves a unit step against one layer of boxes; see [`slide`].
pub fn slide_step(actor: &Aabb, d: Vec2, boxes: &Vec<Aabb>) -> (r: (Vec2, bool))
    requires
        aabb_ok(*actor),
        unit_step(d),
    ensures
        r == slide(d, |s: Vec2| blocked(*actor, s, boxes@)),
{
    if !collides(actor, d, boxes) {
        return (d, false);
    }
    if d.x != 0 {
        let s = Vec2 { x: 0, y: d.y };
        if !collides(actor, s, boxes) {
            return (s, false);
        }
    }
    if d.y != 0 {
        let s = Vec2 { x: d.x, y: 0 };
        if !collides(actor, s, boxes) {
            return (s, false);
        }
    }
    (Vec2 { x: 0, y: 0 }, true)
}

/// The actor's box moved by `d` overlaps a box of some collision layer.
pub open spec fn blocked_any(actor: Aabb, d: Vec2, layers: Seq<Vec<Aabb>>) -> bool {
    exists|k: int| 0 <= k < layers.len() && #[trigger] blocked(actor, d, layers[k]@)
}

/// Whether the actor's box moved by the unit step `d` overlaps a box of any
/// collision layer.
pub fn collides_any(actor: &Aabb, d: Vec2, layers: &Vec<Vec<Aabb>>) -> (r: bool)
    requires
        aabb_ok(*actor),
        unit_step(d),
    ensures
        r == blocked_any(*actor, d, layers@),
{
    let mut k: usize = 0;
    while k < layers.len()
        invariant
            aabb_ok(*actor),
            unit_step(d),
            0 <= k <= layers@.len(),
            forall|j: int| 0 <= j < k ==> !#[trigger] blocked(*actor, d, layers@[j]@),
        decreases layers@.len() - k,
    {
        if collides(actor, d, &layers[k]) {
            return true;
        }
        k = k + 1;
    }
    false
}

/// Keeps diagonal movement from being faster than straight movement by
/// dropping it on even animation frames.
pub open spec fn throttled(d: Vec2, frame: u32) -> Vec2 {
    if d.x != 0 && d.y != 0 && frame % 2 == 0 {
        Vec2 { x: 0, y: 0 }
    } else {
        d
    }
}

/// The step a character takes this frame: `desired` slid against all the
/// collision layers together (each candidate step is tested against every
/// layer), then slowed down when diagonal.
pub fn resolve_movement(actor: &Aabb, desired: Vec2, layers: &Vec<Vec<Aabb>>, frame: u32) -> (r: Vec2)
    requires
        aabb_ok(*actor),
        unit_step(desired),
    ensures
        r == throttled(slide(desired, |s: Vec2| blocked_any(*actor, s, layers@)).0, frame),
{
    let d = if !collides_any(actor, desired, layers) {
        desired
    } else if desired.x != 0 && !collides_any(actor, Vec2 { x: 0, y: desired.y }, layers) {
        Vec2 { x: 0, y: desired.y }
    } else if desired.y != 0 && !collides_any(actor, Vec2 { x: desired.x, y: 0 }, layers) {
        Vec2 { x: desired.x, y: 0 }
    } else {
        Vec2 { x: 0, y: 0 }
    };
    if d.x != 0 && d.y != 0 && frame % 2 == 0 {
        Vec2 { x: 0, y: 0 }
    } else {
        d
    }
}

/// Whatever the layers, a resolved step never moves the actor into a box of
/// any layer: it is free of all of them, or it is no move at all.
pub proof fn lemma_resolved_step_free(actor: Aabb, desired: Vec2, layers: Seq<Vec<Aabb>>)
    ensures
        ({
            let (d, stopped) = slide(desired, |s: Vec2| blocked_any(actor, s, layers));
            d == (Vec2 { x: 0, y: 0 }) || !blocked_any(actor, d, layers)
        }),
{
}

/// A diagonal step that is blocked while each of its straight parts is free
/// slides: its `x` part is dropped first, so it is neither kept whole nor
/// stopped.
pub proof fn lemma_diagonal_slides(d: Vec2, hit: spec_fn(Vec2) -> bool)
    requires
        d.x != 0,
        d.y != 0,
        hit(d),
        !hit(without_x(d)),
        !hit(without_y(d)),
    ensures
        slide(d, hit) == (without_x(d), false),
        slide(d, hit).0 != d,
        slide(d, hit).0 != (Vec2 { x: 0, y: 0 }),
{
}

/// Sliding never makes a step that is blocked: the result is free, or the
/// character stops.
pub proof fn lemma_slide_free(d: Vec2, hit: spec_fn(Vec2) -> bool)
    ensures
        slide(d, hit).1 || !hit(slide(d, hit).0),
        slide(d, hit).1 ==> slide(d, hit).0 == (Vec2 { x: 0, y: 0 }),
{
}

/// The sum of the distinct directions among `events`, one pixel each.
pub open spec fn has_event(events: Seq<ControlEvent>, e: ControlEvent) -> bool {
    exists|i: int| 0 <= i < events.len() && events[i] == e
}

pub open spec fn step_of(events: Seq<ControlEvent>) -> Vec2 {
    Vec2 {
        x: ((if has_event(events, ControlEvent::MoveRight) { 1int } else { 0int }) - (if has_event(
            events,
            ControlEvent::MoveLeft,
        ) {
            1int
        } else {
            0int
        })) as i64,
        y: ((if has_event(events, ControlEvent::MoveDown) { 1int } else { 0int }) - (if has_event(
            events,
            ControlEvent::MoveUp,
        ) {
            1int
        } else {
            0int
        })) as i64,
    }
}

/// The step asked for by a frame's control events; each direction counts
/// once however often it was sent, and opposite directions cancel.
pub fn movement_from_events(events: &Vec<ControlEvent>) -> (r: Vec2)
    ensures
        r == step_of(events@),
        unit_step(r),
{
    let mut up = false;
    let mut down = false;
    let mut left = false;
    let mut right = false;
    let mut i: usize = 0;
    while i < events.len()
        invariant
            0 <= i <= events@.len(),
            up == has_event(events@.subrange(0, i as int), ControlEvent::MoveUp),
            down == has_event(events@.subrange(0, i as int), ControlEvent::MoveDown),
            left == has_event(events@.subrange(0, i as int), ControlEvent::MoveLeft),
            right == has_event(events@.subrange(0, i as int), ControlEvent::MoveRight),
        decreases events@.len() - i,
    {
        let ghost prev = events@.subrange(0, i as int);
        let ghost next = events@.subrange(0, i as int + 1);
        match events[i] {
            ControlEvent::MoveUp => up = true,
            ControlEvent::MoveDown => down = true,
            ControlEvent::MoveLeft => left = true,
            ControlEvent::MoveRight => right = true,
        }
        proof {
            assert forall|e: ControlEvent| has_event(next, e) == (has_event(prev, e) || events@[i as int] == e) by {
                if has_event(next, e) {
                    let j = choose|j: int| 0 <= j < next.len() && next[j] == e;
                    if j < i {
                        assert(prev[j] == e);
                    }
                }
                if has_event(prev, e) {
                    let j = choose|j: int| 0 <= j < prev.len() && prev[j] == e;
                    assert(next[j] == e);
                }
                if events@[i as int] == e {
                    assert(next[i as int] == e);
                }
            }
        }
        i = i + 1;
    }
    assert(events@.subrange(0, events@.len() as int) =~= events@);
    let x: i64 = (if right { 1 } else { 0 }) - (if left { 1 } else { 0 });
    let y: i64 = (if down { 1 } else { 0 }) - (if up { 1 } else { 0 });
    Vec2 { x, y }
}

/// What the character is doing, for its animation.
#[derive(Clone, Copy, Debug, PartialEq, Eq, Structural)]
pub enum CharacterStateAction {
    Walk,
    Idle,
}

/// Which way the character faces.
#[derive(Clone, Copy, Debug, PartialEq, Eq, Structural)]
pub enum CharacterStateDirection {
    Up,
    Down,
    Left,
    Right,
}

/// The animation state of a character.
#[derive(Clone, Copy, Debug, PartialEq, Eq, Structural)]
pub struct CharacterState {
    pub action: CharacterStateAction,
    pub direction: CharacterStateDirection,
    /// Index of the current frame of the animation.
    pub anim_frame_idx: u32,
}

impl Default for CharacterState {
    fn default() -> (r: Self)
        ensures
            r == (CharacterState {
                action: CharacterStateAction::Idle,
                direction: CharacterStateDirection::Down,
                anim_frame_idx: 0,
            }),
    {
        CharacterState {
            action: CharacterStateAction::Idle,
            direction: CharacterStateDirection::Down,
            anim_frame_idx: 0,
        }
    }
}

/// The state after the character is asked to move by `m`: idle when `m` is
/// zero, else walking, facing the way of a straight move (a diagonal move
/// keeps the old facing); the animation restarts when either changes.
pub open spec fn state_after(s: CharacterState, m: Vec2) -> CharacterState {
    let action = if m.x == 0 && m.y == 0 {
        CharacterStateAction::Idle
    } else {
        CharacterStateAction::Walk
    };
    let direction = if m.x == 0 && m.y == 0 || m.x != 0 && m.y != 0 {
        s.direction
    } else if m.y > 0 {
        CharacterStateDirection::Down
    } else if m.y < 0 {
        CharacterStateDirection::Up
    } else if m.x > 0 {
        CharacterStateDirection::Right
    } else {
        CharacterStateDirection::Left
    };
    CharacterState {
        action,
        direction,
        anim_frame_idx: if action != s.action || direction != s.direction {
            0
        } else {
            s.anim_frame_idx
        },
    }
}

impl CharacterState {
    /// Updates the state for a requested move; see [`state_after`].
    pub fn apply_movement(&mut self, m: Vec2)
        ensures
            *final(self) == state_after(*old(self), m),
    {
        let action = if m.x == 0 && m.y == 0 {
            CharacterStateAction::Idle
        } else {
            CharacterStateAction::Walk
        };
        let direction = if m.x == 0 && m.y == 0 || m.x != 0 && m.y != 0 {
            self.direction
        } else if m.y > 0 {
            CharacterStateDirection::Down
        } else if m.y < 0 {
            CharacterStateDirection::Up
        } else if m.x > 0 {
            CharacterStateDirection::Right
        } else {
            CharacterStateDirection::Left
        };
        if action != self.action || direction != self.direction {
            self.anim_frame_idx = 0;
        }
        self.action = action;
        self.direction = direction;
    }

    /// The sprite frame to show from an animation's frame list, advancing
    /// the animation (wrapping around). `None` for an empty list.
    pub fn next_frame(&mut self, frames: &Vec<u32>) -> (r: Option<u32>)
        ensures
            frames@.len() == 0 ==> r is None && *final(self) == *old(self),
            frames@.len() > 0 ==> r == Some(frames@[old(self).anim_frame_idx as int % frames@.len() as int])
                && final(self).anim_frame_idx == (if old(self).anim_frame_idx == u32::MAX { 0 } else { old(self).anim_frame_idx + 1 })
                && final(self).action == old(self).action && final(self).direction == old(self).direction,
    {
        if frames.len() == 0 {
            return None;
        }
        let i = self.anim_frame_idx as usize % frames.len();
        let f = frames[i];
        self.anim_frame_idx = if self.anim_frame_idx == u32::MAX { 0 } else { self.anim_frame_idx + 1 };
        Some(f)
    }
}

/// A repeating timer that paces a character's animation.
#[derive(Clone, Copy, Debug, PartialEq, Eq, Structural)]
pub struct CharacterAnimationTimer {
    pub period_ms: u32,
    /// Time since the period last ran out.
    pub elapsed_ms: u32,
}

impl CharacterAnimationTimer {
    pub fn new(period_ms: u32) -> (r: Self)
        ensures
            r == (CharacterAnimationTimer { period_ms, elapsed_ms: 0 }),
    {
        CharacterAnimationTimer { period_ms, elapsed_ms: 0 }
    }

    /// Lets `delta_ms` pass; returns whether the period ran out in that time.
    /// A timer with a zero period runs out on every tick.
    pub fn tick(&mut self, delta_ms: u32) -> (finished: bool)
        ensures
            final(self).period_ms == old(self).period_ms,
            old(self).period_ms == 0 ==> finished && final(self).elapsed_ms == 0,
            old(self).period_ms > 0 ==> {
                let total = old(self).elapsed_ms + delta_ms;
                &&& finished == (total >= old(self).period_ms)
                &&& final(self).elapsed_ms == total % (old(self).period_ms as int)
            },
    {
        if self.period_ms == 0 {
            self.elapsed_ms = 0;
            return true;
        }
        let total = self.elapsed_ms as u64 + delta_ms as u64;
        let period = self.period_ms as u64;
        let rest = total % period;
        assert(rest < period);
        self.elapsed_ms = rest as u32;
        total >= period
    }
}

} // verus!
