//! Moving the player between levels through entrances, driven by the begin
//! and end of sensor overlaps.
use vstd::prelude::*;

use crate::entrances::{Entrance, is_entrance};
use crate::geometry::Vec3;
use crate::level::{EntityInstance, Level};
use crate::text::text_is;

verus! {

/// Where the player stands with respect to entrances.
#[derive(Debug, PartialEq, Eq)]
pub enum EntranceStatus {
    /// Not inside any entrance.
    Outside,
    /// Teleported, and waiting to leave the entrance it arrived at.
    TeleportingTo { entrance_id: String, level_id: String },
}

impl Default for EntranceStatus {
    fn default() -> (r: Self)
        ensures
            r == EntranceStatus::Outside,
    {
        EntranceStatus::Outside
    }
}

impl Clone for EntranceStatus {
    fn clone(&self) -> (r: Self)
        ensures
            r == *self,
    {
        match self {
            EntranceStatus::Outside => EntranceStatus::Outside,
            EntranceStatus::TeleportingTo { entrance_id, level_id } => EntranceStatus::TeleportingTo {
                entrance_id: entrance_id.clone(),
                level_id: level_id.clone(),
            },
        }
    }
}

/// Whether an overlap with a sensor begins or ends.
#[derive(Clone, Copy, Debug, PartialEq, Eq, Structural)]
pub enum OverlapPhase {
    Started,
    Stopped,
}

/// The next status after an overlap event with entrance `e`, and whether the
/// player is to be teleported through `e`.
pub open spec fn next_status(s: EntranceStatus, e: Entrance, phase: OverlapPhase) -> (EntranceStatus, bool) {
    match s {
        EntranceStatus::TeleportingTo { entrance_id, level_id } => {
            if e.id@ == entrance_id@ && e.level@ == level_id@ && phase == OverlapPhase::Stopped {
                (EntranceStatus::Outside, false)
            } else {
                (s, false)
            }
        },
        EntranceStatus::Outside => {
            if phase == OverlapPhase::Started {
                (EntranceStatus::TeleportingTo { entrance_id: e.spawn_at, level_id: e.to_level }, true)
            } else {
                (EntranceStatus::Outside, false)
            }
        },
    }
}

impl EntranceStatus {
    /// Handles the begin or end of an overlap between the player and entrance
    /// `e`; returns whether to teleport the player through `e`.
    pub fn on_overlap(&mut self, e: &Entrance, phase: OverlapPhase) -> (teleport: bool)
        ensures
            (*final(self), teleport) == next_status(*old(self), *e, phase),
    {
        match self {
            EntranceStatus::TeleportingTo { entrance_id, level_id } => {
                if e.id.eq(entrance_id) && e.level.eq(level_id) && phase == OverlapPhase::Stopped {
                    *self = EntranceStatus::Outside;
                }
                false
            },
            EntranceStatus::Outside => {
                if phase == OverlapPhase::Started {
                    *self = EntranceStatus::TeleportingTo {
                        entrance_id: e.spawn_at.clone(),
                        level_id: e.to_level.clone(),
                    };
                    true
                } else {
                    false
                }
            },
        }
    }
}

/// An overlap event between the player and entrance `entrance` of a list.
#[derive(Clone, Copy, Debug, PartialEq, Eq, Structural)]
pub struct OverlapEvent {
    pub entrance: usize,
    pub phase: OverlapPhase,
}

/// Status and teleports (indices into the entrance list) after the first `n`
/// events.
pub open spec fn run_events(
    s: EntranceStatus,
    entrances: Seq<Entrance>,
    events: Seq<OverlapEvent>,
    n: int,
) -> (EntranceStatus, Seq<usize>)
    decreases n,
{
    if n <= 0 {
        (s, seq![])
    } else {
        let (s1, t) = run_events(s, entrances, events, n - 1);
        let ev = events[n - 1];
        let (s2, go) = next_status(s1, entrances[ev.entrance as int], ev.phase);
        (s2, if go { t.push(ev.entrance) } else { t })
    }
}

impl EntranceStatus {
    /// Handles a frame's overlap events in order; returns the entrances to
    /// teleport through, in order.
    pub fn on_overlaps(&mut self, entrances: &Vec<Entrance>, events: &Vec<OverlapEvent>) -> (r: Vec<usize>)
        requires
            forall|i: int| 0 <= i < events@.len() ==> #[trigger] events@[i].entrance < entrances@.len(),
        ensures
            (*final(self), r@) == run_events(*old(self), entrances@, events@, events@.len() as int),
    {
        let mut out: Vec<usize> = Vec::new();
        let mut i: usize = 0;
        while i < events.len()
            invariant
                0 <= i <= events@.len(),
                forall|j: int| 0 <= j < events@.len() ==> #[trigger] events@[j].entrance < entrances@.len(),
                (*self, out@) == run_events(*old(self), entrances@, events@, i as int),
            decreases events@.len() - i,
        {
            let ev = events[i];
            assert(events@[i as int].entrance < entrances@.len());
            if self.on_overlap(&entrances[ev.entrance], ev.phase) {
                out.push(ev.entrance);
            }
            i = i + 1;
        }
        out
    }
}

/// While a teleport is pending no event teleports again, and only the end of
/// the overlap with the target entrance ends it: two entrances that lead to
/// each other do not send the player back and forth.
pub proof fn lemma_teleport_no_bounce(
    entrance_id: String,
    level_id: String,
    e: Entrance,
    phase: OverlapPhase,
)
    ensures
        !next_status(EntranceStatus::TeleportingTo { entrance_id, level_id }, e, phase).1,
        next_status(EntranceStatus::TeleportingTo { entrance_id, level_id }, e, phase).0
            == EntranceStatus::Outside <==> (e.id@ == entrance_id@ && e.level@ == level_id@ && phase
            == OverlapPhase::Stopped),
{
}

/// Entrance `a` of one level and `b` of another lead to each other. Entering
/// `a` teleports to `b`; entering `b` then does nothing; leaving `b` ends the
/// teleport.
pub proof fn lemma_facing_entrances(a: Entrance, b: Entrance)
    requires
        a.to_level@ == b.level@,
        a.spawn_at@ == b.id@,
        b.to_level@ == a.level@,
        b.spawn_at@ == a.id@,
    ensures
        ({
            let (s1, t1) = next_status(EntranceStatus::Outside, a, OverlapPhase::Started);
            let (s2, t2) = next_status(s1, b, OverlapPhase::Started);
            let (s3, t3) = next_status(s2, b, OverlapPhase::Stopped);
            &&& t1
            &&& s1 == EntranceStatus::TeleportingTo { entrance_id: a.spawn_at, level_id: a.to_level }
            &&& !t2
            &&& s2 == s1
            &&& !t3
            &&& s3 == EntranceStatus::Outside
        }),
{
}

/// Field `f` of `e` is called `id` and holds `id`.
pub open spec fn has_id_field(e: EntityInstance, f: int, id: Seq<char>) -> bool {
    &&& 0 <= f < e.fields@.len()
    &&& e.fields@[f].identifier@ == "id"@
    &&& e.fields@[f].value is Some
    &&& e.fields@[f].value->Some_0@ == id
}

/// Entity `k` of layer `l` is the entrance called `id`.
pub open spec fn is_target(level: Level, l: int, k: int, id: Seq<char>) -> bool {
    &&& 0 <= l < level.layers@.len()
    &&& 0 <= k < level.layers@[l].entities@.len()
    &&& is_entrance(level.layers@[l].entities@[k])
    &&& exists|f: int| has_id_field(level.layers@[l].entities@[k], f, id)
}

/// `(l, k)` comes before `(l2, k2)` in layer-then-entity order.
pub open spec fn before(l: int, k: int, l2: int, k2: int) -> bool {
    l < l2 || (l == l2 && k < k2)
}

fn has_id(e: &EntityInstance, id: &String) -> (r: bool)
    ensures
        r == exists|f: int| has_id_field(*e, f, id@),
{
    let mut f: usize = 0;
    while f < e.fields.len()
        invariant
            0 <= f <= e.fields@.len(),
            forall|g: int| 0 <= g < f ==> !has_id_field(*e, g, id@),
        decreases e.fields@.len() - f,
    {
        if text_is(&e.fields[f].identifier, "id") {
            if let Some(v) = &e.fields[f].value {
                if v.eq(id) {
                    assert(has_id_field(*e, f as int, id@));
                    return true;
                }
            }
        }
        f = f + 1;
    }
    false
}

/// Finds the first entrance of the level called `id`, as (layer, entity).
pub fn find_target_entrance(level: &Level, id: &String) -> (r: Option<(usize, usize)>)
    ensures
        match r {
            Some((l, k)) => is_target(*level, l as int, k as int, id@) && forall|l2: int, k2: int|
                before(l2, k2, l as int, k as int) ==> !is_target(*level, l2, k2, id@),
            None => forall|l2: int, k2: int| !is_target(*level, l2, k2, id@),
        },
{
    let mut l: usize = 0;
    while l < level.layers.len()
        invariant
            0 <= l <= level.layers@.len(),
            forall|l2: int, k2: int| l2 < l ==> !is_target(*level, l2, k2, id@),
        decreases level.layers@.len() - l,
    {
        let layer = &level.layers[l];
        let mut k: usize = 0;
        while k < layer.entities.len()
            invariant
                0 <= l < level.layers@.len(),
                *layer == level.layers@[l as int],
                0 <= k <= layer.entities@.len(),
                forall|l2: int, k2: int| l2 < l ==> !is_target(*level, l2, k2, id@),
                forall|k2: int| k2 < k ==> !is_target(*level, l as int, k2, id@),
            decreases layer.entities@.len() - k,
        {
            let e = &layer.entities[k];
            if text_is(&e.identifier, "Entrance") && has_id(e, id) {
                return Some((l, k));
            }
            k = k + 1;
        }
        l = l + 1;
    }
    None
}

/// Level `i` is called `id`.
pub open spec fn level_named(levels: Seq<Level>, i: int, id: Seq<char>) -> bool {
    0 <= i < levels.len() && levels[i].identifier@ == id
}

/// Finds the first level called `id`.
pub fn find_level(levels: &Vec<Level>, id: &String) -> (r: Option<usize>)
    ensures
        match r {
            Some(i) => level_named(levels@, i as int, id@) && forall|j: int|
                j < i ==> !level_named(levels@, j, id@),
            None => forall|j: int| !level_named(levels@, j, id@),
        },
{
    let mut i: usize = 0;
    while i < levels.len()
        invariant
            0 <= i <= levels@.len(),
            forall|j: int| j < i ==> !level_named(levels@, j, id@),
        decreases levels@.len() - i,
    {
        if levels[i].identifier.eq(id) {
            return Some(i);
        }
        i = i + 1;
    }
    None
}

/// Where a teleport puts the player.
#[derive(Clone, Copy, Debug, PartialEq, Eq, Structural)]
pub struct Teleport {
    /// Index of the level to show.
    pub level: usize,
    /// The player's new position: the centre of the target entrance in half
    /// pixels, drawn above every layer of the level left.
    pub position: Vec3,
}

/// The player's position on arriving at entity `e` of `level`, coming from a
/// level with `source_layers` layers.
pub open spec fn arrival(level: Level, e: EntityInstance, source_layers: int) -> Vec3 {
    Vec3 {
        x: (2 * (level.world_x + e.px_x) + e.width) as i64,
        y: (2 * (level.world_y + e.px_y) + e.height) as i64,
        z: (2 * source_layers) as i64,
    }
}

/// The teleport `t` puts the player on entity `k` of layer `l`, the first
/// entrance of its level called `e.spawn_at`.
pub open spec fn lands_at(levels: Seq<Level>, source: int, e: Entrance, t: Teleport, l: int, k: int) -> bool {
    let lv = levels[t.level as int];
    &&& is_target(lv, l, k, e.spawn_at@)
    &&& forall|l2: int, k2: int| before(l2, k2, l, k) ==> !is_target(lv, l2, k2, e.spawn_at@)
    &&& t.position == arrival(lv, lv.layers@[l].entities@[k], levels[source].layers@.len() as int)
}

/// What `plan_teleport` gives for entrance `e` left from level `source`.
pub open spec fn planned(levels: Seq<Level>, source: int, e: Entrance, r: Option<Teleport>) -> bool {
    match r {
        Some(t) => {
            &&& level_named(levels, t.level as int, e.to_level@)
            &&& forall|j: int| j < t.level ==> !level_named(levels, j, e.to_level@)
            &&& exists|l: int, k: int| lands_at(levels, source, e, t, l, k)
        },
        None => (forall|j: int| !level_named(levels, j, e.to_level@)) || exists|i: int| {
            &&& level_named(levels, i, e.to_level@)
            &&& (forall|j: int| j < i ==> !level_named(levels, j, e.to_level@))
            &&& forall|l2: int, k2: int| !is_target(levels[i], l2, k2, e.spawn_at@)
        },
    }
}

/// Where to put the player who went through entrance `e` from level
/// `source`: at the first entrance called `e.spawn_at` of the first level
/// called `e.to_level`. `None` where either does not exist, which is a
/// defect of the level data.
pub fn plan_teleport(levels: &Vec<Level>, source: usize, e: &Entrance) -> (r: Option<Teleport>)
    requires
        source < levels@.len(),
        levels@[source as int].layers@.len() < 0x4000_0000_0000_0000,
    ensures
        planned(levels@, source as int, *e, r),
{
    let i = match find_level(levels, &e.to_level) {
        None => return None,
        Some(i) => i,
    };
    let to = &levels[i];
    let (l, k) = match find_target_entrance(to, &e.spawn_at) {
        None => return None,
        Some(p) => p,
    };
    let target = &to.layers[l].entities[k];
    let z = 2 * levels[source].layers.len() as i64;
    let position = Vec3 {
        x: 2 * (to.world_x as i64 + target.px_x as i64) + target.width as i64,
        y: 2 * (to.world_y as i64 + target.px_y as i64) + target.height as i64,
        z,
    };
    let r = Teleport { level: i, position };
    proof {
        let lv = levels@[i as int];
        assert(lv.layers@[l as int].entities@[k as int] == *target);
        assert(r.position == arrival(lv, *target, levels@[source as int].layers@.len() as int));
        assert(lands_at(levels@, source as int, *e, r, l as int, k as int));
        assert(exists|l1: int, k1: int| lands_at(levels@, source as int, *e, r, l1, k1));
        assert(level_named(levels@, r.level as int, e.to_level@));
    }
    Some(r)
}

/// Level `i` is the first level called `id`.
pub open spec fn first_level_named(levels: Seq<Level>, id: Seq<char>, i: int) -> bool {
    level_named(levels, i, id) && forall|j: int| j < i ==> !level_named(levels, j, id)
}

/// A teleport through `e` from the shown level `current` can be carried out:
/// the shown level exists and the target level and entrance exist.
pub open spec fn teleport_ready(levels: Seq<Level>, current: Seq<char>, e: Entrance) -> bool {
    exists|src: int|
        #[trigger] first_level_named(levels, current, src) && levels[src].layers@.len()
            < 0x4000_0000_0000_0000 && !planned(levels, src, e, None)
}

/// Only one level is the first of a name.
pub proof fn lemma_first_level_unique(levels: Seq<Level>, id: Seq<char>, i: int, j: int)
    requires
        first_level_named(levels, id, i),
        first_level_named(levels, id, j),
    ensures
        i == j,
{
}

/// A planned teleport rules out that the plan fails.
proof fn lemma_planned_exclusive(levels: Seq<Level>, source: int, e: Entrance, t: Teleport)
    requires
        planned(levels, source, e, Some(t)),
    ensures
        !planned(levels, source, e, None),
{
    let (l, k) = choose|l: int, k: int| lands_at(levels, source, e, t, l, k);
    assert(level_named(levels, t.level as int, e.to_level@));
    if planned(levels, source, e, None) {
        if !(forall|j: int| !level_named(levels, j, e.to_level@)) {
            let i = choose|i: int| {
                &&& level_named(levels, i, e.to_level@)
                &&& (forall|j: int| j < i ==> !level_named(levels, j, e.to_level@))
                &&& forall|l2: int, k2: int| !is_target(levels[i], l2, k2, e.spawn_at@)
            };
            assert(i == t.level as int);
            assert(is_target(levels[i], l, k, e.spawn_at@));
        }
    }
}

/// Whether a teleport through `e` from the shown level `current` can be
/// carried out; see [`teleport_ready`].
pub fn can_teleport(levels: &Vec<Level>, current: &String, e: &Entrance) -> (r: bool)
    ensures
        r == teleport_ready(levels@, current@, *e),
{
    let src = match find_level(levels, current) {
        None => {
            assert forall|s: int| !first_level_named(levels@, current@, s) by {}
            return false;
        },
        Some(i) => i,
    };
    assert(first_level_named(levels@, current@, src as int));
    if levels[src].layers.len() as u64 >= 0x4000_0000_0000_0000 {
        assert forall|s: int| #[trigger] first_level_named(levels@, current@, s) implies s == src by {
            lemma_first_level_unique(levels@, current@, s, src as int);
        }
        return false;
    }
    match plan_teleport(levels, src, e) {
        None => {
            assert forall|s: int| #[trigger] first_level_named(levels@, current@, s) implies s == src by {
                lemma_first_level_unique(levels@, current@, s, src as int);
            }
            false
        },
        Some(t) => {
            proof {
                lemma_planned_exclusive(levels@, src as int, *e, t);
            }
            true
        },
    }
}

impl EntranceStatus {
    /// Whether an event of this phase teleports, whatever the entrance: only
    /// the start of an overlap while outside does.
    pub fn would_teleport(&self, phase: OverlapPhase) -> (r: bool)
        ensures
            forall|e: Entrance| r == #[trigger] next_status(*self, e, phase).1,
    {
        match self {
            EntranceStatus::Outside => phase == OverlapPhase::Started,
            EntranceStatus::TeleportingTo { .. } => false,
        }
    }
}

/// What to do with the background music on entering a level.
#[derive(Debug, PartialEq, Eq)]
pub struct MusicChange {
    /// Fade out the music now playing.
    pub stop_current: bool,
    /// Fade in this track.
    pub play: Option<String>,
}

/// The change of music on entering a level whose `music` field is `declared`
/// (`None` where it is not a string), with `current` playing; and the track
/// playing afterwards. The value `none` silences the level; the track already
/// playing goes on without a restart.
pub open spec fn music_change(current: Option<String>, declared: Option<String>) -> (MusicChange, Option<String>) {
    match declared {
        None => (MusicChange { stop_current: false, play: None }, current),
        Some(m) => if m@ == "none"@ {
            (MusicChange { stop_current: current is Some, play: None }, None)
        } else {
            match current {
                Some(c) => if c@ == m@ {
                    (MusicChange { stop_current: false, play: None }, current)
                } else {
                    (MusicChange { stop_current: true, play: Some(m) }, Some(m))
                },
                None => (MusicChange { stop_current: false, play: Some(m) }, Some(m)),
            }
        },
    }
}

fn clone_track(t: &Option<String>) -> (r: Option<String>)
    ensures
        r == *t,
{
    match t {
        Some(s) => Some(s.clone()),
        None => None,
    }
}

/// Decides the music change on entering a level; see [`music_change`].
pub fn change_music(current: &Option<String>, declared: &Option<String>) -> (r: (MusicChange, Option<String>))
    ensures
        r == music_change(*current, *declared),
{
    match declared {
        None => (MusicChange { stop_current: false, play: None }, clone_track(current)),
        Some(m) => {
            if text_is(m, "none") {
                (MusicChange { stop_current: current.is_some(), play: None }, None)
            } else {
                match current {
                    Some(c) => {
                        if c.eq(m) {
                            (MusicChange { stop_current: false, play: None }, clone_track(current))
                        } else {
                            (MusicChange { stop_current: true, play: Some(m.clone()) }, Some(m.clone()))
                        }
                    },
                    None => (MusicChange { stop_current: false, play: Some(m.clone()) }, Some(m.clone())),
                }
            }
        },
    }
}

} // verus!
