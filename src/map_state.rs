//! Everything derived from one loaded map: cached tile shapes, spawned
//! bodies, entrances, enemies and navigation meshes, with the marks that
//! say which of them are done.
use vstd::prelude::*;

use crate::color::{Rgb, background_color, color_of};
use crate::entrances::{
    EnemySpawn, Entrance, EntranceSensor, map_enemies, map_enemy_spawns, map_sensors,
    read_map_entrances,
};
use crate::geometry::Vec2;
use crate::teleport::{
    EntranceStatus, MusicChange, OverlapPhase, Teleport, change_music, find_level, first_level_named,
    lemma_first_level_unique, music_change, next_status, plan_teleport, planned, teleport_ready,
};
use vstd::utf8::encode_utf8;
use crate::level::Level;
use crate::navmesh::{LevelNavMesh, build_level_navmesh, navmesh_outcome};
use crate::spawner::{CollisionBody, bodies_view, map_bodies_upto, map_collision_bodies};
use crate::tiles::{Tessellation, TessellationRequest, LdtkMapTilesetTileCache, TilesetDef, deferred_at, justified, keeps, settled};

verus! {

/// The derived state of one loaded map.
pub struct MapRuntimeState {
    pub tile_cache: LdtkMapTilesetTileCache,
    pub collisions_loaded: bool,
    pub bodies: Vec<CollisionBody>,
    pub entrances_loaded: bool,
    pub entrances: Vec<EntranceSensor>,
    pub enemies_loaded: bool,
    pub enemies: Vec<EnemySpawn>,
    /// One entry per level, in level order, once built; a level whose
    /// mesh could not be built has `None`.
    pub navmeshes: Option<Vec<Option<LevelNavMesh>>>,
    /// The level being shown.
    pub current_level: String,
    /// The background music playing, by its path.
    pub music: Option<String>,
}

/// What a host does on a teleport: move the player, change the music, and
/// repaint the background (`None` where the level's colour is malformed).
#[derive(Debug, PartialEq, Eq)]
pub struct LevelSwitch {
    pub teleport: Teleport,
    pub music: MusicChange,
    pub background: Option<Rgb>,
}

/// Nothing derived yet.
pub open spec fn is_fresh(s: MapRuntimeState) -> bool {
    &&& s.tile_cache@ == Map::<(i32, i32), crate::tiles::EntryModel>::empty()
    &&& !s.collisions_loaded
    &&& s.bodies@.len() == 0
    &&& !s.entrances_loaded
    &&& s.entrances@.len() == 0
    &&& !s.enemies_loaded
    &&& s.enemies@.len() == 0
    &&& s.navmeshes is None
}

impl MapRuntimeState {
    pub fn new(start_level: String) -> (r: Self)
        ensures
            is_fresh(r),
            r.current_level == start_level,
            r.music is None,
    {
        MapRuntimeState {
            tile_cache: LdtkMapTilesetTileCache::new(),
            collisions_loaded: false,
            bodies: Vec::new(),
            entrances_loaded: false,
            entrances: Vec::new(),
            enemies_loaded: false,
            enemies: Vec::new(),
            navmeshes: None,
            current_level: start_level,
            music: None,
        }
    }

    /// Builds the tile cache and places the tile bodies of every level, once.
    /// Where an image is not loaded yet nothing changes and the result is
    /// `false`; call again on a later frame.
    pub fn spawn_map_collisions<F: Fn(TessellationRequest) -> Tessellation>(
        &mut self,
        levels: &Vec<Level>,
        tilesets: &Vec<TilesetDef>,
        trace: &F,
    ) -> (done: bool)
        requires
            forall|q: TessellationRequest| trace.requires((q,)),
        ensures
            old(self).collisions_loaded ==> done && *final(self) == *old(self),
            !old(self).collisions_loaded && !done ==> *final(self) == *old(self) && exists|w: (int, int)|
                #[trigger] deferred_at(*trace, old(self).tile_cache@, tilesets@, w),
            !old(self).collisions_loaded && done ==> {
                &&& final(self).collisions_loaded
                &&& keeps(old(self).tile_cache@, final(self).tile_cache@)
                &&& forall|i: int, j: int|
                    0 <= i < tilesets@.len() && 0 <= j < tilesets@[i].tiles@.len() ==> #[trigger] settled(
                        *trace,
                        final(self).tile_cache@,
                        tilesets@[i].info,
                        tilesets@[i].tiles@[j],
                    )
                &&& forall|k: (i32, i32)| #[trigger]
                    final(self).tile_cache@.contains_key(k) && !old(self).tile_cache@.contains_key(k)
                        ==> justified(*trace, final(self).tile_cache@, tilesets@, k)
                &&& bodies_view(final(self).bodies@) == map_bodies_upto(
                    levels@,
                    levels@.len() as int,
                    final(self).tile_cache@,
                )
                &&& final(self).entrances == old(self).entrances
                &&& final(self).entrances_loaded == old(self).entrances_loaded
                &&& final(self).enemies == old(self).enemies
                &&& final(self).enemies_loaded == old(self).enemies_loaded
                &&& final(self).navmeshes == old(self).navmeshes
                &&& final(self).current_level == old(self).current_level
            },
    {
        if self.collisions_loaded {
            return true;
        }
        if !self.tile_cache.build_all(tilesets, trace) {
            return false;
        }
        self.bodies = map_collision_bodies(levels, &self.tile_cache);
        self.collisions_loaded = true;
        true
    }

    /// Reads the entrances of every level, once. An entrance without its
    /// `id`, `to` or `spawn_at` text is a defect of the map, left out by
    /// `requires` (see [`read_map_entrances`], which reports it).
    pub fn spawn_map_entrances(&mut self, levels: &Vec<Level>)
        requires
            !old(self).entrances_loaded ==> map_sensors(levels@, levels@.len() as int) is Ok,
        ensures
            old(self).entrances_loaded ==> *final(self) == *old(self),
            !old(self).entrances_loaded ==> {
                &&& final(self).entrances_loaded
                &&& final(self).entrances@ == map_sensors(levels@, levels@.len() as int)->Ok_0
                &&& final(self).tile_cache == old(self).tile_cache
                &&& final(self).collisions_loaded == old(self).collisions_loaded
                &&& final(self).bodies == old(self).bodies
                &&& final(self).enemies == old(self).enemies
                &&& final(self).enemies_loaded == old(self).enemies_loaded
                &&& final(self).navmeshes == old(self).navmeshes
                &&& final(self).current_level == old(self).current_level
                &&& final(self).music == old(self).music
            },
    {
        if self.entrances_loaded {
            return;
        }
        match read_map_entrances(levels) {
            Err(_) => {},
            Ok(v) => {
                self.entrances = v;
                self.entrances_loaded = true;
            },
        }
    }

    /// Reads the enemy spawn points of every level, once.
    pub fn spawn_map_enemies(&mut self, levels: &Vec<Level>)
        ensures
            old(self).enemies_loaded ==> *final(self) == *old(self),
            !old(self).enemies_loaded ==> {
                &&& final(self).enemies_loaded
                &&& final(self).enemies@ == map_enemies(levels@, levels@.len() as int)
                &&& final(self).tile_cache == old(self).tile_cache
                &&& final(self).collisions_loaded == old(self).collisions_loaded
                &&& final(self).bodies == old(self).bodies
                &&& final(self).entrances == old(self).entrances
                &&& final(self).entrances_loaded == old(self).entrances_loaded
                &&& final(self).navmeshes == old(self).navmeshes
                &&& final(self).current_level == old(self).current_level
            },
    {
        if self.enemies_loaded {
            return;
        }
        self.enemies = map_enemy_spawns(levels);
        self.enemies_loaded = true;
    }

    /// Navigation meshes are built only after collisions, entrances and
    /// enemies are all in place, and only once.
    pub open spec fn spec_navmesh_due(&self) -> bool {
        self.collisions_loaded && self.entrances_loaded && self.enemies_loaded && self.navmeshes is None
    }

    pub fn navmesh_due(&self) -> (r: bool)
        ensures
            r == self.spec_navmesh_due(),
    {
        self.collisions_loaded && self.entrances_loaded && self.enemies_loaded && self.navmeshes.is_none()
    }

    /// Builds the navigation mesh of every level when it is due (see
    /// [`Self::spec_navmesh_due`]); returns whether it built them. A level
    /// whose mesh cannot be built gets `None` without holding up the others.
    pub fn generate_map_navigation_mesh<T: Fn(Vec<Vec2>) -> Option<Vec<u32>>, F: Fn(Vec2, Vec2) -> bool>(
        &mut self,
        levels: &Vec<Level>,
        triangulate: &T,
        probe: &F,
    ) -> (built: bool)
        requires
            forall|v: Vec<Vec2>| triangulate.requires((v,)),
            forall|p: Vec2, q: Vec2| probe.requires((p, q)),
        ensures
            built == old(self).spec_navmesh_due(),
            !built ==> *final(self) == *old(self),
            built ==> {
                &&& final(self).navmeshes is Some
                &&& final(self).navmeshes->Some_0@.len() == levels@.len()
                &&& forall|i: int|
                    0 <= i < levels@.len() ==> navmesh_outcome(
                        *triangulate,
                        *probe,
                        #[trigger] levels@[i],
                        final(self).navmeshes->Some_0@[i],
                    )
                &&& final(self).tile_cache == old(self).tile_cache
                &&& final(self).bodies == old(self).bodies
                &&& final(self).entrances == old(self).entrances
                &&& final(self).enemies == old(self).enemies
                &&& final(self).collisions_loaded && final(self).entrances_loaded && final(self).enemies_loaded
                &&& final(self).current_level == old(self).current_level
            },
    {
        if !self.navmesh_due() {
            return false;
        }
        let mut meshes: Vec<Option<LevelNavMesh>> = Vec::new();
        let mut i: usize = 0;
        while i < levels.len()
            invariant
                0 <= i <= levels@.len(),
                meshes@.len() == i,
                forall|v: Vec<Vec2>| triangulate.requires((v,)),
                forall|p: Vec2, q: Vec2| probe.requires((p, q)),
                forall|j: int|
                    0 <= j < i ==> navmesh_outcome(*triangulate, *probe, #[trigger] levels@[j], meshes@[j]),
            decreases levels@.len() - i,
        {
            let m = build_level_navmesh(&levels[i], triangulate, probe);
            meshes.push(m);
            i = i + 1;
        }
        self.navmeshes = Some(meshes);
        true
    }

    /// Drops the cached tile shapes and the placed bodies and clears their
    /// mark, for when the map's asset changed; they are built again from
    /// scratch.
    pub fn hot_reload_map_collisions(&mut self)
        ensures
            final(self).tile_cache@ == Map::<(i32, i32), crate::tiles::EntryModel>::empty(),
            !final(self).collisions_loaded,
            final(self).bodies@.len() == 0,
            final(self).entrances == old(self).entrances,
            final(self).entrances_loaded == old(self).entrances_loaded,
            final(self).enemies == old(self).enemies,
            final(self).enemies_loaded == old(self).enemies_loaded,
            final(self).navmeshes == old(self).navmeshes,
            final(self).current_level == old(self).current_level,
            final(self).music == old(self).music,
    {
        self.tile_cache.clear();
        self.collisions_loaded = false;
        self.bodies = Vec::new();
    }

    /// Drops the entrances and clears their mark.
    pub fn hot_reload_map_entrances(&mut self)
        ensures
            !final(self).entrances_loaded,
            final(self).entrances@.len() == 0,
            final(self).tile_cache == old(self).tile_cache,
            final(self).collisions_loaded == old(self).collisions_loaded,
            final(self).bodies == old(self).bodies,
            final(self).enemies == old(self).enemies,
            final(self).enemies_loaded == old(self).enemies_loaded,
            final(self).navmeshes == old(self).navmeshes,
            final(self).current_level == old(self).current_level,
            final(self).music == old(self).music,
    {
        self.entrances_loaded = false;
        self.entrances = Vec::new();
    }

    /// Drops the enemy spawn points and clears their mark.
    pub fn hot_reload_map_enemies(&mut self)
        ensures
            !final(self).enemies_loaded,
            final(self).enemies@.len() == 0,
            final(self).tile_cache == old(self).tile_cache,
            final(self).collisions_loaded == old(self).collisions_loaded,
            final(self).bodies == old(self).bodies,
            final(self).entrances == old(self).entrances,
            final(self).entrances_loaded == old(self).entrances_loaded,
            final(self).navmeshes == old(self).navmeshes,
            final(self).current_level == old(self).current_level,
            final(self).music == old(self).music,
    {
        self.enemies_loaded = false;
        self.enemies = Vec::new();
    }

    /// Forgets everything derived from the map, navigation meshes included,
    /// for when its asset changed; the whole pipeline then runs again. The
    /// shown level and its music are kept.
    pub fn invalidate(&mut self)
        ensures
            is_fresh(*final(self)),
            final(self).current_level == old(self).current_level,
            final(self).music == old(self).music,
    {
        self.hot_reload_map_collisions();
        self.hot_reload_map_entrances();
        self.hot_reload_map_enemies();
        self.navmeshes = None;
    }

    /// Handles the begin or end of the player's overlap with entrance `e`
    /// (in the shown level). The status machine decides; when it teleports,
    /// this plans where the player lands, makes the target level the shown
    /// one, and decides the music and background colour (the map's
    /// `default_background` where the level sets none). A teleport to a level
    /// or entrance that does not exist is a defect of the map, left out by
    /// `requires` (see [`can_teleport`]).
    pub fn change_level(
        &mut self,
        status: &mut EntranceStatus,
        e: &Entrance,
        phase: OverlapPhase,
        levels: &Vec<Level>,
        default_background: &String,
    ) -> (r: Option<LevelSwitch>)
        requires
            next_status(*old(status), *e, phase).1 ==> teleport_ready(
                levels@,
                old(self).current_level@,
                *e,
            ),
        ensures
            (*final(status), r is Some) == next_status(*old(status), *e, phase),
            r is None ==> *final(self) == *old(self),
            r is Some ==> {
                let sw = r->Some_0;
                let to = levels@[sw.teleport.level as int];
                &&& exists|src: int|
                    #[trigger] first_level_named(levels@, old(self).current_level@, src) && planned(
                        levels@,
                        src,
                        *e,
                        Some(sw.teleport),
                    )
                &&& final(self).current_level == e.to_level
                &&& (sw.music, final(self).music) == music_change(old(self).music, to.music)
                &&& sw.background == color_of(
                    encode_utf8(
                        match to.bg_color {
                            Some(c) => c@,
                            None => default_background@,
                        },
                    ),
                )
                &&& final(self).tile_cache == old(self).tile_cache
                &&& final(self).bodies == old(self).bodies
                &&& final(self).entrances == old(self).entrances
                &&& final(self).enemies == old(self).enemies
                &&& final(self).navmeshes == old(self).navmeshes
                &&& final(self).collisions_loaded == old(self).collisions_loaded
                &&& final(self).entrances_loaded == old(self).entrances_loaded
                &&& final(self).enemies_loaded == old(self).enemies_loaded
            },
    {
        if !status.on_overlap(e, phase) {
            return None;
        }
        let ghost ready_src = choose|s: int|
            #[trigger] first_level_named(levels@, self.current_level@, s) && levels@[s].layers@.len()
                < 0x4000_0000_0000_0000 && !planned(levels@, s, *e, None);
        let src = match find_level(levels, &self.current_level) {
            None => {
                assert(!first_level_named(levels@, self.current_level@, ready_src));
                return None;
            },
            Some(i) => i,
        };
        proof {
            lemma_first_level_unique(levels@, self.current_level@, src as int, ready_src);
        }
        if levels[src].layers.len() as u64 >= 0x4000_0000_0000_0000 {
            return None;
        }
        let t = match plan_teleport(levels, src, e) {
            None => return None,
            Some(t) => t,
        };
        let to = &levels[t.level];
        let (music, now) = change_music(&self.music, &to.music);
        let background = background_color(&to.bg_color, default_background);
        self.current_level = e.to_level.clone();
        self.music = now;
        let sw = LevelSwitch { teleport: t, music, background };
        assert(first_level_named(levels@, old(self).current_level@, src as int));
        assert(planned(levels@, src as int, *e, Some(sw.teleport)));
        Some(sw)
    }
}

} // verus!
