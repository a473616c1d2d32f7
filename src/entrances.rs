//! Entrances (portals between levels) and enemy spawn points, read from the
//! entity layers of each level.
use vstd::prelude::*;

use crate::geometry::Vec3;
use crate::level::{EntityInstance, FieldInstance, LayerInstance, Level};
use crate::text::text_is;

verus! {

/// A portal: walking into it moves the player to entrance `spawn_at` of
/// level `to_level`.
#[derive(Debug, PartialEq, Eq)]
pub struct Entrance {
    pub id: String,
    /// The level the entrance stands in.
    pub level: String,
    pub to_level: String,
    pub spawn_at: String,
}

impl Clone for Entrance {
    fn clone(&self) -> (r: Self)
        ensures
            r == *self,
    {
        Entrance {
            id: self.id.clone(),
            level: self.level.clone(),
            to_level: self.to_level.clone(),
            spawn_at: self.spawn_at.clone(),
        }
    }
}

/// The sensor region of an entrance.
#[derive(Debug, PartialEq, Eq)]
pub struct EntranceSensor {
    pub entrance: Entrance,
    /// Centre, in half pixels.
    pub position: Vec3,
    /// Half extent, in half pixels: a little smaller than the authored
    /// region, so that it is not reached through a wall.
    pub half_extent: Vec3,
}

/// The fields an entrance must have.
#[derive(Clone, Copy, Debug, PartialEq, Eq, Structural)]
pub enum EntranceField {
    Id,
    To,
    SpawnAt,
}

/// A defect in authored entrance data.
#[derive(Clone, Copy, Debug, PartialEq, Eq, Structural)]
pub enum CatalogError {
    /// The entrance has no field of that name.
    MissingField(EntranceField),
    /// The field is there but its value is not a string.
    NotText(EntranceField),
}

pub open spec fn field_name(f: EntranceField) -> Seq<char> {
    match f {
        EntranceField::Id => "id"@,
        EntranceField::To => "to"@,
        EntranceField::SpawnAt => "spawn_at"@,
    }
}

/// The first field called `name` from index `from` on.
pub open spec fn field_from(fields: Seq<FieldInstance>, name: Seq<char>, from: int) -> Option<FieldInstance>
    decreases fields.len() - from,
{
    if from < 0 || from >= fields.len() {
        None
    } else if fields[from].identifier@ == name {
        Some(fields[from])
    } else {
        field_from(fields, name, from + 1)
    }
}

/// The text of field `f`, or the defect that stops reading it.
pub open spec fn field_text(fields: Seq<FieldInstance>, f: EntranceField) -> Result<String, CatalogError> {
    match field_from(fields, field_name(f), 0) {
        None => Err(CatalogError::MissingField(f)),
        Some(fi) => match fi.value {
            None => Err(CatalogError::NotText(f)),
            Some(s) => Ok(s),
        },
    }
}

/// The entrance an entity of level `level` describes; fields are read in
/// the order `id`, `to`, `spawn_at`, and the first defect is returned.
pub open spec fn entrance_of(e: EntityInstance, level: String) -> Result<Entrance, CatalogError> {
    match field_text(e.fields@, EntranceField::Id) {
        Err(x) => Err(x),
        Ok(id) => match field_text(e.fields@, EntranceField::To) {
            Err(x) => Err(x),
            Ok(to) => match field_text(e.fields@, EntranceField::SpawnAt) {
                Err(x) => Err(x),
                Ok(sp) => Ok(Entrance { id, level, to_level: to, spawn_at: sp }),
            },
        },
    }
}

/// `v` shrunk by a factor 10/11 (negative extents count as empty).
pub open spec fn shrunk(v: i32) -> i64 {
    if v > 0 {
        (v * 10 / 11) as i64
    } else {
        0
    }
}

/// Where an entity of a layer stands: level offset, layer offset, its
/// position and half a cell, in half pixels.
pub open spec fn entity_center(level: Level, layer: LayerInstance, e: EntityInstance) -> Vec3 {
    Vec3 {
        x: (2 * (level.world_x + layer.px_offset_x + e.px_x) + layer.grid_size) as i64,
        y: (2 * (level.world_y + layer.px_offset_y + e.px_y) + layer.grid_size) as i64,
        z: 0,
    }
}

pub open spec fn is_entity_layer(layer: LayerInstance) -> bool {
    layer.layer_type@ == "Entities"@
}

pub open spec fn is_entrance(e: EntityInstance) -> bool {
    e.identifier@ == "Entrance"@
}

/// The sensor of entity `e`, where it is an entrance.
pub open spec fn sensor_of(level: Level, layer: LayerInstance, e: EntityInstance) -> Result<EntranceSensor, CatalogError> {
    match entrance_of(e, level.identifier) {
        Err(x) => Err(x),
        Ok(ent) => Ok(
            EntranceSensor {
                entrance: ent,
                position: entity_center(level, layer, e),
                half_extent: Vec3 { x: shrunk(e.width), y: shrunk(e.height), z: 0 },
            },
        ),
    }
}

/// Appends `item` to an accumulated list, keeping the first defect.
pub open spec fn then_push(acc: Result<Seq<EntranceSensor>, CatalogError>, item: Result<EntranceSensor, CatalogError>) -> Result<Seq<EntranceSensor>, CatalogError> {
    match acc {
        Err(x) => Err(x),
        Ok(s) => match item {
            Err(x) => Err(x),
            Ok(v) => Ok(s.push(v)),
        },
    }
}

/// The sensors of the first `n` entities of layer `l`.
pub open spec fn layer_sensors(level: Level, l: int, n: int, acc: Result<Seq<EntranceSensor>, CatalogError>) -> Result<Seq<EntranceSensor>, CatalogError>
    decreases n,
{
    if n <= 0 {
        acc
    } else {
        let prev = layer_sensors(level, l, n - 1, acc);
        let layer = level.layers@[l];
        let e = layer.entities@[n - 1];
        if is_entrance(e) {
            then_push(prev, sensor_of(level, layer, e))
        } else {
            prev
        }
    }
}

/// The sensors of the first `m` layers of the level, after those of `acc`.
pub open spec fn level_sensors(level: Level, m: int, acc: Result<Seq<EntranceSensor>, CatalogError>) -> Result<Seq<EntranceSensor>, CatalogError>
    decreases m,
{
    if m <= 0 {
        acc
    } else {
        let prev = level_sensors(level, m - 1, acc);
        let layer = level.layers@[m - 1];
        if is_entity_layer(layer) {
            layer_sensors(level, m - 1, layer.entities@.len() as int, prev)
        } else {
            prev
        }
    }
}

/// The sensors of the first `n` levels.
pub open spec fn map_sensors(levels: Seq<Level>, n: int) -> Result<Seq<EntranceSensor>, CatalogError>
    decreases n,
{
    if n <= 0 {
        Ok(seq![])
    } else {
        let prev = map_sensors(levels, n - 1);
        level_sensors(levels[n - 1], levels[n - 1].layers@.len() as int, prev)
    }
}

/// Reads field `f` of an entrance.
pub fn read_field(fields: &Vec<FieldInstance>, f: EntranceField) -> (r: Result<String, CatalogError>)
    ensures
        r == field_text(fields@, f),
{
    let name = match f {
        EntranceField::Id => "id",
        EntranceField::To => "to",
        EntranceField::SpawnAt => "spawn_at",
    };
    assert(name@ == field_name(f));
    let mut i: usize = 0;
    while i < fields.len()
        invariant
            0 <= i <= fields@.len(),
            name@ == field_name(f),
            field_from(fields@, name@, i as int) == field_from(fields@, name@, 0),
        decreases fields@.len() - i,
    {
        if text_is(&fields[i].identifier, name) {
            return match &fields[i].value {
                None => Err(CatalogError::NotText(f)),
                Some(s) => Ok(s.clone()),
            };
        }
        i = i + 1;
    }
    Err(CatalogError::MissingField(f))
}

/// The entrance an entity describes, or its first defect.
pub fn parse_entrance(e: &EntityInstance, level: &String) -> (r: Result<Entrance, CatalogError>)
    ensures
        r == entrance_of(*e, *level),
{
    let id = match read_field(&e.fields, EntranceField::Id) {
        Err(x) => return Err(x),
        Ok(s) => s,
    };
    let to_level = match read_field(&e.fields, EntranceField::To) {
        Err(x) => return Err(x),
        Ok(s) => s,
    };
    let spawn_at = match read_field(&e.fields, EntranceField::SpawnAt) {
        Err(x) => return Err(x),
        Ok(s) => s,
    };
    Ok(Entrance { id, level: level.clone(), to_level, spawn_at })
}

fn shrink(v: i32) -> (r: i64)
    ensures
        r == shrunk(v),
{
    if v > 0 {
        (v as i64) * 10 / 11
    } else {
        0
    }
}

/// Appends the entrance sensors of one level to `out`, or returns the first
/// defect met.
pub fn collect_level_entrances(level: &Level, out: &mut Vec<EntranceSensor>) -> (r: Result<(), CatalogError>)
    ensures
        match level_sensors(*level, level.layers@.len() as int, Ok(old(out)@)) {
            Ok(s) => r is Ok && final(out)@ == s,
            Err(x) => r == Err::<(), CatalogError>(x),
        },
{
    let ghost start = out@;
    let mut l: usize = 0;
    while l < level.layers.len()
        invariant
            0 <= l <= level.layers@.len(),
            start == old(out)@,
            level_sensors(*level, l as int, Ok(start)) == Ok::<Seq<EntranceSensor>, CatalogError>(out@),
        decreases level.layers@.len() - l,
    {
        let layer = &level.layers[l];
        if text_is(&layer.layer_type, "Entities") {
            let ghost layer_start = out@;
            let mut k: usize = 0;
            while k < layer.entities.len()
                invariant
                    0 <= l < level.layers@.len(),
                    *layer == level.layers@[l as int],
                    is_entity_layer(*layer),
                    start == old(out)@,
                    0 <= k <= layer.entities@.len(),
                    level_sensors(*level, l as int, Ok(start)) == Ok::<Seq<EntranceSensor>, CatalogError>(layer_start),
                    layer_sensors(*level, l as int, k as int, Ok(layer_start)) == Ok::<Seq<EntranceSensor>, CatalogError>(out@),
                decreases layer.entities@.len() - k,
            {
                let e = &layer.entities[k];
                if text_is(&e.identifier, "Entrance") {
                    match parse_entrance(e, &level.identifier) {
                        Err(x) => {
                            proof {
                                assert(layer.entities@[k as int] == *e);
                                assert(sensor_of(*level, *layer, *e) == Err::<EntranceSensor, CatalogError>(x));
                                assert(layer_sensors(*level, l as int, k as int + 1, Ok(layer_start)) == Err::<Seq<EntranceSensor>, CatalogError>(x));
                                lemma_layer_sensors_err(*level, l as int, k as int + 1, layer.entities@.len() as int, Ok(layer_start), x);
                                assert(is_entity_layer(level.layers@[l as int]));
                                assert(level_sensors(*level, l as int + 1, Ok(start)) == layer_sensors(*level, l as int, layer.entities@.len() as int, level_sensors(*level, l as int, Ok(start))));
                                assert(level_sensors(*level, l as int + 1, Ok(start)) == Err::<Seq<EntranceSensor>, CatalogError>(x));
                                lemma_level_sensors_err(*level, l as int + 1, level.layers@.len() as int, Ok(start), x);
                            }
                            return Err(x);
                        },
                        Ok(ent) => {
                            let x = 2 * (level.world_x as i64 + layer.px_offset_x as i64 + e.px_x as i64) + layer.grid_size as i64;
                            let y = 2 * (level.world_y as i64 + layer.px_offset_y as i64 + e.px_y as i64) + layer.grid_size as i64;
                            let s = EntranceSensor {
                                entrance: ent,
                                position: Vec3 { x, y, z: 0 },
                                half_extent: Vec3 { x: shrink(e.width), y: shrink(e.height), z: 0 },
                            };
                            out.push(s);
                        },
                    }
                }
                k = k + 1;
            }
        }
        l = l + 1;
    }
    Ok(())
}

proof fn lemma_layer_sensors_err(level: Level, l: int, from: int, to: int, acc: Result<Seq<EntranceSensor>, CatalogError>, x: CatalogError)
    requires
        0 <= from <= to,
        layer_sensors(level, l, from, acc) == Err::<Seq<EntranceSensor>, CatalogError>(x),
    ensures
        layer_sensors(level, l, to, acc) == Err::<Seq<EntranceSensor>, CatalogError>(x),
    decreases to - from,
{
    if from < to {
        lemma_layer_sensors_err(level, l, from, to - 1, acc, x);
    }
}

proof fn lemma_layer_sensors_from_err(level: Level, l: int, n: int, x: CatalogError)
    ensures
        layer_sensors(level, l, n, Err(x)) == Err::<Seq<EntranceSensor>, CatalogError>(x),
    decreases n,
{
    if n > 0 {
        lemma_layer_sensors_from_err(level, l, n - 1, x);
    }
}

proof fn lemma_level_sensors_err(level: Level, from: int, to: int, acc: Result<Seq<EntranceSensor>, CatalogError>, x: CatalogError)
    requires
        0 <= from <= to,
        level_sensors(level, from, acc) == Err::<Seq<EntranceSensor>, CatalogError>(x),
    ensures
        level_sensors(level, to, acc) == Err::<Seq<EntranceSensor>, CatalogError>(x),
    decreases to - from,
{
    if from < to {
        lemma_level_sensors_err(level, from, to - 1, acc, x);
        let layer = level.layers@[to - 1];
        if is_entity_layer(layer) {
            lemma_layer_sensors_from_err(level, to - 1, layer.entities@.len() as int, x);
        }
    }
}

proof fn lemma_level_sensors_from_err(level: Level, m: int, x: CatalogError)
    ensures
        level_sensors(level, m, Err(x)) == Err::<Seq<EntranceSensor>, CatalogError>(x),
    decreases m,
{
    if m > 0 {
        lemma_level_sensors_from_err(level, m - 1, x);
        let layer = level.layers@[m - 1];
        if is_entity_layer(layer) {
            lemma_layer_sensors_from_err(level, m - 1, layer.entities@.len() as int, x);
        }
    }
}

/// The entrance sensors of every level of a map, or the first defect met.
pub fn read_map_entrances(levels: &Vec<Level>) -> (r: Result<Vec<EntranceSensor>, CatalogError>)
    ensures
        match map_sensors(levels@, levels@.len() as int) {
            Ok(s) => r is Ok && r->Ok_0@ == s,
            Err(x) => r == Err::<Vec<EntranceSensor>, CatalogError>(x),
        },
{
    let mut out: Vec<EntranceSensor> = Vec::new();
    let mut i: usize = 0;
    while i < levels.len()
        invariant
            0 <= i <= levels@.len(),
            map_sensors(levels@, i as int) == Ok::<Seq<EntranceSensor>, CatalogError>(out@),
        decreases levels@.len() - i,
    {
        match collect_level_entrances(&levels[i], &mut out) {
            Err(x) => {
                proof {
                    lemma_map_sensors_err(levels@, i as int + 1, levels@.len() as int, x);
                }
                return Err(x);
            },
            Ok(()) => {},
        }
        i = i + 1;
    }
    Ok(out)
}

proof fn lemma_map_sensors_err(levels: Seq<Level>, from: int, to: int, x: CatalogError)
    requires
        0 <= from <= to,
        map_sensors(levels, from) == Err::<Seq<EntranceSensor>, CatalogError>(x),
    ensures
        map_sensors(levels, to) == Err::<Seq<EntranceSensor>, CatalogError>(x),
    decreases to - from,
{
    if from < to {
        lemma_map_sensors_err(levels, from, to - 1, x);
        lemma_level_sensors_from_err(levels[to - 1], levels[to - 1].layers@.len() as int, x);
    }
}

/// Where an enemy enters the game.
#[derive(Debug, PartialEq, Eq)]
pub struct EnemySpawn {
    /// The level the enemy belongs to; it only moves while that level is shown.
    pub level: String,
    /// In half pixels, drawn above the level's layers.
    pub position: Vec3,
}

/// Drawing order of enemies.
pub const ENEMY_Z: i64 = 100;

pub open spec fn is_enemy(e: EntityInstance) -> bool {
    e.identifier@ == "Enemy"@
}

pub open spec fn enemy_spawn_of(level: Level, layer: LayerInstance, e: EntityInstance) -> EnemySpawn {
    EnemySpawn {
        level: level.identifier,
        position: Vec3 {
            x: (2 * (level.world_x + layer.px_offset_x + e.px_x)) as i64,
            y: (2 * (level.world_y + layer.px_offset_y + e.px_y)) as i64,
            z: ENEMY_Z,
        },
    }
}

/// The enemy spawns among the first `n` entities of layer `l`.
pub open spec fn layer_enemies(level: Level, l: int, n: int) -> Seq<EnemySpawn>
    decreases n,
{
    if n <= 0 {
        seq![]
    } else {
        let prev = layer_enemies(level, l, n - 1);
        let layer = level.layers@[l];
        let e = layer.entities@[n - 1];
        if is_enemy(e) {
            prev.push(enemy_spawn_of(level, layer, e))
        } else {
            prev
        }
    }
}

/// The enemy spawns of the first `m` layers of the level.
pub open spec fn level_enemies(level: Level, m: int) -> Seq<EnemySpawn>
    decreases m,
{
    if m <= 0 {
        seq![]
    } else {
        level_enemies(level, m - 1) + layer_enemies(
            level,
            m - 1,
            level.layers@[m - 1].entities@.len() as int,
        )
    }
}

/// The enemy spawns of the first `n` levels.
pub open spec fn map_enemies(levels: Seq<Level>, n: int) -> Seq<EnemySpawn>
    decreases n,
{
    if n <= 0 {
        seq![]
    } else {
        map_enemies(levels, n - 1) + level_enemies(
            levels[n - 1],
            levels[n - 1].layers@.len() as int,
        )
    }
}

/// The enemy spawn points of every level, level by level and layer by layer.
pub fn map_enemy_spawns(levels: &Vec<Level>) -> (r: Vec<EnemySpawn>)
    ensures
        r@ == map_enemies(levels@, levels@.len() as int),
{
    let mut out: Vec<EnemySpawn> = Vec::new();
    let mut i: usize = 0;
    while i < levels.len()
        invariant
            0 <= i <= levels@.len(),
            out@ == map_enemies(levels@, i as int),
        decreases levels@.len() - i,
    {
        let level = &levels[i];
        let ghost level_start = out@;
        let mut l: usize = 0;
        while l < level.layers.len()
            invariant
                0 <= i < levels@.len(),
                *level == levels@[i as int],
                0 <= l <= level.layers@.len(),
                level_start == map_enemies(levels@, i as int),
                out@ == level_start + level_enemies(*level, l as int),
            decreases level.layers@.len() - l,
        {
            let layer = &level.layers[l];
            let ghost layer_start = out@;
            let mut k: usize = 0;
            while k < layer.entities.len()
                invariant
                    0 <= l < level.layers@.len(),
                    *layer == level.layers@[l as int],
                    0 <= k <= layer.entities@.len(),
                    out@ == layer_start + layer_enemies(*level, l as int, k as int),
                decreases layer.entities@.len() - k,
            {
                let e = &layer.entities[k];
                if text_is(&e.identifier, "Enemy") {
                    let x = 2 * (level.world_x as i64 + layer.px_offset_x as i64 + e.px_x as i64);
                    let y = 2 * (level.world_y as i64 + layer.px_offset_y as i64 + e.px_y as i64);
                    out.push(EnemySpawn { level: level.identifier.clone(), position: Vec3 { x, y, z: ENEMY_Z } });
                }
                proof {
                    assert(layer.entities@[k as int] == *e);
                    assert(out@ =~= layer_start + layer_enemies(*level, l as int, k as int + 1));
                }
                k = k + 1;
            }
            proof {
                assert(out@ =~= level_start + level_enemies(*level, l as int + 1));
            }
            l = l + 1;
        }
        proof {
            assert(out@ =~= map_enemies(levels@, i as int + 1));
        }
        i = i + 1;
    }
    out
}

/// Field `f` of `e` is called `name` and holds `PlayerStart`.
pub open spec fn names_player_start(e: EntityInstance, f: int) -> bool {
    &&& 0 <= f < e.fields@.len()
    &&& e.fields@[f].identifier@ == "name"@
    &&& e.fields@[f].value is Some
    &&& e.fields@[f].value->Some_0@ == "PlayerStart"@
}

/// Entity `k` of `layer` is the player's spawn point.
pub open spec fn is_player_start(layer: LayerInstance, k: int) -> bool {
    &&& 0 <= k < layer.entities@.len()
    &&& layer.entities@[k].identifier@ == "SpawnPoint"@
    &&& exists|f: int| names_player_start(layer.entities@[k], f)
}

/// The first layer of the level that holds entities.
pub open spec fn first_entity_layer(level: Level, from: int) -> Option<int>
    decreases level.layers@.len() - from,
{
    if from < 0 || from >= level.layers@.len() {
        None
    } else if level.layers@[from].entities@.len() > 0 {
        Some(from)
    } else {
        first_entity_layer(level, from + 1)
    }
}

/// Where the player starts in a level: at the first `SpawnPoint` named
/// `PlayerStart` of the level's first layer that holds entities, drawn above
/// every layer (`x`, `y` in half pixels).
pub open spec fn player_start_at(level: Level, l: int, k: int) -> Vec3 {
    let e = level.layers@[l].entities@[k];
    Vec3 {
        x: (2 * (e.px_x + level.world_x)) as i64,
        y: (2 * (e.px_y + level.world_y)) as i64,
        z: (2 * level.layers@.len()) as i64,
    }
}

/// `p` is the position of entity `k` of layer `l`, the first player spawn
/// point of that layer.
pub open spec fn starts_at(level: Level, l: int, k: int, p: Vec3) -> bool {
    &&& is_player_start(level.layers@[l], k)
    &&& forall|k2: int| k2 < k ==> !is_player_start(level.layers@[l], k2)
    &&& p == player_start_at(level, l, k)
}

fn names_start(e: &EntityInstance) -> (r: bool)
    ensures
        r == exists|f: int| names_player_start(*e, f),
{
    let mut f: usize = 0;
    while f < e.fields.len()
        invariant
            0 <= f <= e.fields@.len(),
            forall|g: int| 0 <= g < f ==> !names_player_start(*e, g),
        decreases e.fields@.len() - f,
    {
        if text_is(&e.fields[f].identifier, "name") {
            if let Some(v) = &e.fields[f].value {
                if text_is(v, "PlayerStart") {
                    assert(names_player_start(*e, f as int));
                    return true;
                }
            }
        }
        f = f + 1;
    }
    false
}

/// The player's start position in a level; `None` where the level has no
/// entity layer or that layer has no player spawn point.
pub fn player_start(level: &Level) -> (r: Option<Vec3>)
    requires
        level.layers@.len() < 0x4000_0000_0000_0000,
    ensures
        first_entity_layer(*level, 0) is None ==> r is None,
        first_entity_layer(*level, 0) is Some && r is None ==> forall|k: int|
            !is_player_start(level.layers@[first_entity_layer(*level, 0)->Some_0], k),
        r is Some ==> first_entity_layer(*level, 0) is Some && exists|k: int|
            #[trigger] starts_at(*level, first_entity_layer(*level, 0)->Some_0, k, r->Some_0),
{
    let mut l: usize = 0;
    while l < level.layers.len()
        invariant
            0 <= l <= level.layers@.len(),
            first_entity_layer(*level, l as int) == first_entity_layer(*level, 0),
        ensures
            0 <= l <= level.layers@.len(),
            first_entity_layer(*level, l as int) == first_entity_layer(*level, 0),
            l < level.layers@.len() ==> level.layers@[l as int].entities@.len() > 0,
        decreases level.layers@.len() - l,
    {
        if level.layers[l].entities.len() > 0 {
            break;
        }
        l = l + 1;
    }
    if l >= level.layers.len() {
        return None;
    }
    let layer = &level.layers[l];
    assert(first_entity_layer(*level, 0) == Some(l as int));
    let mut k: usize = 0;
    while k < layer.entities.len()
        invariant
            0 <= l < level.layers@.len(),
            level.layers@.len() < 0x4000_0000_0000_0000,
            first_entity_layer(*level, 0) == Some(l as int),
            *layer == level.layers@[l as int],
            0 <= k <= layer.entities@.len(),
            forall|k2: int| k2 < k ==> !is_player_start(*layer, k2),
        decreases layer.entities@.len() - k,
    {
        let e = &layer.entities[k];
        if text_is(&e.identifier, "SpawnPoint") && names_start(e) {
            let p = Vec3 {
                x: 2 * (e.px_x as i64 + level.world_x as i64),
                y: 2 * (e.px_y as i64 + level.world_y as i64),
                z: 2 * level.layers.len() as i64,
            };
            assert(is_player_start(*layer, k as int));
            assert(p == player_start_at(*level, l as int, k as int));
            assert(starts_at(*level, l as int, k as int, p));
            assert(first_entity_layer(*level, 0)->Some_0 == l as int);
            assert(starts_at(*level, first_entity_layer(*level, 0)->Some_0, k as int, p));
            let r = Some(p);
            assert(r->Some_0 == p);
            assert(exists|k1: int| #[trigger] starts_at(*level, first_entity_layer(*level, 0)->Some_0, k1, r->Some_0));
            return r;
        }
        k = k + 1;
    }
    None
}

} // verus!
