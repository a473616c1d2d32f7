//! Placing the cached tile collision shapes on the tiles of each level.
use vstd::prelude::*;

use crate::geometry::{Aabb, Vec2, Vec3};
use crate::level::{LayerInstance, Level, TileInstance};
use crate::text::text_is_suffixed;
use crate::tiles::{
    CollisionShape, DamageRegion, EntryModel, ShapeModel, LdtkMapTilesetTileCache,
};

verus! {

/// A static collision body placed on the map.
#[derive(Debug, PartialEq, Eq)]
pub struct CollisionBody {
    /// Centre of the body, in half pixels.
    pub position: Vec3,
    pub shape: CollisionShape,
    pub damage_region: Option<DamageRegion>,
}

/// A collision body as a mathematical value.
pub struct BodyModel {
    pub position: Vec3,
    pub shape: ShapeModel,
    pub damage_region: Option<DamageRegion>,
}

impl View for CollisionBody {
    type V = BodyModel;

    open spec fn view(&self) -> BodyModel {
        BodyModel { position: self.position, shape: self.shape@, damage_region: self.damage_region }
    }
}

pub open spec fn bodies_view(v: Seq<CollisionBody>) -> Seq<BodyModel> {
    v.map_values(|b: CollisionBody| b@)
}

/// Layer `j` of the level is the exclusion layer of layer `l`: it is named
/// like `l` with `NoCollision` after the name.
pub open spec fn is_companion(level: Level, l: int, j: int) -> bool {
    level.layers@[j].identifier@ == level.layers@[l].identifier@ + "NoCollision"@
}

/// The first layer from `from` on that is the exclusion layer of layer `l`.
pub open spec fn companion_from(level: Level, l: int, from: int) -> Option<int>
    decreases level.layers@.len() - from,
{
    if from < 0 || from >= level.layers@.len() {
        None
    } else if is_companion(level, l, from) {
        Some(from)
    } else {
        companion_from(level, l, from + 1)
    }
}

/// The exclusion layer of layer `l`, if the level has one.
pub open spec fn companion(level: Level, l: int) -> Option<int> {
    companion_from(level, l, 0)
}

/// Index of the grid cell of `layer` under the tile's top-left pixel.
pub open spec fn cell_index(layer: LayerInstance, tile: TileInstance) -> int {
    tile.px_x as int / layer.grid_size as int + (tile.px_y as int / layer.grid_size as int) * layer.c_wid as int
}

/// `mask` marks the cell of `layer` under the tile.
pub open spec fn cell_masked(layer: LayerInstance, mask: LayerInstance, tile: TileInstance) -> bool {
    &&& layer.grid_size > 0
    &&& layer.c_wid >= 0
    &&& tile.px_x >= 0
    &&& tile.px_y >= 0
    &&& 0 <= cell_index(layer, tile) < mask.int_grid@.len()
    &&& mask.int_grid@[cell_index(layer, tile)] != 0
}

/// Centre of a tile: level offset, layer offset, tile position and half a
/// cell, in half pixels.
pub open spec fn tile_center(level: Level, layer: LayerInstance, tile: TileInstance) -> Vec3 {
    Vec3 {
        x: (2 * (level.world_x + layer.px_offset_x + tile.px_x) + layer.grid_size) as i64,
        y: (2 * (level.world_y + layer.px_offset_y + tile.px_y) + layer.grid_size) as i64,
        z: 0,
    }
}

/// The body placed on tile `tile` of layer `l`, if one is.
pub open spec fn tile_body(
    level: Level,
    l: int,
    tile: TileInstance,
    cache: Map<(i32, i32), EntryModel>,
) -> Option<BodyModel> {
    let layer = level.layers@[l];
    match layer.tileset_uid {
        None => None,
        Some(uid) => if companion(level, l) is Some && cell_masked(
            layer,
            level.layers@[companion(level, l)->Some_0],
            tile,
        ) {
            None
        } else if cache.contains_key((uid, tile.tile_id)) {
            let e = cache[(uid, tile.tile_id)];
            Some(
                BodyModel {
                    position: tile_center(level, layer, tile),
                    shape: e.shape,
                    damage_region: e.damage_region,
                },
            )
        } else {
            None
        },
    }
}

/// The bodies of the first `n` tiles of layer `l`, in tile order.
pub open spec fn layer_bodies(
    level: Level,
    l: int,
    n: int,
    cache: Map<(i32, i32), EntryModel>,
) -> Seq<BodyModel>
    decreases n,
{
    if n <= 0 {
        seq![]
    } else {
        let prev = layer_bodies(level, l, n - 1, cache);
        match tile_body(level, l, level.layers@[l].tiles@[n - 1], cache) {
            Some(b) => prev.push(b),
            None => prev,
        }
    }
}

/// The bodies of the first `m` layers of the level, layer by layer.
pub open spec fn level_bodies_upto(level: Level, m: int, cache: Map<(i32, i32), EntryModel>) -> Seq<
    BodyModel,
>
    decreases m,
{
    if m <= 0 {
        seq![]
    } else {
        level_bodies_upto(level, m - 1, cache) + layer_bodies(
            level,
            m - 1,
            level.layers@[m - 1].tiles@.len() as int,
            cache,
        )
    }
}

/// Every body of the level.
pub open spec fn level_bodies(level: Level, cache: Map<(i32, i32), EntryModel>) -> Seq<BodyModel> {
    level_bodies_upto(level, level.layers@.len() as int, cache)
}

/// The bodies of the first `n` levels, level by level.
pub open spec fn map_bodies_upto(levels: Seq<Level>, n: int, cache: Map<(i32, i32), EntryModel>) -> Seq<
    BodyModel,
>
    decreases n,
{
    if n <= 0 {
        seq![]
    } else {
        map_bodies_upto(levels, n - 1, cache) + level_bodies(levels[n - 1], cache)
    }
}

/// A tile whose cell its layer's exclusion layer marks gets no body, even
/// where the cache has a shape for it.
pub proof fn lemma_masked_tile_not_spawned(
    level: Level,
    l: int,
    tile: TileInstance,
    cache: Map<(i32, i32), EntryModel>,
)
    requires
        companion(level, l) is Some,
        cell_masked(level.layers@[l], level.layers@[companion(level, l)->Some_0], tile),
    ensures
        tile_body(level, l, tile, cache) is None,
{
}

/// Finds the exclusion layer of layer `l`.
pub fn find_companion(level: &Level, l: usize) -> (r: Option<usize>)
    requires
        l < level.layers@.len(),
    ensures
        match r {
            Some(j) => companion(*level, l as int) == Some(j as int),
            None => companion(*level, l as int) is None,
        },
{
    let mut j: usize = 0;
    while j < level.layers.len()
        invariant
            l < level.layers@.len(),
            0 <= j <= level.layers@.len(),
            companion_from(*level, l as int, j as int) == companion(*level, l as int),
        decreases level.layers@.len() - j,
    {
        if text_is_suffixed(&level.layers[j].identifier, &level.layers[l].identifier, "NoCollision") {
            return Some(j);
        }
        j = j + 1;
    }
    None
}

/// Whether `mask` marks the cell under the tile.
pub fn is_masked(layer: &LayerInstance, mask: &LayerInstance, tile: &TileInstance) -> (r: bool)
    ensures
        r == cell_masked(*layer, *mask, *tile),
{
    if layer.grid_size <= 0 || layer.c_wid < 0 || tile.px_x < 0 || tile.px_y < 0 {
        return false;
    }
    let g = layer.grid_size as u64;
    let cx = tile.px_x as u64 / g;
    let cy = tile.px_y as u64 / g;
    let w = layer.c_wid as u64;
    assert(cy * w <= 0x7fff_ffff * 0x7fff_ffff) by (nonlinear_arith)
        requires
            cy <= 0x7fff_ffff,
            w <= 0x7fff_ffff,
    ;
    let idx = cx + cy * w;
    assert(idx == cell_index(*layer, *tile));
    if idx < mask.int_grid.len() as u64 {
        mask.int_grid[idx as usize] != 0
    } else {
        false
    }
}

fn body_at(level: &Level, layer: &LayerInstance, tile: &TileInstance, entry: &crate::tiles::LdtkMapTilesetTileCacheItem) -> (r: CollisionBody)
    ensures
        r@ == (BodyModel {
            position: tile_center(*level, *layer, *tile),
            shape: entry@.shape,
            damage_region: entry@.damage_region,
        }),
{
    let x = 2 * (level.world_x as i64 + layer.px_offset_x as i64 + tile.px_x as i64) + layer.grid_size as i64;
    let y = 2 * (level.world_y as i64 + layer.px_offset_y as i64 + tile.px_y as i64) + layer.grid_size as i64;
    CollisionBody {
        position: Vec3 { x, y, z: 0 },
        shape: entry.collision_shape.clone(),
        damage_region: entry.damage_region,
    }
}

/// Appends the bodies of one level to `out`: one per tile of a tileset layer
/// whose tile has a cache entry and whose cell the layer's exclusion layer
/// does not mark.
pub fn spawn_level_collisions(level: &Level, cache: &LdtkMapTilesetTileCache, out: &mut Vec<CollisionBody>)
    ensures
        bodies_view(final(out)@) == bodies_view(old(out)@) + level_bodies(*level, cache@),
{
    let ghost start = bodies_view(out@);
    let mut l: usize = 0;
    while l < level.layers.len()
        invariant
            0 <= l <= level.layers@.len(),
            bodies_view(out@) == start + level_bodies_upto(*level, l as int, cache@),
        decreases level.layers@.len() - l,
    {
        let layer = &level.layers[l];
        let ghost layer_start = bodies_view(out@);
        if let Some(uid) = layer.tileset_uid {
            let comp = find_companion(level, l);
            let mut t: usize = 0;
            while t < layer.tiles.len()
                invariant
                    0 <= l < level.layers@.len(),
                    *layer == level.layers@[l as int],
                    layer.tileset_uid == Some(uid),
                    0 <= t <= layer.tiles@.len(),
                    match comp {
                        Some(j) => companion(*level, l as int) == Some(j as int),
                        None => companion(*level, l as int) is None,
                    },
                    bodies_view(out@) == layer_start + layer_bodies(*level, l as int, t as int, cache@),
                decreases layer.tiles@.len() - t,
            {
                let tile = &layer.tiles[t];
                let ghost before_out = out@;
                proof {
                    lemma_companion_in_range(*level, l as int, 0);
                }
                let skip = match comp {
                    Some(j) => is_masked(layer, &level.layers[j], tile),
                    None => false,
                };
                assert(skip == (companion(*level, l as int) is Some && cell_masked(
                    *layer,
                    level.layers@[companion(*level, l as int)->Some_0],
                    *tile,
                )));
                let ghost expected = tile_body(*level, l as int, *tile, cache@);
                if !skip {
                    if let Some(entry) = cache.get(uid, tile.tile_id) {
                        let b = body_at(level, layer, tile, entry);
                        out.push(b);
                        proof {
                            assert(bodies_view(out@) =~= bodies_view(before_out).push(b@));
                            assert(expected == Some(b@));
                        }
                    } else {
                        assert(expected is None);
                    }
                } else {
                    assert(expected is None);
                }
                proof {
                    assert(level.layers@[l as int].tiles@[t as int] == *tile);
                }
                t = t + 1;
            }
        } else {
            proof {
                lemma_layer_without_tileset(*level, l as int, layer.tiles@.len() as int, cache@);
            }
        }
        l = l + 1;
    }
}

proof fn lemma_companion_in_range(level: Level, l: int, from: int)
    ensures
        companion_from(level, l, from) is Some ==> 0 <= companion_from(level, l, from)->Some_0
            < level.layers@.len(),
    decreases level.layers@.len() - from,
{
    if 0 <= from < level.layers@.len() && !is_companion(level, l, from) {
        lemma_companion_in_range(level, l, from + 1);
    }
}

proof fn lemma_layer_without_tileset(level: Level, l: int, n: int, cache: Map<(i32, i32), EntryModel>)
    requires
        0 <= l < level.layers@.len(),
        level.layers@[l].tileset_uid is None,
    ensures
        layer_bodies(level, l, n, cache) == Seq::<BodyModel>::empty(),
    decreases n,
{
    if n > 0 {
        lemma_layer_without_tileset(level, l, n - 1, cache);
    }
}

/// The bodies of every level of a map, level by level.
pub fn map_collision_bodies(levels: &Vec<Level>, cache: &LdtkMapTilesetTileCache) -> (r: Vec<CollisionBody>)
    ensures
        bodies_view(r@) == map_bodies_upto(levels@, levels@.len() as int, cache@),
{
    let mut out: Vec<CollisionBody> = Vec::new();
    let mut i: usize = 0;
    while i < levels.len()
        invariant
            0 <= i <= levels@.len(),
            bodies_view(out@) == map_bodies_upto(levels@, i as int, cache@),
        decreases levels@.len() - i,
    {
        spawn_level_collisions(&levels[i], cache, &mut out);
        i = i + 1;
    }
    out
}

/// Coordinates of a body small enough to add without overflow.
pub open spec fn body_in_range(b: BodyModel) -> bool {
    let lim = 0x100_0000_0000int;
    &&& -lim <= b.position.x <= lim
    &&& -lim <= b.position.y <= lim
    &&& match b.shape {
        ShapeModel::Cuboid(h) => -lim <= h.x <= lim && -lim <= h.y <= lim,
        ShapeModel::ConvexPolygon(v) => forall|i: int|
            0 <= i < v.len() ==> -lim <= #[trigger] v[i].x <= lim && -lim <= v[i].y <= lim,
    }
}

pub open spec fn min_x(v: Seq<Vec2>) -> i64
    decreases v.len(),
{
    if v.len() <= 1 {
        v[0].x
    } else if v.last().x < min_x(v.drop_last()) {
        v.last().x
    } else {
        min_x(v.drop_last())
    }
}

pub open spec fn max_x(v: Seq<Vec2>) -> i64
    decreases v.len(),
{
    if v.len() <= 1 {
        v[0].x
    } else if v.last().x > max_x(v.drop_last()) {
        v.last().x
    } else {
        max_x(v.drop_last())
    }
}

pub open spec fn min_y(v: Seq<Vec2>) -> i64
    decreases v.len(),
{
    if v.len() <= 1 {
        v[0].y
    } else if v.last().y < min_y(v.drop_last()) {
        v.last().y
    } else {
        min_y(v.drop_last())
    }
}

pub open spec fn max_y(v: Seq<Vec2>) -> i64
    decreases v.len(),
{
    if v.len() <= 1 {
        v[0].y
    } else if v.last().y > max_y(v.drop_last()) {
        v.last().y
    } else {
        max_y(v.drop_last())
    }
}

/// The box a body blocks: a cuboid's own extent, a polygon's bounding box;
/// `None` for a polygon without vertices.
pub open spec fn body_bounds(b: BodyModel) -> Option<Aabb> {
    let p = b.position;
    match b.shape {
        ShapeModel::Cuboid(h) => Some(
            Aabb {
                min: Vec2 { x: (p.x - h.x) as i64, y: (p.y - h.y) as i64 },
                max: Vec2 { x: (p.x + h.x) as i64, y: (p.y + h.y) as i64 },
            },
        ),
        ShapeModel::ConvexPolygon(v) => if v.len() == 0 {
            None
        } else {
            Some(
                Aabb {
                    min: Vec2 { x: (p.x + min_x(v)) as i64, y: (p.y + min_y(v)) as i64 },
                    max: Vec2 { x: (p.x + max_x(v)) as i64, y: (p.y + max_y(v)) as i64 },
                },
            )
        },
    }
}

proof fn lemma_extremes_in_range(v: Seq<Vec2>, lim: int)
    requires
        v.len() > 0,
        forall|i: int| 0 <= i < v.len() ==> -lim <= #[trigger] v[i].x <= lim && -lim <= v[i].y <= lim,
    ensures
        -lim <= min_x(v) <= lim,
        -lim <= max_x(v) <= lim,
        -lim <= min_y(v) <= lim,
        -lim <= max_y(v) <= lim,
    decreases v.len(),
{
    if v.len() > 1 {
        lemma_extremes_in_range(v.drop_last(), lim);
        assert(v.last() == v[v.len() - 1]);
    }
}

impl CollisionBody {
    /// The box this body blocks; see [`body_bounds`].
    pub fn bounds(&self) -> (r: Option<Aabb>)
        requires
            body_in_range(self@),
        ensures
            r == body_bounds(self@),
    {
        let p = self.position;
        match &self.shape {
            CollisionShape::Cuboid { half_extent } => Some(Aabb {
                min: Vec2 { x: p.x - half_extent.x, y: p.y - half_extent.y },
                max: Vec2 { x: p.x + half_extent.x, y: p.y + half_extent.y },
            }),
            CollisionShape::ConvexPolygon { vertices } => {
                if vertices.len() == 0 {
                    return None;
                }
                proof {
                    lemma_extremes_in_range(vertices@, 0x100_0000_0000int);
                }
                let mut lo_x = vertices[0].x;
                let mut hi_x = vertices[0].x;
                let mut lo_y = vertices[0].y;
                let mut hi_y = vertices[0].y;
                let mut i: usize = 1;
                while i < vertices.len()
                    invariant
                        1 <= i <= vertices@.len(),
                        lo_x == min_x(vertices@.subrange(0, i as int)),
                        hi_x == max_x(vertices@.subrange(0, i as int)),
                        lo_y == min_y(vertices@.subrange(0, i as int)),
                        hi_y == max_y(vertices@.subrange(0, i as int)),
                    decreases vertices@.len() - i,
                {
                    let ghost next = vertices@.subrange(0, i as int + 1);
                    assert(next.drop_last() =~= vertices@.subrange(0, i as int));
                    assert(next.last() == vertices@[i as int]);
                    let q = vertices[i];
                    if q.x < lo_x {
                        lo_x = q.x;
                    }
                    if q.x > hi_x {
                        hi_x = q.x;
                    }
                    if q.y < lo_y {
                        lo_y = q.y;
                    }
                    if q.y > hi_y {
                        hi_y = q.y;
                    }
                    i = i + 1;
                }
                assert(vertices@.subrange(0, vertices@.len() as int) =~= vertices@);
                Some(Aabb {
                    min: Vec2 { x: p.x + lo_x, y: p.y + lo_y },
                    max: Vec2 { x: p.x + hi_x, y: p.y + hi_y },
                })
            },
        }
    }
}

} // verus!
