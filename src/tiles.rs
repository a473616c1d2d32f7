//! Collision shapes for the tiles of a tileset, built once per
//! (tileset, tile) pair and cached for the whole map.
use std::collections::HashMap;
use vstd::prelude::*;

use crate::geometry::{Vec2, Vec3, copy_points};

verus! {

broadcast use vstd::std_specs::hash::group_hash_axioms;

/// How a tile's collision shape is obtained.
#[derive(Debug, PartialEq, Eq)]
pub enum TilesetTileCollisionMode {
    /// The tile does not collide.
    NoCollision,
    /// A convex polygon traced from the alpha channel of the tile itself.
    FromAlpha,
    /// A box filling the whole grid cell.
    Full,
    /// A convex polygon traced from the alpha channel of the tile at the same
    /// place in another tileset image, `tileset`, of the same size.
    FromAlphaReference { tileset: String },
}

/// How a damage region pushes what it hurts.
#[derive(Clone, Copy, Debug, PartialEq, Eq, Structural)]
pub struct DamageRegionKnockBack {
    /// Speed of the push, in pixels per second.
    pub speed: u32,
    /// How long the push lasts, in milliseconds.
    pub force_duration_ms: u32,
    /// How long the controls stay frozen, in milliseconds.
    pub freeze_duration_ms: u32,
}

/// Damage dealt on touching a tile or an enemy.
#[derive(Clone, Copy, Debug, PartialEq, Eq, Structural)]
pub struct DamageRegion {
    pub damage: u32,
    pub knock_back: DamageRegionKnockBack,
}

/// The metadata a level editor attaches to a tileset tile.
#[derive(Debug, PartialEq, Eq)]
pub struct TilesetTileMetadata {
    pub collision: TilesetTileCollisionMode,
    pub damage_region: Option<DamageRegion>,
}

/// A collision primitive, centred on the body that carries it (half pixels).
#[derive(Debug, PartialEq, Eq)]
pub enum CollisionShape {
    Cuboid { half_extent: Vec3 },
    ConvexPolygon { vertices: Vec<Vec2> },
}

/// What the cache holds for one tile.
#[derive(Debug, PartialEq, Eq)]
pub struct LdtkMapTilesetTileCacheItem {
    pub collision_shape: CollisionShape,
    pub damage_region: Option<DamageRegion>,
}

/// A collision shape as a mathematical value.
pub enum ShapeModel {
    Cuboid(Vec3),
    ConvexPolygon(Seq<Vec2>),
}

/// A cache entry as a mathematical value.
pub struct EntryModel {
    pub shape: ShapeModel,
    pub damage_region: Option<DamageRegion>,
}

impl View for CollisionShape {
    type V = ShapeModel;

    open spec fn view(&self) -> ShapeModel {
        match self {
            CollisionShape::Cuboid { half_extent } => ShapeModel::Cuboid(*half_extent),
            CollisionShape::ConvexPolygon { vertices } => ShapeModel::ConvexPolygon(vertices@),
        }
    }
}

impl View for LdtkMapTilesetTileCacheItem {
    type V = EntryModel;

    open spec fn view(&self) -> EntryModel {
        EntryModel { shape: self.collision_shape@, damage_region: self.damage_region }
    }
}

impl Clone for TilesetTileCollisionMode {
    fn clone(&self) -> (r: Self)
        ensures
            r == *self,
    {
        match self {
            TilesetTileCollisionMode::NoCollision => TilesetTileCollisionMode::NoCollision,
            TilesetTileCollisionMode::FromAlpha => TilesetTileCollisionMode::FromAlpha,
            TilesetTileCollisionMode::Full => TilesetTileCollisionMode::Full,
            TilesetTileCollisionMode::FromAlphaReference { tileset } => {
                TilesetTileCollisionMode::FromAlphaReference { tileset: tileset.clone() }
            },
        }
    }
}

impl Clone for TilesetTileMetadata {
    fn clone(&self) -> (r: Self)
        ensures
            r == *self,
    {
        TilesetTileMetadata { collision: self.collision.clone(), damage_region: self.damage_region }
    }
}

impl Clone for CollisionShape {
    fn clone(&self) -> (r: Self)
        ensures
            r@ == self@,
    {
        match self {
            CollisionShape::Cuboid { half_extent } => CollisionShape::Cuboid {
                half_extent: *half_extent,
            },
            CollisionShape::ConvexPolygon { vertices } => CollisionShape::ConvexPolygon {
                vertices: copy_points(vertices),
            },
        }
    }
}

impl Clone for LdtkMapTilesetTileCacheItem {
    fn clone(&self) -> (r: Self)
        ensures
            r@ == self@,
    {
        LdtkMapTilesetTileCacheItem { collision_shape: self.collision_shape.clone(), damage_region: self.damage_region }
    }
}

/// The image whose alpha channel a tile's polygon is traced from.
#[derive(Debug, PartialEq, Eq)]
pub enum AlphaSource {
    /// The tileset's own image.
    Tileset,
    /// A reference image, by its path relative to the map file.
    Reference { path: String },
}

/// A square of a tileset image to trace, in pixels of that image.
#[derive(Debug, PartialEq, Eq)]
pub struct TessellationRequest {
    pub tileset_uid: i32,
    pub source: AlphaSource,
    pub x: i64,
    pub y: i64,
    pub size: i64,
}

/// What tracing an alpha channel gave.
#[derive(Debug, PartialEq, Eq)]
pub enum Tessellation {
    /// The convex outline of the opaque pixels, centred on the tile (half pixels).
    Polygon(Vec<Vec2>),
    /// Nothing opaque enough to make a shape.
    Empty,
    /// The image is not loaded yet.
    ImageMissing,
}

/// The part of a tileset definition that shapes depend on.
#[derive(Clone, Copy, Debug, PartialEq, Eq, Structural)]
pub struct TilesetInfo {
    pub uid: i32,
    /// Number of tile columns in the tileset image.
    pub columns: i32,
    /// Side of a tile, in pixels.
    pub grid_size: i32,
}

/// One tile of a tileset with its metadata; `None` where it did not parse.
pub struct TilesetTile {
    pub tile_id: i32,
    pub metadata: Option<TilesetTileMetadata>,
}

/// A tileset and the tiles of it that carry metadata.
pub struct TilesetDef {
    pub info: TilesetInfo,
    pub tiles: Vec<TilesetTile>,
}

/// The result of looking up or building one tile's entry.
#[derive(Debug, PartialEq, Eq)]
pub enum TileBuild {
    /// The tile's entry, or `None` where the tile has no collision.
    Ready(Option<LdtkMapTilesetTileCacheItem>),
    /// An image the tile needs is not loaded yet.
    Deferred,
}

/// A build result as a mathematical value.
pub enum BuildModel {
    Ready(Option<EntryModel>),
    Deferred,
}

impl View for TileBuild {
    type V = BuildModel;

    open spec fn view(&self) -> BuildModel {
        match self {
            TileBuild::Ready(Some(e)) => BuildModel::Ready(Some(e@)),
            TileBuild::Ready(None) => BuildModel::Ready(None),
            TileBuild::Deferred => BuildModel::Deferred,
        }
    }
}

/// The image that `mode` traces, if it traces one.
pub open spec fn alpha_source_of(mode: TilesetTileCollisionMode) -> Option<AlphaSource> {
    match mode {
        TilesetTileCollisionMode::FromAlpha => Some(AlphaSource::Tileset),
        TilesetTileCollisionMode::FromAlphaReference { tileset } => Some(
            AlphaSource::Reference { path: tileset },
        ),
        _ => None,
    }
}

/// The tile id can be placed in the tileset's grid.
pub open spec fn tile_in_grid(info: TilesetInfo, tile_id: i32) -> bool {
    info.columns > 0 && info.grid_size > 0 && tile_id >= 0
}

/// The square of the tileset image that holds tile `tile_id`.
pub open spec fn tile_request(info: TilesetInfo, tile_id: i32, source: AlphaSource) -> TessellationRequest {
    TessellationRequest {
        tileset_uid: info.uid,
        source,
        x: ((tile_id as int % info.columns as int) * info.grid_size) as i64,
        y: ((tile_id as int / info.columns as int) * info.grid_size) as i64,
        size: info.grid_size as i64,
    }
}

/// Building the tile's entry calls the tracer.
pub open spec fn needs_tracing(info: TilesetInfo, tile_id: i32, meta: Option<TilesetTileMetadata>) -> bool {
    match meta {
        Some(m) => alpha_source_of(m.collision) is Some && tile_in_grid(info, tile_id),
        None => false,
    }
}

/// The entry built for a tile, given what the tracer returned (`t` is not
/// looked at where the tile needs no tracing).
pub open spec fn built_entry(
    info: TilesetInfo,
    tile_id: i32,
    meta: Option<TilesetTileMetadata>,
    t: Tessellation,
) -> BuildModel {
    match meta {
        None => BuildModel::Ready(None),
        Some(m) => match m.collision {
            TilesetTileCollisionMode::NoCollision => BuildModel::Ready(None),
            TilesetTileCollisionMode::Full => if info.grid_size > 0 {
                BuildModel::Ready(
                    Some(
                        EntryModel {
                            shape: ShapeModel::Cuboid(
                                Vec3 { x: info.grid_size as i64, y: info.grid_size as i64, z: 0 },
                            ),
                            damage_region: m.damage_region,
                        },
                    ),
                )
            } else {
                BuildModel::Ready(None)
            },
            _ => if !tile_in_grid(info, tile_id) {
                BuildModel::Ready(None)
            } else {
                match t {
                    Tessellation::ImageMissing => BuildModel::Deferred,
                    Tessellation::Empty => BuildModel::Ready(None),
                    Tessellation::Polygon(v) => if v.len() >= 3 {
                        BuildModel::Ready(
                            Some(
                                EntryModel {
                                    shape: ShapeModel::ConvexPolygon(v@),
                                    damage_region: m.damage_region,
                                },
                            ),
                        )
                    } else {
                        BuildModel::Ready(None)
                    },
                }
            },
        },
    }
}

/// `t` is something the tracer may return for the tile, where it is asked.
pub open spec fn traced_by<F: Fn(TessellationRequest) -> Tessellation>(
    trace: F,
    info: TilesetInfo,
    tile_id: i32,
    meta: Option<TilesetTileMetadata>,
    t: Tessellation,
) -> bool {
    needs_tracing(info, tile_id, meta) ==> trace.ensures(
        (tile_request(info, tile_id, alpha_source_of(meta->Some_0.collision)->Some_0),),
        t,
    )
}

/// `r` is what building the tile may give with this tracer.
pub open spec fn possible_build<F: Fn(TessellationRequest) -> Tessellation>(
    trace: F,
    info: TilesetInfo,
    tile_id: i32,
    meta: Option<TilesetTileMetadata>,
    r: BuildModel,
) -> bool {
    exists|t: Tessellation|
        traced_by(trace, info, tile_id, meta, t) && #[trigger] built_entry(info, tile_id, meta, t)
            == r
}

/// Key of a (tileset uid, tile id) pair in the cache's table.
pub open spec fn cache_key(tileset: i32, tile: i32) -> u64 {
    ((tileset as u32 as int) * 0x1_0000_0000 + (tile as u32 as int)) as u64
}

proof fn lemma_cache_key_injective(a: i32, b: i32, c: i32, d: i32)
    requires
        cache_key(a, b) == cache_key(c, d),
    ensures
        a == c && b == d,
{
    let x1 = a as u32 as int;
    let y1 = b as u32 as int;
    let x2 = c as u32 as int;
    let y2 = d as u32 as int;
    assert(x1 * 0x1_0000_0000 + y1 == x2 * 0x1_0000_0000 + y2 ==> x1 == x2 && y1 == y2)
        by (nonlinear_arith)
        requires
            0 <= x1 < 0x1_0000_0000,
            0 <= x2 < 0x1_0000_0000,
            0 <= y1 < 0x1_0000_0000,
            0 <= y2 < 0x1_0000_0000,
    ;
    assert(a as u32 == c as u32 ==> a == c) by (bit_vector);
    assert(b as u32 == d as u32 ==> b == d) by (bit_vector);
}

fn key_of(tileset: i32, tile: i32) -> (r: u64)
    ensures
        r == cache_key(tileset, tile),
{
    let x = tileset as u32 as u64;
    let y = tile as u32 as u64;
    assert(x * 0x1_0000_0000 + y <= 0xffff_ffff_ffff_ffff) by (nonlinear_arith)
        requires
            x < 0x1_0000_0000,
            y < 0x1_0000_0000,
    ;
    x * 0x1_0000_0000 + y
}

/// Collision entries keyed by (tileset uid, tile id), shared by every level
/// of a map.
pub struct LdtkMapTilesetTileCache {
    entries: HashMap<u64, LdtkMapTilesetTileCacheItem>,
}

impl View for LdtkMapTilesetTileCache {
    type V = Map<(i32, i32), EntryModel>;

    closed spec fn view(&self) -> Map<(i32, i32), EntryModel> {
        Map::new(
            |k: (i32, i32)| self.entries@.contains_key(cache_key(k.0, k.1)),
            |k: (i32, i32)| self.entries@[cache_key(k.0, k.1)]@,
        )
    }
}

/// A tile is settled in `m` when it has an entry there or the tracer may
/// have found no shape for it.
pub open spec fn settled<F: Fn(TessellationRequest) -> Tessellation>(
    trace: F,
    m: Map<(i32, i32), EntryModel>,
    info: TilesetInfo,
    tile: TilesetTile,
) -> bool {
    m.contains_key((info.uid, tile.tile_id)) || possible_build(
        trace,
        info,
        tile.tile_id,
        tile.metadata,
        BuildModel::Ready(None),
    )
}

/// Tile `w.1` of tileset `w.0` has key `k` and may have built `m[k]`.
pub open spec fn justify_at<F: Fn(TessellationRequest) -> Tessellation>(
    trace: F,
    m: Map<(i32, i32), EntryModel>,
    tilesets: Seq<TilesetDef>,
    k: (i32, i32),
    w: (int, int),
) -> bool {
    &&& 0 <= w.0 < tilesets.len()
    &&& 0 <= w.1 < tilesets[w.0].tiles@.len()
    &&& k == (tilesets[w.0].info.uid, tilesets[w.0].tiles@[w.1].tile_id)
    &&& possible_build(
        trace,
        tilesets[w.0].info,
        k.1,
        tilesets[w.0].tiles@[w.1].metadata,
        BuildModel::Ready(Some(m[k])),
    )
}

/// Tile `w.1` of tileset `w.0` is not cached in `m` and may need an image
/// that is not loaded.
pub open spec fn deferred_at<F: Fn(TessellationRequest) -> Tessellation>(
    trace: F,
    m: Map<(i32, i32), EntryModel>,
    tilesets: Seq<TilesetDef>,
    w: (int, int),
) -> bool {
    &&& 0 <= w.0 < tilesets.len()
    &&& 0 <= w.1 < tilesets[w.0].tiles@.len()
    &&& !m.contains_key((tilesets[w.0].info.uid, tilesets[w.0].tiles@[w.1].tile_id))
    &&& possible_build(
        trace,
        tilesets[w.0].info,
        tilesets[w.0].tiles@[w.1].tile_id,
        tilesets[w.0].tiles@[w.1].metadata,
        BuildModel::Deferred,
    )
}

/// The entry under `k` comes from some listed tile.
pub open spec fn justified<F: Fn(TessellationRequest) -> Tessellation>(
    trace: F,
    m: Map<(i32, i32), EntryModel>,
    tilesets: Seq<TilesetDef>,
    k: (i32, i32),
) -> bool {
    exists|w: (int, int)| justify_at(trace, m, tilesets, k, w)
}

/// `n` keeps every entry of `m`.
pub open spec fn keeps(m: Map<(i32, i32), EntryModel>, n: Map<(i32, i32), EntryModel>) -> bool {
    forall|k: (i32, i32)| #[trigger] m.contains_key(k) ==> n.contains_key(k) && n[k] == m[k]
}

proof fn lemma_settled_grows<F: Fn(TessellationRequest) -> Tessellation>(
    trace: F,
    m: Map<(i32, i32), EntryModel>,
    n: Map<(i32, i32), EntryModel>,
    info: TilesetInfo,
    tile: TilesetTile,
)
    requires
        settled(trace, m, info, tile),
        keeps(m, n),
    ensures
        settled(trace, n, info, tile),
{
    if m.contains_key((info.uid, tile.tile_id)) {
        assert(n.contains_key((info.uid, tile.tile_id)));
    }
}

impl LdtkMapTilesetTileCache {
    pub fn new() -> (r: Self)
        ensures
            r@ == Map::<(i32, i32), EntryModel>::empty(),
    {
        let r = LdtkMapTilesetTileCache { entries: HashMap::new() };
        assert(r@ =~= Map::<(i32, i32), EntryModel>::empty());
        r
    }

    /// The cached entry of a tile, if there is one.
    pub fn get(&self, tileset: i32, tile: i32) -> (r: Option<&LdtkMapTilesetTileCacheItem>)
        ensures
            match r {
                Some(e) => self@.contains_key((tileset, tile)) && e@ == self@[(tileset, tile)],
                None => !self@.contains_key((tileset, tile)),
            },
    {
        let k = key_of(tileset, tile);
        self.entries.get(&k)
    }

    fn insert(&mut self, tileset: i32, tile: i32, e: LdtkMapTilesetTileCacheItem)
        ensures
            final(self)@ == old(self)@.insert((tileset, tile), e@),
    {
        let k = key_of(tileset, tile);
        self.entries.insert(k, e);
        proof {
            assert forall|q: (i32, i32)|
                #![auto]
                cache_key(q.0, q.1) == cache_key(tileset, tile) implies q == (tileset, tile) by {
                lemma_cache_key_injective(q.0, q.1, tileset, tile);
            }
            assert(self@ =~= old(self)@.insert((tileset, tile), e@));
        }
    }

    /// Drops every entry, for when the map's assets change.
    pub fn clear(&mut self)
        ensures
            final(self)@ == Map::<(i32, i32), EntryModel>::empty(),
    {
        self.entries.clear();
        assert(self@ =~= Map::<(i32, i32), EntryModel>::empty());
    }

    /// Returns the entry of a tile, building and caching it on first use.
    /// A cached tile is returned as it is and `trace` is not called; a tile
    /// that needs an image that is not loaded is `Deferred` and nothing is
    /// cached.
    pub fn get_or_build<F: Fn(TessellationRequest) -> Tessellation>(
        &mut self,
        info: TilesetInfo,
        tile_id: i32,
        metadata: &Option<TilesetTileMetadata>,
        trace: &F,
    ) -> (r: TileBuild)
        requires
            forall|q: TessellationRequest| trace.requires((q,)),
        ensures
            get_or_build_post(*trace, old(self)@, info, tile_id, *metadata, final(self)@, r@),
    {
        if let Some(e) = self.get(info.uid, tile_id) {
            return TileBuild::Ready(Some(e.clone()));
        }
        let r = build_entry(info, tile_id, metadata, trace);
        if let TileBuild::Ready(Some(e)) = &r {
            self.insert(info.uid, tile_id, e.clone());
        }
        r
    }

    /// Builds the entries of every listed tile that is not cached yet. All or
    /// nothing: where some tile needs an image that is not loaded, the cache
    /// is left as it was and the result is `false`, to be tried again later.
    pub fn build_all<F: Fn(TessellationRequest) -> Tessellation>(
        &mut self,
        tilesets: &Vec<TilesetDef>,
        trace: &F,
    ) -> (complete: bool)
        requires
            forall|q: TessellationRequest| trace.requires((q,)),
        ensures
            !complete ==> *final(self) == *old(self),
            !complete ==> exists|w: (int, int)| #[trigger] deferred_at(*trace, old(self)@, tilesets@, w),
            complete ==> {
                &&& keeps(old(self)@, final(self)@)
                &&& forall|i: int, j: int|
                    0 <= i < tilesets@.len() && 0 <= j < tilesets@[i].tiles@.len()
                        ==> #[trigger] settled(
                        *trace,
                        final(self)@,
                        tilesets@[i].info,
                        tilesets@[i].tiles@[j],
                    )
                &&& forall|k: (i32, i32)| #[trigger]
                    final(self)@.contains_key(k) && !old(self)@.contains_key(k) ==> justified(
                        *trace,
                        final(self)@,
                        tilesets@,
                        k,
                    )
            },
    {
        let mut work = LdtkMapTilesetTileCache { entries: self.entries.clone() };
        assert(work@ =~= self@);
        let mut i: usize = 0;
        while i < tilesets.len()
            invariant
                forall|q: TessellationRequest| trace.requires((q,)),
                0 <= i <= tilesets@.len(),
                *self == *old(self),
                keeps(self@, work@),
                forall|a: int, b: int|
                    0 <= a < i && 0 <= b < tilesets@[a].tiles@.len() ==> #[trigger] settled(
                        *trace,
                        work@,
                        tilesets@[a].info,
                        tilesets@[a].tiles@[b],
                    ),
                forall|k: (i32, i32)| #[trigger]
                    work@.contains_key(k) && !self@.contains_key(k) ==> justified(
                        *trace,
                        work@,
                        tilesets@,
                        k,
                    ),
            decreases tilesets@.len() - i,
        {
            let def = &tilesets[i];
            let mut j: usize = 0;
            while j < def.tiles.len()
                invariant
                    forall|q: TessellationRequest| trace.requires((q,)),
                    0 <= i < tilesets@.len(),
                    *def == tilesets@[i as int],
                    0 <= j <= def.tiles@.len(),
                    *self == *old(self),
                    keeps(self@, work@),
                    forall|a: int, b: int|
                        0 <= a < i && 0 <= b < tilesets@[a].tiles@.len() ==> #[trigger] settled(
                            *trace,
                            work@,
                            tilesets@[a].info,
                            tilesets@[a].tiles@[b],
                        ),
                    forall|b: int|
                        0 <= b < j ==> #[trigger] settled(*trace, work@, def.info, def.tiles@[b]),
                    forall|k: (i32, i32)| #[trigger]
                        work@.contains_key(k) && !self@.contains_key(k) ==> justified(
                            *trace,
                            work@,
                            tilesets@,
                            k,
                        ),
                decreases def.tiles@.len() - j,
            {
                let tile = &def.tiles[j];
                let ghost before = work@;
                let r = work.get_or_build(def.info, tile.tile_id, &tile.metadata, trace);
                if let TileBuild::Deferred = r {
                    proof {
                        let key = (def.info.uid, tile.tile_id);
                        assert(!self@.contains_key(key));
                        assert(deferred_at(*trace, old(self)@, tilesets@, (i as int, j as int)));
                    }
                    return false;
                }
                proof {
                    let key = (def.info.uid, tile.tile_id);
                    assert(keeps(before, work@));
                    assert forall|a: int, b: int|
                        0 <= a < i && 0 <= b < tilesets@[a].tiles@.len() implies #[trigger] settled(
                            *trace,
                            work@,
                            tilesets@[a].info,
                            tilesets@[a].tiles@[b],
                        ) by {
                        lemma_settled_grows(
                            *trace,
                            before,
                            work@,
                            tilesets@[a].info,
                            tilesets@[a].tiles@[b],
                        );
                    }
                    assert forall|b: int| 0 <= b < j + 1 implies #[trigger] settled(
                        *trace,
                        work@,
                        def.info,
                        def.tiles@[b],
                    ) by {
                        if b < j {
                            lemma_settled_grows(*trace, before, work@, def.info, def.tiles@[b]);
                        }
                    }
                    assert forall|k: (i32, i32)| #[trigger]
                        work@.contains_key(k) && !self@.contains_key(k) implies justified(
                        *trace,
                        work@,
                        tilesets@,
                        k,
                    ) by {
                        if before.contains_key(k) {
                            let w = choose|w: (int, int)| justify_at(*trace, before, tilesets@, k, w);
                            assert(justify_at(*trace, work@, tilesets@, k, w));
                        } else {
                            assert(k == key);
                            assert(justify_at(*trace, work@, tilesets@, k, (i as int, j as int)));
                        }
                    }
                }
                j = j + 1;
            }
            i = i + 1;
        }
        self.entries = work.entries;
        true
    }
}

/// What `get_or_build` promises: a cached tile comes back as it is and the
/// cache does not change; otherwise the result is one the tracer allows, and
/// a built entry is added.
pub open spec fn get_or_build_post<F: Fn(TessellationRequest) -> Tessellation>(
    trace: F,
    before: Map<(i32, i32), EntryModel>,
    info: TilesetInfo,
    tile_id: i32,
    meta: Option<TilesetTileMetadata>,
    after: Map<(i32, i32), EntryModel>,
    r: BuildModel,
) -> bool {
    if before.contains_key((info.uid, tile_id)) {
        r == BuildModel::Ready(Some(before[(info.uid, tile_id)])) && after == before
    } else {
        &&& possible_build(trace, info, tile_id, meta, r)
        &&& after == match r {
            BuildModel::Ready(Some(e)) => before.insert((info.uid, tile_id), e),
            _ => before,
        }
    }
}

/// Building the same tile twice gives the same result the second time,
/// whatever the tracer would say, and the second call leaves the cache as
/// the first call left it.
pub proof fn lemma_get_or_build_idempotent<F: Fn(TessellationRequest) -> Tessellation>(
    trace1: F,
    trace2: F,
    c0: Map<(i32, i32), EntryModel>,
    c1: Map<(i32, i32), EntryModel>,
    c2: Map<(i32, i32), EntryModel>,
    info: TilesetInfo,
    tile_id: i32,
    meta: Option<TilesetTileMetadata>,
    r1: BuildModel,
    r2: BuildModel,
)
    requires
        get_or_build_post(trace1, c0, info, tile_id, meta, c1, r1),
        get_or_build_post(trace2, c1, info, tile_id, meta, c2, r2),
        r1 is Ready && r1->Ready_0 is Some,
    ensures
        r2 == r1,
        c2 == c1,
{
    if !c0.contains_key((info.uid, tile_id)) {
        assert(c1.contains_key((info.uid, tile_id)));
    }
}

/// A `Full` tile becomes a box of half a grid cell each way (in half pixels,
/// the grid size), whatever the tracer would say of its image.
pub proof fn lemma_full_tile_is_cell_box(
    info: TilesetInfo,
    tile_id: i32,
    meta: TilesetTileMetadata,
    t: Tessellation,
)
    requires
        meta.collision == TilesetTileCollisionMode::Full,
        info.grid_size > 0,
    ensures
        built_entry(info, tile_id, Some(meta), t) == BuildModel::Ready(
            Some(
                EntryModel {
                    shape: ShapeModel::Cuboid(
                        Vec3 { x: info.grid_size as i64, y: info.grid_size as i64, z: 0 },
                    ),
                    damage_region: meta.damage_region,
                },
            ),
        ),
        !needs_tracing(info, tile_id, Some(meta)),
{
}

/// After a complete pass, a listed `Full` tile has an entry: a settled tile
/// whose mode always gives a shape cannot have ended without one.
pub proof fn lemma_settled_full_tile_cached<F: Fn(TessellationRequest) -> Tessellation>(
    trace: F,
    m: Map<(i32, i32), EntryModel>,
    info: TilesetInfo,
    tile: TilesetTile,
)
    requires
        settled(trace, m, info, tile),
        tile.metadata is Some,
        tile.metadata->Some_0.collision == TilesetTileCollisionMode::Full,
        info.grid_size > 0,
    ensures
        m.contains_key((info.uid, tile.tile_id)),
{
}

/// A new entry needs a listed tile that gives a shape: where every listed
/// tile with key `k` has no collision or metadata that did not parse, no
/// entry under `k` is justified.
pub proof fn lemma_no_entry_without_shape<F: Fn(TessellationRequest) -> Tessellation>(
    trace: F,
    m: Map<(i32, i32), EntryModel>,
    tilesets: Seq<TilesetDef>,
    k: (i32, i32),
)
    requires
        forall|i: int, j: int|
            0 <= i < tilesets.len() && 0 <= j < tilesets[i].tiles@.len() && k == (
                tilesets[i].info.uid,
                #[trigger] tilesets[i].tiles@[j].tile_id,
            ) ==> tilesets[i].tiles@[j].metadata is None
                || tilesets[i].tiles@[j].metadata->Some_0.collision
                == TilesetTileCollisionMode::NoCollision,
    ensures
        !justified(trace, m, tilesets, k),
{
    if justified(trace, m, tilesets, k) {
        let w = choose|w: (int, int)| justify_at(trace, m, tilesets, k, w);
        let tile = tilesets[w.0].tiles@[w.1];
        assert(k == (tilesets[w.0].info.uid, tile.tile_id));
        let t = choose|t: Tessellation|
            traced_by(trace, tilesets[w.0].info, k.1, tile.metadata, t) && #[trigger] built_entry(
                tilesets[w.0].info,
                k.1,
                tile.metadata,
                t,
            ) == BuildModel::Ready(Some(m[k]));
    }
}

/// Builds a tile's entry, calling the tracer where its mode asks for it.
fn build_entry<F: Fn(TessellationRequest) -> Tessellation>(
    info: TilesetInfo,
    tile_id: i32,
    metadata: &Option<TilesetTileMetadata>,
    trace: &F,
) -> (r: TileBuild)
    requires
        forall|q: TessellationRequest| trace.requires((q,)),
    ensures
        possible_build(*trace, info, tile_id, *metadata, r@),
{
    let meta = match metadata {
        None => {
            assert(built_entry(info, tile_id, *metadata, Tessellation::Empty) == BuildModel::Ready(
                None,
            ));
            return TileBuild::Ready(None);
        },
        Some(m) => m,
    };
    let source = match &meta.collision {
        TilesetTileCollisionMode::NoCollision => {
            assert(built_entry(info, tile_id, *metadata, Tessellation::Empty) == BuildModel::Ready(
                None,
            ));
            return TileBuild::Ready(None);
        },
        TilesetTileCollisionMode::Full => {
            let r = if info.grid_size > 0 {
                TileBuild::Ready(
                    Some(
                        LdtkMapTilesetTileCacheItem {
                            collision_shape: CollisionShape::Cuboid {
                                half_extent: Vec3 {
                                    x: info.grid_size as i64,
                                    y: info.grid_size as i64,
                                    z: 0,
                                },
                            },
                            damage_region: meta.damage_region,
                        },
                    ),
                )
            } else {
                TileBuild::Ready(None)
            };
            assert(built_entry(info, tile_id, *metadata, Tessellation::Empty) == r@);
            return r;
        },
        TilesetTileCollisionMode::FromAlpha => AlphaSource::Tileset,
        TilesetTileCollisionMode::FromAlphaReference { tileset } => AlphaSource::Reference {
            path: tileset.clone(),
        },
    };
    if !(info.columns > 0 && info.grid_size > 0 && tile_id >= 0) {
        assert(built_entry(info, tile_id, *metadata, Tessellation::Empty) == BuildModel::Ready(
            None,
        ));
        return TileBuild::Ready(None);
    }
    let t = tile_id as u32;
    let cols = info.columns as u32;
    let grid = info.grid_size as i64;
    assert((t % cols) as int * grid <= 0x7fff_ffff * 0x7fff_ffff) by (nonlinear_arith)
        requires
            t % cols < cols,
            cols <= 0x7fff_ffff,
            0 < grid <= 0x7fff_ffff,
    ;
    assert((t / cols) as int * grid <= 0x7fff_ffff * 0x7fff_ffff) by (nonlinear_arith)
        requires
            t / cols <= t,
            t <= 0x7fff_ffff,
            0 < grid <= 0x7fff_ffff,
    ;
    let request = TessellationRequest {
        tileset_uid: info.uid,
        source,
        x: (t % cols) as i64 * grid,
        y: (t / cols) as i64 * grid,
        size: grid,
    };
    assert(request == tile_request(
        info,
        tile_id,
        alpha_source_of(metadata->Some_0.collision)->Some_0,
    ));
    let traced = trace(request);
    proof {
        assert(traced_by(*trace, info, tile_id, *metadata, traced));
    }
    let ghost traced_model = traced;
    let r = match traced {
        Tessellation::ImageMissing => TileBuild::Deferred,
        Tessellation::Empty => TileBuild::Ready(None),
        Tessellation::Polygon(v) => {
            if v.len() >= 3 {
                TileBuild::Ready(
                    Some(
                        LdtkMapTilesetTileCacheItem {
                            collision_shape: CollisionShape::ConvexPolygon { vertices: v },
                            damage_region: meta.damage_region,
                        },
                    ),
                )
            } else {
                TileBuild::Ready(None)
            }
        },
    };
    assert(built_entry(info, tile_id, *metadata, traced_model) == r@);
    r
}

} // verus!
