//! Navigation meshes: a regular grid of points over a level, triangulated,
//! keeping only the triangles whose edges a probe can cross unobstructed.
use std::collections::HashMap;
use vstd::prelude::*;

use crate::geometry::{Vec2, copy_points};
use crate::level::Level;

verus! {

broadcast use vstd::std_specs::hash::group_hash_axioms;

/// A triangle given by three indices into a vertex list.
#[derive(Clone, Copy, Debug, PartialEq, Eq, Structural)]
pub struct Triangle {
    pub first: u32,
    pub second: u32,
    pub third: u32,
}

/// The layout of a level's point grid: `(columns + 1) * (rows + 1)` points,
/// `spacing` apart, the first at `origin` (half pixels).
#[derive(Clone, Copy, Debug, PartialEq, Eq, Structural)]
pub struct PointGrid {
    pub origin: Vec2,
    pub spacing: i64,
    pub columns: u32,
    pub rows: u32,
}

/// The grid of a level: cells the size of its first layer's grid, over the
/// level's pixel size, with points at cell centres and one row and column
/// more. `None` where the level has no layer or the cell size is not positive.
pub open spec fn level_grid(level: Level) -> Option<PointGrid> {
    if level.layers@.len() == 0 || level.layers@[0].grid_size <= 0 {
        None
    } else {
        let tile = level.layers@[0].grid_size as int;
        Some(
            PointGrid {
                origin: Vec2 {
                    x: (2 * level.world_x + tile) as i64,
                    y: (2 * level.world_y + tile) as i64,
                },
                spacing: (2 * tile) as i64,
                columns: (if level.px_wid > 0 { level.px_wid as int / tile } else { 0 }) as u32,
                rows: (if level.px_hei > 0 { level.px_hei as int / tile } else { 0 }) as u32,
            },
        )
    }
}

/// Point `i` of the grid; points go column by column.
pub open spec fn grid_point(g: PointGrid, i: int) -> Vec2 {
    let h = g.rows + 1;
    Vec2 {
        x: (g.origin.x + g.spacing * (i / h)) as i64,
        y: (g.origin.y + g.spacing * (i % h)) as i64,
    }
}

pub open spec fn grid_len(g: PointGrid) -> int {
    (g.columns + 1) * (g.rows + 1)
}

/// The grid's coordinates fit comfortably in `i64`.
pub open spec fn grid_ok(g: PointGrid) -> bool {
    &&& -0x4_0000_0000 <= g.origin.x <= 0x4_0000_0000
    &&& -0x4_0000_0000 <= g.origin.y <= 0x4_0000_0000
    &&& 0 <= g.spacing <= 0x4_0000_0000
    &&& g.spacing * g.columns <= 0x4_0000_0000
    &&& g.spacing * g.rows <= 0x4_0000_0000
}

/// The point grid of a level.
pub fn level_point_grid(level: &Level) -> (r: Option<PointGrid>)
    ensures
        r == level_grid(*level),
        r is Some ==> grid_ok(r->Some_0),
{
    if level.layers.len() == 0 || level.layers[0].grid_size <= 0 {
        return None;
    }
    let tile = level.layers[0].grid_size;
    let columns: u32 = if level.px_wid > 0 { level.px_wid as u32 / tile as u32 } else { 0 };
    let rows: u32 = if level.px_hei > 0 { level.px_hei as u32 / tile as u32 } else { 0 };
    let g = PointGrid {
        origin: Vec2 { x: 2 * level.world_x as i64 + tile as i64, y: 2 * level.world_y as i64 + tile as i64 },
        spacing: 2 * tile as i64,
        columns,
        rows,
    };
    proof {
        let t = tile as int;
        let c = columns as int;
        let w = rows as int;
        if level.px_wid > 0 {
            vstd::arithmetic::div_mod::lemma_fundamental_div_mod(level.px_wid as int, t);
            vstd::arithmetic::div_mod::lemma_mod_pos_bound(level.px_wid as int, t);
            assert(c == level.px_wid as int / t);
            assert(t * c <= level.px_wid);
        }
        if level.px_hei > 0 {
            vstd::arithmetic::div_mod::lemma_fundamental_div_mod(level.px_hei as int, t);
            vstd::arithmetic::div_mod::lemma_mod_pos_bound(level.px_hei as int, t);
            assert(w == level.px_hei as int / t);
            assert(t * w <= level.px_hei);
        }
        assert(0 <= t * c <= 0x7fff_ffff) by (nonlinear_arith) requires t > 0, c >= 0, level.px_wid > 0 ==> t * c <= level.px_wid, level.px_wid <= 0 ==> c == 0;
        assert(0 <= t * w <= 0x7fff_ffff) by (nonlinear_arith) requires t > 0, w >= 0, level.px_hei > 0 ==> t * w <= level.px_hei, level.px_hei <= 0 ==> w == 0;
        assert(g.spacing * g.columns == 2 * (t * c)) by (nonlinear_arith) requires g.spacing == 2 * t, g.columns == c;
        assert(g.spacing * g.rows == 2 * (t * w)) by (nonlinear_arith) requires g.spacing == 2 * t, g.rows == w;
    }
    Some(g)
}

/// The points of a grid, column by column.
pub fn grid_points(g: &PointGrid) -> (r: Vec<Vec2>)
    requires
        grid_ok(*g),
        grid_len(*g) <= usize::MAX,
    ensures
        r@.len() == grid_len(*g),
        forall|i: int| 0 <= i < r@.len() ==> #[trigger] r@[i] == grid_point(*g, i),
{
    let h = g.rows as u64 + 1;
    let mut r: Vec<Vec2> = Vec::new();
    let mut x: u64 = 0;
    while x <= g.columns as u64
        invariant
            h == g.rows + 1,
            0 <= x <= g.columns + 1,
            grid_ok(*g),
            grid_len(*g) <= usize::MAX,
            r@.len() == x * h,
            forall|i: int| 0 <= i < r@.len() ==> #[trigger] r@[i] == grid_point(*g, i),
        decreases g.columns + 1 - x,
    {
        let mut y: u64 = 0;
        while y < h
            invariant
                h == g.rows + 1,
                0 <= x <= g.columns,
                0 <= y <= h,
                grid_ok(*g),
                grid_len(*g) <= usize::MAX,
                r@.len() == x * h + y,
                forall|i: int| 0 <= i < r@.len() ==> #[trigger] r@[i] == grid_point(*g, i),
            decreases h - y,
        {
            let ghost idx = x * h + y;
            assert(idx / (h as int) == x && idx % (h as int) == y) by {
                vstd::arithmetic::div_mod::lemma_fundamental_div_mod_converse(idx, h as int, x as int, y as int);
            }
            assert(0 <= g.spacing * x <= g.spacing * g.columns) by (nonlinear_arith)
                requires 0 <= g.spacing, 0 <= x <= g.columns;
            assert(0 <= g.spacing * y <= g.spacing * g.rows) by (nonlinear_arith)
                requires 0 <= g.spacing, 0 <= y <= g.rows;
            let p = Vec2 {
                x: g.origin.x + g.spacing * x as i64,
                y: g.origin.y + g.spacing * y as i64,
            };
            assert((x + 1) * h <= grid_len(*g)) by (nonlinear_arith)
                requires x + 1 <= g.columns + 1, h == g.rows + 1, grid_len(*g) == (g.columns + 1) * (g.rows + 1), h >= 0;
            assert(x * h + y < (x + 1) * h) by (nonlinear_arith) requires y < h;
            r.push(p);
            y = y + 1;
        }
        assert(r@.len() == (x + 1) * h) by (nonlinear_arith) requires r@.len() == x * h + h;
        x = x + 1;
    }
    r
}

/// Groups a flat list of vertex indices into triangles, three at a time; a
/// trailing incomplete group is dropped.
pub fn triangles_from_indices(flat: &Vec<u32>) -> (r: Vec<Triangle>)
    ensures
        r@.len() == flat@.len() / 3,
        forall|i: int|
            0 <= i < r@.len() ==> #[trigger] r@[i] == (Triangle {
                first: flat@[3 * i],
                second: flat@[3 * i + 1],
                third: flat@[3 * i + 2],
            }),
{
    let mut r: Vec<Triangle> = Vec::new();
    let n = flat.len() / 3;
    let mut i: usize = 0;
    while i < n
        invariant
            n == flat@.len() / 3,
            flat@.len() <= usize::MAX,
            0 <= i <= n,
            r@.len() == i,
            forall|j: int|
                0 <= j < i ==> #[trigger] r@[j] == (Triangle {
                    first: flat@[3 * j],
                    second: flat@[3 * j + 1],
                    third: flat@[3 * j + 2],
                }),
        decreases n - i,
    {
        proof {
            let len = flat@.len() as int;
            vstd::arithmetic::div_mod::lemma_fundamental_div_mod(len, 3);
            vstd::arithmetic::div_mod::lemma_mod_pos_bound(len, 3);
            assert(3 * (i as int) + 3 <= 3 * (len / 3));
            assert(3 * (i as int) + 2 < len);
        }
        let k = 3 * i;
        r.push(Triangle { first: flat[k], second: flat[k + 1], third: flat[k + 2] });
        i = i + 1;
    }
    r
}

/// An edge as its two vertex indices, the smaller first.
pub open spec fn edge(a: u32, b: u32) -> (u32, u32) {
    if a <= b {
        (a, b)
    } else {
        (b, a)
    }
}

/// The three edges of a triangle.
pub open spec fn edges_of(t: Triangle) -> Seq<(u32, u32)> {
    seq![edge(t.first, t.second), edge(t.first, t.third), edge(t.second, t.third)]
}

/// Every edge of `t` is known clear in `m`.
pub open spec fn tri_clear(m: Map<(u32, u32), bool>, t: Triangle) -> bool {
    forall|k: int| 0 <= k < 3 ==> m.contains_key(#[trigger] edges_of(t)[k]) && m[edges_of(t)[k]]
}

/// Some edge of `t` is known blocked in `m`.
pub open spec fn tri_blocked(m: Map<(u32, u32), bool>, t: Triangle) -> bool {
    exists|k: int| 0 <= k < 3 && m.contains_key(#[trigger] edges_of(t)[k]) && !m[edges_of(t)[k]]
}

/// All three vertices of `t` are among the `n` points.
pub open spec fn tri_in_range(t: Triangle, n: int) -> bool {
    t.first < n && t.second < n && t.third < n
}

/// The triangles among the first `n` that lie on the points and whose edges
/// are all clear in `m`, in order.
pub open spec fn kept(tris: Seq<Triangle>, n: int, points: int, m: Map<(u32, u32), bool>) -> Seq<Triangle>
    decreases n,
{
    if n <= 0 {
        seq![]
    } else {
        let prev = kept(tris, n - 1, points, m);
        if tri_in_range(tris[n - 1], points) && tri_clear(m, tris[n - 1]) {
            prev.push(tris[n - 1])
        } else {
            prev
        }
    }
}

/// Every recorded edge result is one the probe may give for that edge.
pub open spec fn probes_agree<F: Fn(Vec2, Vec2) -> bool>(
    probe: F,
    points: Seq<Vec2>,
    m: Map<(u32, u32), bool>,
) -> bool {
    forall|e: (u32, u32)| #[trigger]
        m.contains_key(e) ==> e.0 < points.len() && e.1 < points.len() && probe.ensures(
            (points[e.0 as int], points[e.1 as int]),
            m[e],
        )
}

/// The result of pruning with edge results `m`: the kept triangles, and
/// every triangle on the points decided by `m`.
pub open spec fn pruned_with(
    tris: Seq<Triangle>,
    points: int,
    m: Map<(u32, u32), bool>,
    r: Seq<Triangle>,
) -> bool {
    &&& r == kept(tris, tris.len() as int, points, m)
    &&& forall|i: int|
        0 <= i < tris.len() && tri_in_range(#[trigger] tris[i], points) ==> tri_clear(m, tris[i])
            || tri_blocked(m, tris[i])
}

pub open spec fn edge_key(e: (u32, u32)) -> u64 {
    (e.0 as int * 0x1_0000_0000 + e.1 as int) as u64
}

proof fn lemma_edge_key_injective(a: (u32, u32), b: (u32, u32))
    requires
        edge_key(a) == edge_key(b),
    ensures
        a == b,
{
    let (x1, y1, x2, y2) = (a.0 as int, a.1 as int, b.0 as int, b.1 as int);
    assert(x1 * 0x1_0000_0000 + y1 == x2 * 0x1_0000_0000 + y2 ==> x1 == x2 && y1 == y2)
        by (nonlinear_arith)
        requires
            0 <= x1 < 0x1_0000_0000,
            0 <= x2 < 0x1_0000_0000,
            0 <= y1 < 0x1_0000_0000,
            0 <= y2 < 0x1_0000_0000,
    ;
}

/// Edge results kept while pruning, keyed by edge.
struct EdgeMemo {
    table: HashMap<u64, bool>,
}

impl View for EdgeMemo {
    type V = Map<(u32, u32), bool>;

    closed spec fn view(&self) -> Map<(u32, u32), bool> {
        Map::new(|e: (u32, u32)| self.table@.contains_key(edge_key(e)), |e: (u32, u32)| self.table@[edge_key(e)])
    }
}

impl EdgeMemo {
    fn new() -> (r: Self)
        ensures
            r@ == Map::<(u32, u32), bool>::empty(),
    {
        let r = EdgeMemo { table: HashMap::new() };
        assert(r@ =~= Map::<(u32, u32), bool>::empty());
        r
    }

    /// Whether edge `(a, b)` (with `a <= b`) is clear, probing it if it has
    /// not been probed before.
    fn clear<F: Fn(Vec2, Vec2) -> bool>(&mut self, a: u32, b: u32, points: &Vec<Vec2>, probe: &F) -> (r: bool)
        requires
            a <= b,
            b < points@.len(),
            forall|p: Vec2, q: Vec2| probe.requires((p, q)),
            probes_agree(*probe, points@, old(self)@),
        ensures
            probes_agree(*probe, points@, final(self)@),
            final(self)@.contains_key((a, b)),
            final(self)@[(a, b)] == r,
            forall|e: (u32, u32)| #[trigger]
                old(self)@.contains_key(e) ==> final(self)@.contains_key(e) && final(self)@[e] == old(self)@[e],
    {
        let key = (a as u64) * 0x1_0000_0000 + b as u64;
        assert(key == edge_key((a, b)));
        match self.table.get(&key) {
            Some(v) => {
                return *v;
            },
            None => {},
        }
        let v = probe(points[a as usize], points[b as usize]);
        let ghost old_view = self@;
        self.table.insert(key, v);
        proof {
            assert forall|e: (u32, u32)| #[trigger] edge_key(e) == edge_key((a, b)) implies e == (a, b) by {
                lemma_edge_key_injective(e, (a, b));
            }
            assert(self@ =~= old_view.insert((a, b), v));
        }
        v
    }
}

/// Keeps the triangles that lie on the points and whose three edges the
/// probe finds clear, in order. Each edge is probed at most once, from its
/// lower-numbered end, and a triangle's edges are probed only until one is
/// blocked. The result is exact with respect to some set `m` of edge results
/// that the probe may give.
pub fn prune_triangles<F: Fn(Vec2, Vec2) -> bool>(
    points: &Vec<Vec2>,
    tris: &Vec<Triangle>,
    probe: &F,
) -> (r: Vec<Triangle>)
    requires
        forall|p: Vec2, q: Vec2| probe.requires((p, q)),
    ensures
        exists|m: Map<(u32, u32), bool>|
            probes_agree(*probe, points@, m) && pruned_with(tris@, points@.len() as int, m, r@),
{
    let mut memo = EdgeMemo::new();
    let mut out: Vec<Triangle> = Vec::new();
    let n = points.len();
    let mut i: usize = 0;
    while i < tris.len()
        invariant
            n == points@.len(),
            0 <= i <= tris@.len(),
            forall|p: Vec2, q: Vec2| probe.requires((p, q)),
            probes_agree(*probe, points@, memo@),
            out@ == kept(tris@, i as int, n as int, memo@),
            forall|j: int|
                0 <= j < i && tri_in_range(#[trigger] tris@[j], n as int) ==> tri_clear(memo@, tris@[j])
                    || tri_blocked(memo@, tris@[j]),
        decreases tris@.len() - i,
    {
        let t = tris[i];
        let ghost before = memo@;
        if (t.first as usize) < n && (t.second as usize) < n && (t.third as usize) < n {
            let (a1, b1) = if t.first <= t.second { (t.first, t.second) } else { (t.second, t.first) };
            let (a2, b2) = if t.first <= t.third { (t.first, t.third) } else { (t.third, t.first) };
            let (a3, b3) = if t.second <= t.third { (t.second, t.third) } else { (t.third, t.second) };
            assert(edges_of(t)[0] == (a1, b1) && edges_of(t)[1] == (a2, b2) && edges_of(t)[2] == (a3, b3));
            let ok = memo.clear(a1, b1, points, probe) && memo.clear(a2, b2, points, probe)
                && memo.clear(a3, b3, points, probe);
            proof {
                if ok {
                    assert(tri_clear(memo@, t));
                } else {
                    assert(tri_blocked(memo@, t));
                }
            }
            if ok {
                out.push(t);
            }
        }
        proof {
            lemma_kept_stable(tris@, i as int, n as int, before, memo@);
            assert forall|j: int|
                0 <= j < i + 1 && tri_in_range(#[trigger] tris@[j], n as int) implies tri_clear(memo@, tris@[j])
                    || tri_blocked(memo@, tris@[j]) by {
                if j < i {
                    lemma_decided_stable(before, memo@, tris@[j]);
                }
            }
        }
        i = i + 1;
    }
    proof {
        assert(pruned_with(tris@, points@.len() as int, memo@, out@));
    }
    out
}

proof fn lemma_decided_stable(m: Map<(u32, u32), bool>, m2: Map<(u32, u32), bool>, t: Triangle)
    requires
        tri_clear(m, t) || tri_blocked(m, t),
        forall|e: (u32, u32)| #[trigger] m.contains_key(e) ==> m2.contains_key(e) && m2[e] == m[e],
    ensures
        tri_clear(m2, t) || tri_blocked(m2, t),
{
    if tri_blocked(m, t) {
        let k = choose|k: int| 0 <= k < 3 && m.contains_key(#[trigger] edges_of(t)[k]) && !m[edges_of(t)[k]];
        assert(m2.contains_key(edges_of(t)[k]) && !m2[edges_of(t)[k]]);
    } else {
        assert forall|k: int| 0 <= k < 3 implies m2.contains_key(#[trigger] edges_of(t)[k]) && m2[edges_of(t)[k]] by {
            assert(m.contains_key(edges_of(t)[k]));
        }
    }
}

proof fn lemma_kept_stable(
    tris: Seq<Triangle>,
    i: int,
    n: int,
    m: Map<(u32, u32), bool>,
    m2: Map<(u32, u32), bool>,
)
    requires
        0 <= i < tris.len(),
        forall|j: int|
            0 <= j < i && tri_in_range(#[trigger] tris[j], n) ==> tri_clear(m, tris[j]) || tri_blocked(
                m,
                tris[j],
            ),
        forall|e: (u32, u32)| #[trigger] m.contains_key(e) ==> m2.contains_key(e) && m2[e] == m[e],
    ensures
        kept(tris, i, n, m) == kept(tris, i, n, m2),
    decreases i,
{
    if i > 0 {
        lemma_kept_stable(tris, i - 1, n, m, m2);
        let t = tris[i - 1];
        if tri_in_range(t, n) {
            lemma_decided_stable(m, m2, t);
            if tri_clear(m, t) {
                assert forall|k: int| 0 <= k < 3 implies m2.contains_key(#[trigger] edges_of(t)[k]) && m2[edges_of(t)[k]] by {
                    assert(m.contains_key(edges_of(t)[k]));
                }
            } else {
                assert(tri_blocked(m, t));
                let k = choose|k: int| 0 <= k < 3 && m.contains_key(#[trigger] edges_of(t)[k]) && !m[edges_of(t)[k]];
                assert(!tri_clear(m2, t));
            }
        }
    }
}

/// The pruned mesh keeps exactly the triangles that lie on the points and
/// whose three edges are clear: one with a blocked edge is left out, one in
/// open space stays.
pub proof fn lemma_kept_exactly(tris: Seq<Triangle>, n: int, points: int, m: Map<(u32, u32), bool>)
    requires
        0 <= n <= tris.len(),
    ensures
        forall|t: Triangle|
            kept(tris, n, points, m).contains(t) ==> tri_in_range(t, points) && tri_clear(m, t),
        forall|i: int|
            0 <= i < n && tri_in_range(tris[i], points) && tri_clear(m, tris[i]) ==> kept(
                tris,
                n,
                points,
                m,
            ).contains(tris[i]),
    decreases n,
{
    if n > 0 {
        lemma_kept_exactly(tris, n - 1, points, m);
        let prev = kept(tris, n - 1, points, m);
        let t = tris[n - 1];
        if tri_in_range(t, points) && tri_clear(m, t) {
            let cur = prev.push(t);
            assert forall|u: Triangle| cur.contains(u) implies tri_in_range(u, points) && tri_clear(m, u) by {
                let j = choose|j: int| 0 <= j < cur.len() && cur[j] == u;
                if j < prev.len() {
                    assert(prev[j] == u);
                }
            }
            assert forall|i: int|
                0 <= i < n && tri_in_range(tris[i], points) && tri_clear(m, tris[i]) implies cur.contains(tris[i]) by {
                if i < n - 1 {
                    let j = choose|j: int| 0 <= j < prev.len() && prev[j] == tris[i];
                    assert(cur[j] == tris[i]);
                } else {
                    assert(cur[prev.len() as int] == tris[i]);
                }
            }
        }
    }
}

/// What building a level's mesh may give: `None` exactly where the level has
/// no grid, the grid is too large to list, or the triangulation of the grid
/// points failed; otherwise the grid points and the triangles of a
/// triangulation of them pruned with results the probe may give.
pub open spec fn navmesh_outcome<T: Fn(Vec<Vec2>) -> Option<Vec<u32>>, F: Fn(Vec2, Vec2) -> bool>(
    triangulate: T,
    probe: F,
    level: Level,
    r: Option<LevelNavMesh>,
) -> bool {
    &&& (level_grid(level) is None ==> r is None)
    &&& (r is None && level_grid(level) is Some && grid_len(level_grid(level)->Some_0) <= usize::MAX
            ==> exists|pts: Vec<Vec2>|
            pts@ == grid_seq(level_grid(level)->Some_0) && #[trigger] triangulate.ensures(
                (pts,),
                None::<Vec<u32>>,
            ))
    &&& (r is Some ==> level_grid(level) is Some)
    &&& (r is Some ==> r->Some_0.vertices@.len() == grid_len(level_grid(level)->Some_0))
    &&& (r is Some ==> forall|i: int|
            0 <= i < r->Some_0.vertices@.len() ==> #[trigger] r->Some_0.vertices@[i] == grid_point(
                level_grid(level)->Some_0,
                i,
            ))
    &&& (r is Some ==> exists|pts: Vec<Vec2>, flat: Vec<u32>, m: Map<(u32, u32), bool>|
            #[trigger] mesh_built_from(triangulate, probe, r->Some_0, pts, flat, m))
}

/// A level's navigation mesh: the grid points and the triangles kept.
pub struct LevelNavMesh {
    pub vertices: Vec<Vec2>,
    pub triangles: Vec<Triangle>,
}

/// Builds a level's navigation mesh: lays out the level's point grid, has
/// `triangulate` triangulate it (a flat list of vertex indices, three per
/// triangle, or `None` where the points are degenerate), and keeps the
/// triangles whose edges `probe` finds clear. `None` where the level has no
/// grid, the grid is too large to list, or triangulation fails.
pub fn build_level_navmesh<T: Fn(Vec<Vec2>) -> Option<Vec<u32>>, F: Fn(Vec2, Vec2) -> bool>(
    level: &Level,
    triangulate: &T,
    probe: &F,
) -> (r: Option<LevelNavMesh>)
    requires
        forall|v: Vec<Vec2>| triangulate.requires((v,)),
        forall|p: Vec2, q: Vec2| probe.requires((p, q)),
    ensures
        navmesh_outcome(*triangulate, *probe, *level, r),
{
    let g = match level_point_grid(level) {
        None => return None,
        Some(g) => g,
    };
    let columns = g.columns as u64 + 1;
    let rows = g.rows as u64 + 1;
    if columns > usize::MAX as u64 / rows {
        proof {
            let q = usize::MAX as int / rows as int;
            vstd::arithmetic::div_mod::lemma_fundamental_div_mod(usize::MAX as int, rows as int);
            vstd::arithmetic::div_mod::lemma_mod_pos_bound(usize::MAX as int, rows as int);
            assert(columns * rows > usize::MAX) by (nonlinear_arith)
                requires columns >= q + 1, rows > 0,
                    usize::MAX as int == rows * q + usize::MAX as int % rows as int,
                    (usize::MAX as int % rows as int) < rows;
            assert(grid_len(g) == columns * rows);
        }
        return None;
    }
    proof {
        vstd::arithmetic::div_mod::lemma_fundamental_div_mod(usize::MAX as int, rows as int);
        vstd::arithmetic::div_mod::lemma_mod_pos_bound(usize::MAX as int, rows as int);
        assert(columns * rows <= usize::MAX) by (nonlinear_arith)
            requires columns <= usize::MAX as int / rows as int, rows > 0,
                usize::MAX as int == rows * (usize::MAX as int / rows as int) + usize::MAX as int % rows as int,
                usize::MAX as int % rows as int >= 0;
    }
    let vertices = grid_points(&g);
    let pts = copy_points(&vertices);
    let ghost p = pts;
    let res = triangulate(pts);
    let flat = match res {
        None => {
            proof {
                assert(p@ =~= grid_seq(g));
                assert(triangulate.ensures((p,), None::<Vec<u32>>));
            }
            return None;
        },
        Some(f) => f,
    };
    assert(triangulate.ensures((p,), Some(flat)));
    let tris = triangles_from_indices(&flat);
    proof {
        assert(tris@ =~= flat_triangles(flat@));
    }
    let triangles = prune_triangles(&vertices, &tris, probe);
    let mesh = LevelNavMesh { vertices, triangles };
    proof {
        let m = choose|m: Map<(u32, u32), bool>|
            probes_agree(*probe, vertices@, m) && pruned_with(tris@, vertices@.len() as int, m, mesh.triangles@);
        assert(p@ == mesh.vertices@);
        assert(pruned_with(flat_triangles(flat@), mesh.vertices@.len() as int, m, mesh.triangles@));
        assert(mesh_built_from(*triangulate, *probe, mesh, p, flat, m));
    }
    let r = Some(mesh);
    assert(r->Some_0 == mesh);
    r
}

/// `mesh` holds the triangles of `flat`, the triangulation of the points
/// `pts`, pruned with the edge results `m` that the probe may give.
pub open spec fn mesh_built_from<T: Fn(Vec<Vec2>) -> Option<Vec<u32>>, F: Fn(Vec2, Vec2) -> bool>(
    triangulate: T,
    probe: F,
    mesh: LevelNavMesh,
    pts: Vec<Vec2>,
    flat: Vec<u32>,
    m: Map<(u32, u32), bool>,
) -> bool {
    &&& pts@ == mesh.vertices@
    &&& triangulate.ensures((pts,), Some(flat))
    &&& probes_agree(probe, mesh.vertices@, m)
    &&& pruned_with(flat_triangles(flat@), mesh.vertices@.len() as int, m, mesh.triangles@)
}

/// All the points of a grid, column by column.
pub open spec fn grid_seq(g: PointGrid) -> Seq<Vec2> {
    Seq::new(grid_len(g) as nat, |i: int| grid_point(g, i))
}

/// The triangles of a flat list of vertex indices, three at a time.
pub open spec fn flat_triangles(flat: Seq<u32>) -> Seq<Triangle> {
    Seq::new(
        flat.len() / 3,
        |i: int| Triangle { first: flat[3 * i], second: flat[3 * i + 1], third: flat[3 * i + 2] },
    )
}

} // verus!
