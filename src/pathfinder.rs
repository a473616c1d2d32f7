//! Steering enemies toward the player: straight at the player when nothing
//! is in the way, else along a path through the level's navigation mesh.
use vstd::prelude::*;

use crate::entrances::EnemySpawn;
use crate::geometry::Vec2;

verus! {

/// An enemy with a debug drawing of its path; names the enemy by index.
#[derive(Clone, Copy, Debug, PartialEq, Eq, Structural)]
pub struct EnemyPathfindingDebugViz {
    pub enemy_ent: u64,
}

/// The first point from index `from` on that differs from `at`.
pub open spec fn first_away(path: Seq<Vec2>, at: Vec2, from: int) -> Option<Vec2>
    decreases path.len() - from,
{
    if from < 0 || from >= path.len() {
        None
    } else if path[from] != at {
        Some(path[from])
    } else {
        first_away(path, at, from + 1)
    }
}

/// Where an enemy at `enemy` heads: the player, when the straight line is
/// clear; else the first point of the mesh path that is not where the enemy
/// stands. `None` means the enemy stays idle.
pub open spec fn chase_target_spec(enemy: Vec2, player: Vec2, line_clear: bool, path: Option<Seq<Vec2>>) -> Option<Vec2> {
    if line_clear {
        if player != enemy {
            Some(player)
        } else {
            None
        }
    } else {
        match path {
            Some(p) => first_away(p, enemy, 0),
            None => None,
        }
    }
}

/// Chooses the point an enemy moves toward; see [`chase_target_spec`].
/// `line_clear` says that a probe from the enemy first hits the player;
/// `path` is the mesh path to the player, where one was found.
pub fn chase_target(enemy: Vec2, player: Vec2, line_clear: bool, path: &Option<Vec<Vec2>>) -> (r: Option<Vec2>)
    ensures
        r == chase_target_spec(
            enemy,
            player,
            line_clear,
            match path {
                Some(p) => Some(p@),
                None => None,
            },
        ),
{
    if line_clear {
        return if player != enemy { Some(player) } else { None };
    }
    match path {
        None => None,
        Some(p) => {
            let mut i: usize = 0;
            while i < p.len()
                invariant
                    0 <= i <= p@.len(),
                    !line_clear,
                    *path == Some(*p),
                    first_away(p@, enemy, i as int) == first_away(p@, enemy, 0),
                decreases p@.len() - i,
            {
                let q = p[i];
                if q != enemy {
                    assert(p@[i as int] != enemy);
                    assert(first_away(p@, enemy, i as int) == Some(q));
                    return Some(q);
                }
                i = i + 1;
            }
            None
        },
    }
}

/// The enemies that belong to the level being shown; the others are not
/// moved at all.
pub fn active_enemies(enemies: &Vec<EnemySpawn>, current_level: &String) -> (r: Vec<usize>)
    ensures
        forall|k: int| 0 <= k < r@.len() ==> #[trigger] r@[k] < enemies@.len(),
        forall|k: int, j: int| 0 <= k < j < r@.len() ==> r@[k] < r@[j],
        forall|i: usize|
            i < enemies@.len() ==> (#[trigger] r@.contains(i) <==> enemies@[i as int].level@
                == current_level@),
{
    let mut r: Vec<usize> = Vec::new();
    let mut i: usize = 0;
    while i < enemies.len()
        invariant
            0 <= i <= enemies@.len(),
            forall|k: int| 0 <= k < r@.len() ==> #[trigger] r@[k] < i,
            forall|k: int, j: int| 0 <= k < j < r@.len() ==> r@[k] < r@[j],
            forall|j: usize|
                j < i ==> (#[trigger] r@.contains(j) <==> enemies@[j as int].level@ == current_level@),
        decreases enemies@.len() - i,
    {
        let ghost prev = r@;
        if enemies[i].level.eq(current_level) {
            r.push(i);
            proof {
                assert(r@[prev.len() as int] == i);
                assert forall|j: usize| j < i implies (#[trigger] r@.contains(j) <==> prev.contains(j)) by {
                    if r@.contains(j) {
                        let k = choose|k: int| 0 <= k < r@.len() && r@[k] == j;
                        if k < prev.len() {
                            assert(prev[k] == j);
                        }
                    }
                    if prev.contains(j) {
                        let k = choose|k: int| 0 <= k < prev.len() && prev[k] == j;
                        assert(r@[k] == j);
                    }
                }
                assert(r@.contains(i));
            }
        } else {
            proof {
                if r@.contains(i) {
                    let k = choose|k: int| 0 <= k < r@.len() && r@[k] == i;
                }
            }
        }
        i = i + 1;
    }
    r
}

} // verus!
