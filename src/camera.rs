//! Keeping the camera inside the level it shows.
use vstd::prelude::*;

verus! {

/// The camera centre on one axis after it follows `target`: centred on the
/// target, then pushed back inside `[layer_min, layer_min + layer_size)`
/// where the level is wider than the view; a narrower level is not clamped.
pub open spec fn clamp_axis(target: int, view: int, layer_min: int, layer_size: int) -> int {
    let view_min = target - view / 2;
    let view_max = view_min + view;
    let layer_max = layer_min + layer_size;
    if layer_size > view {
        let pushed = if layer_min > view_min {
            target + (layer_min - view_min)
        } else {
            target
        };
        let pushed_min = pushed - view / 2;
        if layer_max < pushed_min + view {
            pushed - (pushed_min + view - layer_max)
        } else {
            pushed
        }
    } else {
        target
    }
}

/// Follows `target` on one axis, keeping the view inside the layer; all in
/// pixels, sizes not negative.
pub fn follow_axis(target: i32, view: u32, layer_min: i32, layer_size: u32) -> (r: i64)
    requires
        view <= 0x7fff_ffff,
        layer_size <= 0x7fff_ffff,
    ensures
        r == clamp_axis(target as int, view as int, layer_min as int, layer_size as int),
{
    let t = target as i64;
    let v = view as i64;
    let view_min = t - v / 2;
    let view_max = view_min + v;
    let layer_max = layer_min as i64 + layer_size as i64;
    if layer_size as i64 > v {
        let mut pos = t;
        if layer_min as i64 > view_min {
            pos = pos + (layer_min as i64 - view_min);
        }
        let pushed_min = pos - v / 2;
        if layer_max < pushed_min + v {
            pos = pos - (pushed_min + v - layer_max);
        }
        pos
    } else {
        t
    }
}

/// With a level wider than the view, the followed view lies inside it.
pub proof fn lemma_view_inside_level(target: int, view: int, layer_min: int, layer_size: int)
    requires
        0 <= view < layer_size,
    ensures
        ({
            let c = clamp_axis(target, view, layer_min, layer_size);
            layer_min <= c - view / 2 && c - view / 2 + view <= layer_min + layer_size
        }),
{
}

} // verus!
