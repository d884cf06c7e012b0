//! The collision detector: an axis-aligned bounding-box overlap test.
//!
//! Boxes are given by a centre position and a full extent per axis; two
//! boxes overlap when the intervals they span intersect strictly on both
//! the x and the y axis. The detector is pure: it reports overlaps and
//! leaves every reaction to the world-switch state machine.

use vstd::prelude::*;

use crate::geom::{abs_i, Vec2i, Vec3i};
use crate::store::{
    has_movement, is_player_at, one_player, ColliderKind, Entity, World, DEFAULT_SPRITE_H,
    DEFAULT_SPRITE_W,
};

verus! {

/// Width of the fixed trigger box used for every collider entity,
/// 100 world units in subunits.
pub const TRIGGER_BOX_W: i64 = 700000;

/// Height of the fixed trigger box used for every collider entity,
/// 200 world units in subunits.
pub const TRIGGER_BOX_H: i64 = 1400000;

/// The fixed trigger-box extent: it stands in for the declared sprite
/// size of every collider entity during trigger detection.
pub open spec fn trigger_box() -> Vec2i {
    Vec2i { x: TRIGGER_BOX_W, y: TRIGGER_BOX_H }
}

/// Strict interval-intersection test on both axes: the boxes centred at
/// `a_pos` and `b_pos`, with full extents `a_size` and `b_size`, share
/// interior points. Touching edges do not overlap.
pub open spec fn overlap_spec(a_pos: Vec3i, a_size: Vec2i, b_pos: Vec3i, b_size: Vec2i) -> bool {
    &&& 2 * abs_i(a_pos.x - b_pos.x) < a_size.x + b_size.x
    &&& 2 * abs_i(a_pos.y - b_pos.y) < a_size.y + b_size.y
}

/// The sprite extent an entity presents to the collision test: its
/// declared bounds, or the default bounds when it declares none.
pub open spec fn sprite_size(e: Entity) -> Vec2i {
    match e.custom_size {
        Some(s) => s,
        None => Vec2i { x: DEFAULT_SPRITE_W, y: DEFAULT_SPRITE_H },
    }
}

/// AABB overlap test. The arithmetic is carried out in `i128`, so every
/// `i64` position and extent is accepted exactly, with no clamping.
pub fn overlap(a_pos: Vec3i, a_size: Vec2i, b_pos: Vec3i, b_size: Vec2i) -> (r: bool)
    ensures
        r == overlap_spec(a_pos, a_size, b_pos, b_size),
{
    let dx: i128 = 2 * ((a_pos.x as i128) - (b_pos.x as i128));
    let adx: i128 = if dx < 0 {
        -dx
    } else {
        dx
    };
    let wsum: i128 = (a_size.x as i128) + (b_size.x as i128);
    let dy: i128 = 2 * ((a_pos.y as i128) - (b_pos.y as i128));
    let ady: i128 = if dy < 0 {
        -dy
    } else {
        dy
    };
    let hsum: i128 = (a_size.y as i128) + (b_size.y as i128);
    adx < wsum && ady < hsum
}

/// The overlap test is symmetric in its two boxes, for all positions and
/// extents.
pub proof fn lemma_overlap_symmetric(a_pos: Vec3i, a_size: Vec2i, b_pos: Vec3i, b_size: Vec2i)
    ensures
        overlap_spec(a_pos, a_size, b_pos, b_size) == overlap_spec(b_pos, b_size, a_pos, a_size),
{
}

/// `j` indexes a collider entity tagged `Area`.
pub open spec fn is_area_at(s: Seq<Entity>, j: int) -> bool {
    0 <= j < s.len() && s[j].collider == Some(ColliderKind::Area)
}

/// The player's AABB, from its render translation and sprite extent,
/// overlaps the fixed trigger box of some `Area` collider.
pub open spec fn overlaps_area(s: Seq<Entity>) -> bool {
    exists|i: int, j: int|
        #![trigger is_player_at(s, i), is_area_at(s, j)]
        is_player_at(s, i) && is_area_at(s, j) && overlap_spec(
            s[i].translation,
            sprite_size(s[i]),
            s[j].translation,
            trigger_box(),
        )
}

/// Finds the index of the unique player entity.
pub fn find_player(w: &World) -> (r: usize)
    requires
        one_player(w.entities@),
    ensures
        is_player_at(w.entities@, r as int),
{
    let ghost s = w.entities@;
    let n = w.entities.len();
    let mut i: usize = 0;
    while i < n
        invariant
            n == s.len(),
            s == w.entities@,
            i <= n,
            forall|j: int| 0 <= j < i ==> !has_movement(s[j]),
        decreases n - i,
    {
        if w.entities[i].movement.is_some() {
            return i;
        }
        i += 1;
    }
    proof {
        let k = choose|k: int| is_player_at(s, k);
        assert(!has_movement(s[k]));
        assert(false);
    }
    0
}

/// Evaluates the collision detector for one tick: does the player's AABB
/// overlap the fixed trigger box of any `Area` collider?
pub fn player_overlaps_area(w: &World) -> (r: bool)
    requires
        one_player(w.entities@),
    ensures
        r == overlaps_area(w.entities@),
{
    let ghost s = w.entities@;
    let pi = find_player(w);
    let player = w.entities[pi];
    let psize = match player.custom_size {
        Some(sz) => sz,
        None => Vec2i { x: DEFAULT_SPRITE_W, y: DEFAULT_SPRITE_H },
    };
    assert(psize == sprite_size(s[pi as int]));
    let n = w.entities.len();
    let mut j: usize = 0;
    while j < n
        invariant
            n == s.len(),
            s == w.entities@,
            j <= n,
            is_player_at(s, pi as int),
            player == s[pi as int],
            psize == sprite_size(s[pi as int]),
            forall|jj: int|
                0 <= jj < j ==> !(is_area_at(s, jj) && overlap_spec(
                    s[pi as int].translation,
                    sprite_size(s[pi as int]),
                    s[jj].translation,
                    trigger_box(),
                )),
        decreases n - j,
    {
        let e = w.entities[j];
        let is_area = match e.collider {
            Some(ColliderKind::Area) => true,
            _ => false,
        };
        if is_area {
            let tbox = Vec2i { x: TRIGGER_BOX_W, y: TRIGGER_BOX_H };
            if overlap(player.translation, psize, e.translation, tbox) {
                assert(is_area_at(s, j as int));
                assert(overlaps_area(s));
                return true;
            }
        }
        j += 1;
    }
    proof {
        if overlaps_area(s) {
            let (a, b) = choose|a: int, b: int|
                #![trigger is_player_at(s, a), is_area_at(s, b)]
                is_player_at(s, a) && is_area_at(s, b) && overlap_spec(
                    s[a].translation,
                    sprite_size(s[a]),
                    s[b].translation,
                    trigger_box(),
                );
            assert(a == pi as int);
            assert(false);
        }
    }
    false
}

} // verus!
