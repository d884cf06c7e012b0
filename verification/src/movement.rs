//! The movement integrator.
//!
//! Each tick, the set of held directional inputs is turned into a raw
//! direction vector (one unit per held direction, opposite directions
//! cancelling), the vector is normalized to the fixed movement speed,
//! and the player's location integrates it. The render translation is
//! written from the location every tick, held keys or not.
//!
//! Normalization is exact in fixed point: an axis-aligned direction
//! moves [`SPEED_AXIS`] subunits, a diagonal one [`SPEED_DIAG`] on each
//! axis, so that the displacement magnitude is the speed scale of 1.5
//! world units either way, up to the fixed-point tolerance proved in
//! [`lemma_normalized_step_magnitude`].

use vstd::prelude::*;

use crate::geom::{mag_sq, vadd, Vec3i};
use crate::store::{entity_wf, store_wf, Entity, Movement, World, COORD_LIMIT};

verus! {

/// Per-axis displacement of an axis-aligned step: 1.5 world units in
/// subunits.
pub const SPEED_AXIS: i64 = 10500;

/// Per-axis displacement of a diagonal step: `1.5 / sqrt(2)` world units
/// in subunits, rounded to the nearest subunit.
pub const SPEED_DIAG: i64 = 7425;

/// Squared magnitude of the per-tick displacement at the exact speed
/// scale: `SPEED_AXIS * SPEED_AXIS`.
pub const SPEED_SQ: i64 = 110250000;

/// Tolerance on the squared displacement magnitude introduced by
/// rounding the diagonal step to whole subunits:
/// `2 * SPEED_DIAG * SPEED_DIAG - SPEED_SQ`.
pub const STEP_TOL: i64 = 11250;

/// The set of currently-held inputs, one flag per recognized action:
/// the four movement directions and the edge-triggered reset.
#[derive(Clone, Copy, Debug, PartialEq, Eq, Structural)]
pub struct InputState {
    pub up: bool,
    pub down: bool,
    pub left: bool,
    pub right: bool,
    pub reset: bool,
}

impl InputState {
    /// No keys held.
    pub open spec fn idle_spec() -> InputState {
        InputState { up: false, down: false, left: false, right: false, reset: false }
    }

    pub fn idle() -> (r: InputState)
        ensures
            r == InputState::idle_spec(),
    {
        InputState { up: false, down: false, left: false, right: false, reset: false }
    }
}

/// The raw direction vector of the held inputs: one unit per held
/// direction, north `+Y`, south `-Y`, west `-X`, east `+X`, opposite
/// directions cancelling.
pub open spec fn dir_of_input(inp: InputState) -> Vec3i {
    Vec3i {
        x: if inp.right && !inp.left {
            1
        } else if inp.left && !inp.right {
            (-1) as i64
        } else {
            0
        },
        y: if inp.up && !inp.down {
            1
        } else if inp.down && !inp.up {
            (-1) as i64
        } else {
            0
        },
        z: 0,
    }
}

/// The normalized, speed-scaled displacement of one tick for the raw
/// direction `v`: zero stays zero, an axis-aligned direction moves
/// `SPEED_AXIS` on its axis, a diagonal one `SPEED_DIAG` on both.
pub open spec fn step_of(v: Vec3i) -> Vec3i {
    if v.x != 0 && v.y != 0 {
        Vec3i {
            x: if v.x > 0 {
                SPEED_DIAG
            } else {
                (-SPEED_DIAG) as i64
            },
            y: if v.y > 0 {
                SPEED_DIAG
            } else {
                (-SPEED_DIAG) as i64
            },
            z: 0,
        }
    } else {
        Vec3i {
            x: if v.x > 0 {
                SPEED_AXIS
            } else if v.x < 0 {
                (-SPEED_AXIS) as i64
            } else {
                0
            },
            y: if v.y > 0 {
                SPEED_AXIS
            } else if v.y < 0 {
                (-SPEED_AXIS) as i64
            } else {
                0
            },
            z: 0,
        }
    }
}

/// One entity after input resolution: a player entity has its velocity
/// rewritten from scratch to the raw direction vector; any other entity
/// is untouched.
pub open spec fn with_velocity(e: Entity, inp: InputState) -> Entity {
    match e.movement {
        Some(m) => Entity {
            movement: Some(Movement { location: m.location, velocity: dir_of_input(inp) }),
            ..e
        },
        None => e,
    }
}

/// One entity after movement integration: a player entity adds the
/// normalized step to its location when its velocity is non-zero, and
/// its render translation is written from the location either way; any
/// other entity is untouched.
pub open spec fn integrated(e: Entity) -> Entity {
    match e.movement {
        Some(m) => {
            let nl = if m.velocity.is_zero() {
                m.location
            } else {
                vadd(m.location, step_of(m.velocity))
            };
            Entity { translation: nl, movement: Some(Movement { location: nl, velocity: m.velocity }), ..e }
        },
        None => e,
    }
}

/// One entity after a full movement tick: input resolution, then
/// integration.
pub open spec fn move_entity(e: Entity, inp: InputState) -> Entity {
    integrated(with_velocity(e, inp))
}

/// The whole store after a full movement tick.
pub open spec fn moved_store(s: Seq<Entity>, inp: InputState) -> Seq<Entity> {
    s.map_values(|e: Entity| move_entity(e, inp))
}

/// Player locations lie within [`COORD_LIMIT`], so the integrator's
/// addition fits in `i64`. This is a machine limit, far outside any
/// playable area.
pub open spec fn players_in_play(s: Seq<Entity>) -> bool {
    forall|i: int|
        0 <= i < s.len() ==> match (#[trigger] s[i]).movement {
            Some(m) => -COORD_LIMIT <= m.location.x <= COORD_LIMIT && -COORD_LIMIT <= m.location.y
                <= COORD_LIMIT,
            None => true,
        }
}

/// Decides [`players_in_play`], so a host program can test the machine
/// limit before running a tick.
pub fn players_within_bounds(w: &World) -> (r: bool)
    ensures
        r == players_in_play(w.entities@),
{
    let ghost s = w.entities@;
    let n = w.entities.len();
    let mut i: usize = 0;
    while i < n
        invariant
            n == s.len(),
            s == w.entities@,
            i <= n,
            forall|j: int|
                0 <= j < i ==> match (#[trigger] s[j]).movement {
                    Some(m) => -COORD_LIMIT <= m.location.x <= COORD_LIMIT && -COORD_LIMIT
                        <= m.location.y <= COORD_LIMIT,
                    None => true,
                },
        decreases n - i,
    {
        match w.entities[i].movement {
            Some(m) => {
                if m.location.x < -COORD_LIMIT || m.location.x > COORD_LIMIT || m.location.y
                    < -COORD_LIMIT || m.location.y > COORD_LIMIT {
                    return false;
                }
            },
            None => {},
        }
        i += 1;
    }
    true
}

/// Input resolution: resets every player velocity to zero and
/// accumulates one unit per held direction, exactly once per tick.
pub fn apply_input(w: &mut World, inp: &InputState)
    ensures
        final(w).entities@ == old(w).entities@.map_values(
            |e: Entity| with_velocity(e, *inp),
        ),
        final(w).next_id == old(w).next_id,
{
    let ghost s = old(w).entities@;
    let mut vx: i64 = 0;
    let mut vy: i64 = 0;
    if inp.up {
        vy = vy + 1;
    }
    if inp.down {
        vy = vy - 1;
    }
    if inp.left {
        vx = vx - 1;
    }
    if inp.right {
        vx = vx + 1;
    }
    assert(Vec3i { x: vx, y: vy, z: 0 } == dir_of_input(*inp));
    let n = w.entities.len();
    let mut i: usize = 0;
    while i < n
        invariant
            n == s.len(),
            w.entities@.len() == n,
            w.next_id == old(w).next_id,
            i <= n,
            vx == dir_of_input(*inp).x && vy == dir_of_input(*inp).y,
            forall|j: int| 0 <= j < i ==> w.entities@[j] == with_velocity(s[j], *inp),
            forall|j: int| i <= j < n ==> w.entities@[j] == s[j],
        decreases n - i,
    {
        let e = w.entities[i];
        match e.movement {
            Some(m) => {
                let ne = Entity {
                    movement: Some(
                        Movement { location: m.location, velocity: Vec3i { x: vx, y: vy, z: 0 } },
                    ),
                    ..e
                };
                w.entities.set(i, ne);
            },
            None => {},
        }
        i += 1;
    }
    proof {
        assert(w.entities@ =~= s.map_values(|e: Entity| with_velocity(e, *inp)));
    }
}

/// Movement integration: every player entity with a non-zero velocity
/// normalizes it to the movement speed and adds it to its location; the
/// render translation is written from the location for every player,
/// held keys or not.
pub fn integrate_movement(w: &mut World)
    requires
        players_in_play(old(w).entities@),
        store_wf(old(w).entities@, old(w).next_id),
    ensures
        final(w).entities@ == old(w).entities@.map_values(|e: Entity| integrated(e)),
        final(w).next_id == old(w).next_id,
{
    let ghost s = old(w).entities@;
    let n = w.entities.len();
    let mut i: usize = 0;
    while i < n
        invariant
            n == s.len(),
            w.entities@.len() == n,
            w.next_id == old(w).next_id,
            i <= n,
            players_in_play(s),
            store_wf(s, old(w).next_id),
            forall|j: int| 0 <= j < i ==> w.entities@[j] == integrated(s[j]),
            forall|j: int| i <= j < n ==> w.entities@[j] == s[j],
        decreases n - i,
    {
        let e = w.entities[i];
        match e.movement {
            Some(m) => {
                assert(entity_wf(s[i as int]));
                let v = m.velocity;
                let nl = if v.x == 0 && v.y == 0 && v.z == 0 {
                    m.location
                } else {
                    let sx: i64 = if v.x != 0 && v.y != 0 {
                        if v.x > 0 {
                            SPEED_DIAG
                        } else {
                            -SPEED_DIAG
                        }
                    } else if v.x > 0 {
                        SPEED_AXIS
                    } else if v.x < 0 {
                        -SPEED_AXIS
                    } else {
                        0
                    };
                    let sy: i64 = if v.x != 0 && v.y != 0 {
                        if v.y > 0 {
                            SPEED_DIAG
                        } else {
                            -SPEED_DIAG
                        }
                    } else if v.y > 0 {
                        SPEED_AXIS
                    } else if v.y < 0 {
                        -SPEED_AXIS
                    } else {
                        0
                    };
                    assert(sx == step_of(v).x && sy == step_of(v).y && step_of(v).z == 0);
                    Vec3i { x: m.location.x + sx, y: m.location.y + sy, z: m.location.z }
                };
                let ne = Entity {
                    translation: nl,
                    movement: Some(Movement { location: nl, velocity: v }),
                    ..e
                };
                assert(ne == integrated(s[i as int]));
                w.entities.set(i, ne);
            },
            None => {},
        }
        i += 1;
    }
    proof {
        assert(w.entities@ =~= s.map_values(|e: Entity| integrated(e)));
    }
}

/// Normalization invariant: for any non-zero combination of held
/// directional inputs, the squared magnitude of the per-tick
/// displacement lies within [`STEP_TOL`] of the squared speed scale
/// [`SPEED_SQ`], however many directions are combined — a diagonal input
/// does not move faster than an axis-aligned one.
pub proof fn lemma_normalized_step_magnitude(inp: InputState)
    requires
        !dir_of_input(inp).is_zero(),
    ensures
        SPEED_SQ - STEP_TOL <= mag_sq(step_of(dir_of_input(inp))) <= SPEED_SQ + STEP_TOL,
{
    let v = dir_of_input(inp);
    let st = step_of(v);
    let sx = st.x as int;
    let sy = st.y as int;
    assert(st.z == 0);
    assert(st.z * st.z == 0) by (nonlinear_arith)
        requires
            st.z == 0,
    ;
    assert(mag_sq(st) == sx * sx + sy * sy);
    if v.x != 0 && v.y != 0 {
        assert(sx == 7425 || sx == -7425);
        assert(sy == 7425 || sy == -7425);
        assert(sx * sx == 55130625) by (nonlinear_arith)
            requires
                sx == 7425 || sx == -7425,
        ;
        assert(sy * sy == 55130625) by (nonlinear_arith)
            requires
                sy == 7425 || sy == -7425,
        ;
    } else {
        assert(sx == 10500 || sx == -10500 || sx == 0);
        assert(sy == 10500 || sy == -10500 || sy == 0);
        assert(!(sx == 0 && sy == 0));
        assert(sx * sx == 110250000 || sx == 0) by (nonlinear_arith)
            requires
                sx == 10500 || sx == -10500 || sx == 0,
        ;
        assert(sy * sy == 110250000 || sy == 0) by (nonlinear_arith)
            requires
                sy == 10500 || sy == -10500 || sy == 0,
        ;
        assert(sx == 0 ==> sx * sx == 0);
        assert(sy == 0 ==> sy * sy == 0);
    }
}

/// Zero-input idempotence: with no keys held, every location is
/// unchanged by a movement tick, and the render translation still
/// reflects the unchanged location. On a well-formed store, a zero-input
/// movement tick that finds every velocity already cleared is a no-op.
pub proof fn lemma_zero_input_idempotent(s: Seq<Entity>, inp: InputState)
    requires
        !inp.up && !inp.down && !inp.left && !inp.right,
        forall|i: int| 0 <= i < s.len() ==> entity_wf(#[trigger] s[i]),
    ensures
        moved_store(s, inp).len() == s.len(),
        forall|i: int|
            0 <= i < s.len() ==> (#[trigger] moved_store(s, inp)[i]).translation
                == s[i].translation,
        forall|i: int|
            0 <= i < s.len() ==> match (#[trigger] moved_store(s, inp)[i]).movement {
                Some(m) => m.location == s[i].movement.unwrap().location && m.location
                    == moved_store(s, inp)[i].translation,
                None => s[i].movement is None,
            },
        (forall|i: int|
            0 <= i < s.len() ==> match (#[trigger] s[i]).movement {
                Some(m) => m.velocity.is_zero(),
                None => true,
            }) ==> moved_store(s, inp) =~= s,
{
    assert(dir_of_input(inp).is_zero());
    assert forall|i: int| 0 <= i < s.len() implies (#[trigger] moved_store(s, inp)[i]).translation
        == s[i].translation by {
        assert(entity_wf(s[i]));
    }
}

} // verus!
