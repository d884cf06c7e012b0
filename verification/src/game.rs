//! The per-tick pipeline.
//!
//! One tick runs, in fixed order: input resolution, movement
//! integration, collision detection, world-switch evaluation. When the
//! state machine fires, the target world is materialized from its
//! persisted snapshot through the scene bridge; a snapshot that fails
//! to decode leaves the game in its current world and reports the
//! error in the tick's outcome, rather than crashing mid-game.

use vstd::prelude::*;

use crate::collision::{overlaps_area, player_overlaps_area};
use crate::movement::{
    apply_input, integrate_movement, move_entity, moved_store, players_in_play, with_velocity,
    InputState,
};
use crate::scene::{decode_spec, decode_world, SceneError};
use crate::store::{entity_wf, is_player_at, one_player, Entity, World};
use crate::switch::{apply_transition, next_world, swap_spec, transition_target, WorldKind};

verus! {

/// The live game: the entity store and the active world, whose one
/// authorized mutator is the tick pipeline.
pub struct GameState {
    pub store: World,
    pub active: WorldKind,
}

/// The persisted snapshots the state machine materializes worlds from:
/// one serialized entity set per world.
pub struct SceneLibrary {
    pub real: Vec<u8>,
    pub dream: Vec<u8>,
}

/// What one tick did: the transition it fired, if any, and the scene
/// diagnostic it surfaced, if the target snapshot failed to decode.
#[derive(Clone, Copy, Debug, PartialEq, Eq)]
pub struct TickReport {
    pub transitioned: Option<WorldKind>,
    pub scene_error: Option<SceneError>,
}

impl GameState {
    pub fn new(store: World, active: WorldKind) -> (r: GameState)
        ensures
            r.store == store,
            r.active == active,
    {
        GameState { store, active }
    }
}

/// The snapshot bytes a world is materialized from.
pub open spec fn scene_bytes(lib: SceneLibrary, k: WorldKind) -> Seq<u8> {
    match k {
        WorldKind::Real => lib.real@,
        WorldKind::Dream => lib.dream@,
    }
}

/// Runs one tick: input, movement, collision, world switch. The whole
/// outcome is pinned down from the prior state alone — the store after
/// movement, whether it overlaps a trigger, the transition the state
/// machine fires for it, and the swapped store when the target
/// snapshot decodes (or the untouched store and a reported diagnostic
/// when it does not).
pub fn tick(g: &mut GameState, input: &InputState, scenes: &SceneLibrary) -> (r: TickReport)
    requires
        old(g).store.wf(),
        one_player(old(g).store.entities@),
        players_in_play(old(g).store.entities@),
    ensures
        final(g).store.wf(),
        one_player(final(g).store.entities@),
        ({
            let moved = moved_store(old(g).store.entities@, *input);
            let ov = overlaps_area(moved);
            match transition_target(old(g).active, ov, input.reset) {
                None => {
                    &&& final(g).store.entities@ == moved
                    &&& final(g).store.next_id == old(g).store.next_id
                    &&& final(g).active == old(g).active
                    &&& r == (TickReport { transitioned: None, scene_error: None })
                },
                Some(t) => match decode_spec(scene_bytes(*scenes, t)) {
                    Ok(p) => {
                        &&& final(g).store.entities@ == swap_spec(moved, p.0, t)
                        &&& final(g).store.next_id == (if old(g).store.next_id >= p.1 {
                            old(g).store.next_id
                        } else {
                            p.1
                        })
                        &&& final(g).active == t
                        &&& r == (TickReport { transitioned: Some(t), scene_error: None })
                    },
                    Err(e) => {
                        &&& final(g).store.entities@ == moved
                        &&& final(g).store.next_id == old(g).store.next_id
                        &&& final(g).active == old(g).active
                        &&& r == (TickReport { transitioned: None, scene_error: Some(e) })
                    },
                },
            }
        }),
{
    let ghost s0 = g.store.entities@;
    apply_input(&mut g.store, input);
    integrate_movement(&mut g.store);
    let ghost moved = g.store.entities@;
    proof {
        assert forall|i: int| 0 <= i < s0.len() implies moved[i] == move_entity(
            s0[i],
            *input,
        ) by {
            assert(s0.map_values(|e: Entity| with_velocity(e, *input))[i] == with_velocity(
                s0[i],
                *input,
            ));
        }
        assert(moved =~= moved_store(s0, *input));
        assert forall|i: int| 0 <= i < moved.len() implies entity_wf(#[trigger] moved[i])
            && moved[i].id < g.store.next_id by {
            assert(entity_wf(s0[i]) && s0[i].id < g.store.next_id);
        }
        assert(is_player_at(s0, choose|i: int| is_player_at(s0, i)));
        assert forall|a: int, b: int|
            is_player_at(moved, a) && is_player_at(moved, b) implies a == b by {
            assert(is_player_at(s0, a) && is_player_at(s0, b));
        }
        let w = choose|i: int| is_player_at(s0, i);
        assert(is_player_at(moved, w));
    }
    let overlap = player_overlaps_area(&g.store);
    match next_world(g.active, overlap, input.reset) {
        None => TickReport { transitioned: None, scene_error: None },
        Some(t) => {
            let bytes: &Vec<u8> = match t {
                WorldKind::Real => &scenes.real,
                WorldKind::Dream => &scenes.dream,
            };
            match decode_world(bytes) {
                Ok(snap) => {
                    apply_transition(&mut g.store, &snap, t);
                    g.active = t;
                    TickReport { transitioned: Some(t), scene_error: None }
                },
                Err(e) => TickReport { transitioned: None, scene_error: Some(e) },
            }
        },
    }
}

} // verus!
