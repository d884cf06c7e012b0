//! The world-switch state machine.
//!
//! Exactly two worlds exist, `Real` and `Dream`, and the machine is a
//! two-state toggle: overlapping an `Area` trigger while in the real
//! world enters the dream; the explicit reset action while dreaming
//! returns to the real world. Re-entering the current state is a no-op,
//! so remaining overlapped does not re-fire the transition. A firing
//! transition swaps the background binding and the non-player entity
//! set together, atomically within the tick; the player entity is
//! retained across the swap so movement stays continuous.

use vstd::prelude::*;

use crate::collision::{find_player, overlap_spec, trigger_box};
use crate::geom::{Vec2i, Vec3i};
use crate::store::{
    entity_wf, has_movement, is_player_at, one_player, store_wf, the_player, Background, Entity,
    World, TEX_DREAM_BG, TEX_REAL_BG,
};

verus! {

/// The two renderable worlds.
#[derive(Clone, Copy, Debug, PartialEq, Eq, Structural)]
pub enum WorldKind {
    Real,
    Dream,
}

/// The transition fired by one tick's observations, if any: the real
/// world leaves for the dream on a trigger overlap, the dream returns
/// to the real world on the reset action, and nothing else moves.
pub open spec fn transition_target(k: WorldKind, overlap: bool, reset: bool) -> Option<
    WorldKind,
> {
    match k {
        WorldKind::Real => if overlap {
            Some(WorldKind::Dream)
        } else {
            None
        },
        WorldKind::Dream => if reset {
            Some(WorldKind::Real)
        } else {
            None
        },
    }
}

/// The state after one tick: the fired transition's target, or the
/// unchanged state.
pub open spec fn applied_state(k: WorldKind, overlap: bool, reset: bool) -> WorldKind {
    match transition_target(k, overlap, reset) {
        Some(t) => t,
        None => k,
    }
}

/// Evaluates the state machine for one tick.
pub fn next_world(k: WorldKind, overlap: bool, reset: bool) -> (r: Option<WorldKind>)
    ensures
        r == transition_target(k, overlap, reset),
{
    match k {
        WorldKind::Real => if overlap {
            Some(WorldKind::Dream)
        } else {
            None
        },
        WorldKind::Dream => if reset {
            Some(WorldKind::Real)
        } else {
            None
        },
    }
}

/// The background texture slot owned by a world.
pub open spec fn background_texture(k: WorldKind) -> u64 {
    match k {
        WorldKind::Real => TEX_REAL_BG,
        WorldKind::Dream => TEX_DREAM_BG,
    }
}

/// The background activity flags owned by a world: exactly one of the
/// two surfaces is active.
pub open spec fn background_flags(k: WorldKind) -> Background {
    Background { dream: k is Dream, real: k is Real }
}

/// One snapshot entity as it spawns into the target world: a background
/// entity is bound to the target world's surface and texture, any other
/// entity spawns as serialized.
pub open spec fn retex_entity(e: Entity, k: WorldKind) -> Entity {
    match e.background {
        Some(_) => Entity {
            background: Some(background_flags(k)),
            texture: background_texture(k),
            ..e
        },
        None => e,
    }
}

/// The snapshot's entity set as it spawns on a transition: the
/// snapshot's player entities are dropped — the live player is retained
/// instead — and its backgrounds are bound to the target world.
pub open spec fn respawn_seq(snap: Seq<Entity>, k: WorldKind) -> Seq<Entity>
    decreases snap.len(),
{
    if snap.len() == 0 {
        Seq::empty()
    } else {
        respawn_seq(snap.drop_last(), k) + (if has_movement(snap.last()) {
            Seq::empty()
        } else {
            seq![retex_entity(snap.last(), k)]
        })
    }
}

/// Every spawned snapshot entity is player-free, stays well-formed, and
/// keeps an identity under the snapshot's own bound.
pub proof fn lemma_respawn_wf(snap: Seq<Entity>, nid: u64, k: WorldKind)
    requires
        store_wf(snap, nid),
    ensures
        forall|t: int|
            0 <= t < respawn_seq(snap, k).len() ==> !has_movement(
                #[trigger] respawn_seq(snap, k)[t],
            ) && entity_wf(respawn_seq(snap, k)[t]) && respawn_seq(snap, k)[t].id < nid,
    decreases snap.len(),
{
    if snap.len() > 0 {
        let pre = snap.drop_last();
        assert forall|t: int| 0 <= t < pre.len() implies entity_wf(#[trigger] pre[t])
            && pre[t].id < nid by {
            assert(pre[t] == snap[t]);
        }
        lemma_respawn_wf(pre, nid, k);
        let last = snap.last();
        if !has_movement(last) {
            let ee = retex_entity(last, k);
            assert(entity_wf(snap[snap.len() - 1]) && snap[snap.len() - 1].id < nid);
            match k {
                WorldKind::Real => {
                    assert(entity_wf(ee));
                },
                WorldKind::Dream => {
                    assert(entity_wf(ee));
                },
            }
        }
    }
}

/// The whole store after a firing transition: the retained live player,
/// then the snapshot's entity set as it spawns.
pub open spec fn swap_spec(s: Seq<Entity>, snap: Seq<Entity>, k: WorldKind) -> Seq<Entity> {
    seq![the_player(s)] + respawn_seq(snap, k)
}

/// Applies a firing transition to the live store: the live player is
/// retained unchanged, every other entity is replaced by the snapshot's
/// set, backgrounds bound to the target world — one atomic swap.
pub fn apply_transition(store: &mut World, snap: &World, k: WorldKind)
    requires
        old(store).wf(),
        one_player(old(store).entities@),
        snap.wf(),
    ensures
        final(store).entities@ == swap_spec(old(store).entities@, snap.entities@, k),
        final(store).next_id == (if old(store).next_id >= snap.next_id {
            old(store).next_id
        } else {
            snap.next_id
        }),
        final(store).wf(),
        one_player(final(store).entities@),
        the_player(final(store).entities@) == the_player(old(store).entities@),
{
    let ghost s0 = store.entities@;
    let pi = find_player(store);
    let player = store.entities[pi];
    proof {
        let ci = choose|i: int| is_player_at(s0, i);
        assert(is_player_at(s0, ci));
        assert(ci == pi as int);
        assert(player == the_player(s0));
    }
    let mut ne: Vec<Entity> = Vec::new();
    ne.push(player);
    let m = snap.entities.len();
    let ghost sn = snap.entities@;
    let mut j: usize = 0;
    while j < m
        invariant
            m == sn.len(),
            sn == snap.entities@,
            j <= m,
            ne@ == seq![player] + respawn_seq(sn.take(j as int), k),
        decreases m - j,
    {
        let e = snap.entities[j];
        match e.movement {
            Some(_) => {},
            None => {
                let ee = match e.background {
                    Some(_) => {
                        let dream_flag = match k {
                            WorldKind::Dream => true,
                            WorldKind::Real => false,
                        };
                        let tex = match k {
                            WorldKind::Dream => TEX_DREAM_BG,
                            WorldKind::Real => TEX_REAL_BG,
                        };
                        Entity {
                            background: Some(
                                Background { dream: dream_flag, real: !dream_flag },
                            ),
                            texture: tex,
                            ..e
                        }
                    },
                    None => e,
                };
                assert(ee == retex_entity(sn[j as int], k));
                ne.push(ee);
            },
        }
        proof {
            assert(sn.take(j as int + 1).drop_last() =~= sn.take(j as int));
            assert(sn.take(j as int + 1).last() == sn[j as int]);
            assert(ne@ =~= seq![player] + respawn_seq(sn.take(j as int + 1), k));
        }
        j += 1;
    }
    proof {
        assert(sn.take(m as int) =~= sn);
    }
    let new_next = if store.next_id >= snap.next_id {
        store.next_id
    } else {
        snap.next_id
    };
    store.entities = ne;
    store.next_id = new_next;
    proof {
        let fs = store.entities@;
        lemma_respawn_wf(sn, snap.next_id, k);
        assert forall|t: int| 0 <= t < fs.len() implies entity_wf(#[trigger] fs[t])
            && fs[t].id < store.next_id by {
            if t == 0 {
                assert(fs[t] == player);
                assert(entity_wf(s0[pi as int]) && s0[pi as int].id < old(store).next_id);
            } else {
                assert(fs[t] == respawn_seq(sn, k)[t - 1]);
            }
        }
        assert(is_player_at(fs, 0));
        assert forall|a: int, b: int| is_player_at(fs, a) && is_player_at(fs, b) implies a
            == b by {
            assert(a == 0 && b == 0);
        }
        let ci = choose|i: int| is_player_at(fs, i);
        assert(ci == 0);
    }
}

/// Trigger monotonicity: while the player's AABB overlaps the fixed
/// trigger box of the prop at `prop_pos` and reset is not pressed, the
/// tick's outcome state is the dream world, whatever state it starts
/// from; with the player fully outside that box, pressing reset yields
/// the real world.
pub proof fn lemma_trigger_monotone(
    k: WorldKind,
    player_pos: Vec3i,
    player_size: Vec2i,
    prop_pos: Vec3i,
    reset: bool,
)
    ensures
        overlap_spec(player_pos, player_size, prop_pos, trigger_box()) && !reset
            ==> applied_state(
            k,
            overlap_spec(player_pos, player_size, prop_pos, trigger_box()),
            reset,
        ) is Dream,
        !overlap_spec(player_pos, player_size, prop_pos, trigger_box()) && reset
            ==> applied_state(
            k,
            overlap_spec(player_pos, player_size, prop_pos, trigger_box()),
            reset,
        ) is Real,
{
}

} // verus!
