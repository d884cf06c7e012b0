use dreamswap::game::{tick, GameState, SceneLibrary};
use dreamswap::movement::{InputState, SPEED_AXIS};
use dreamswap::scene::{encode_world, SceneError};
use dreamswap::store::{
    build_dream_world, build_real_world, ColliderKind, Entity, World, BED_LOCATION_X,
    TEX_DREAM_BG, TEX_REAL_BG,
};
use dreamswap::switch::{next_world, WorldKind};

fn scenes() -> SceneLibrary {
    SceneLibrary {
        real: encode_world(&build_real_world()),
        dream: encode_world(&build_dream_world()),
    }
}

fn hold_right() -> InputState {
    InputState { up: false, down: false, left: false, right: true, reset: false }
}

fn press_reset() -> InputState {
    InputState { up: false, down: false, left: false, right: false, reset: true }
}

fn player_of(w: &World) -> Entity {
    let players: Vec<&Entity> = w.entities.iter().filter(|e| e.movement.is_some()).collect();
    assert_eq!(players.len(), 1);
    *players[0]
}

fn background_of(w: &World) -> Entity {
    let bgs: Vec<&Entity> = w.entities.iter().filter(|e| e.background.is_some()).collect();
    assert_eq!(bgs.len(), 1);
    *bgs[0]
}

#[test]
fn state_machine_table() {
    assert_eq!(next_world(WorldKind::Real, true, false), Some(WorldKind::Dream));
    assert_eq!(next_world(WorldKind::Real, true, true), Some(WorldKind::Dream));
    assert_eq!(next_world(WorldKind::Real, false, false), None);
    assert_eq!(next_world(WorldKind::Real, false, true), None);
    assert_eq!(next_world(WorldKind::Dream, false, true), Some(WorldKind::Real));
    assert_eq!(next_world(WorldKind::Dream, true, true), Some(WorldKind::Real));
    assert_eq!(next_world(WorldKind::Dream, false, false), None);
    assert_eq!(next_world(WorldKind::Dream, true, false), None);
}

#[test]
fn walking_right_onto_the_bed_enters_the_dream() {
    let lib = scenes();
    let mut g = GameState::new(build_real_world(), WorldKind::Real);
    let mut fired = 0;
    for _ in 0..300 {
        let report = tick(&mut g, &hold_right(), &lib);
        if report.transitioned == Some(WorldKind::Dream) {
            fired += 1;
            assert_eq!(report.scene_error, None);
        }
    }
    // 300 axis steps put the player at x = 450 world units, inside the
    // bed's trigger window; the transition fired exactly once on the way.
    assert_eq!(player_of(&g.store).movement.unwrap().location.x, 300 * SPEED_AXIS);
    assert_eq!(fired, 1);
    assert_eq!(g.active, WorldKind::Dream);
    let bg = background_of(&g.store);
    assert_eq!(bg.texture, TEX_DREAM_BG);
    assert!(bg.background.unwrap().dream);
    assert!(!bg.background.unwrap().real);
}

#[test]
fn reset_returns_to_the_real_world_and_rebinds_the_background() {
    let lib = scenes();
    let mut g = GameState::new(build_real_world(), WorldKind::Real);
    for _ in 0..300 {
        tick(&mut g, &hold_right(), &lib);
    }
    assert_eq!(g.active, WorldKind::Dream);
    let x_before = player_of(&g.store).movement.unwrap().location.x;
    let report = tick(&mut g, &press_reset(), &lib);
    assert_eq!(report.transitioned, Some(WorldKind::Real));
    assert_eq!(report.scene_error, None);
    assert_eq!(g.active, WorldKind::Real);
    // Player movement is continuous across the swap.
    assert_eq!(player_of(&g.store).movement.unwrap().location.x, x_before);
    let bg = background_of(&g.store);
    assert_eq!(bg.texture, TEX_REAL_BG);
    assert!(bg.background.unwrap().real);
    assert!(!bg.background.unwrap().dream);
    // The bed trigger is back with the real world's entity set.
    assert!(g.store.entities.iter().any(
        |e| e.collider == Some(ColliderKind::Area) && e.translation.x == BED_LOCATION_X
    ));
}

#[test]
fn reset_in_the_real_world_is_a_no_op() {
    let lib = scenes();
    let mut g = GameState::new(build_real_world(), WorldKind::Real);
    let before = g.store.clone();
    let report = tick(&mut g, &press_reset(), &lib);
    assert_eq!(report.transitioned, None);
    assert_eq!(report.scene_error, None);
    assert_eq!(g.active, WorldKind::Real);
    assert_eq!(g.store, before);
}

#[test]
fn remaining_overlapped_does_not_refire() {
    // A dream world that itself holds an area trigger under the player:
    // staying overlapped while already dreaming must not re-fire.
    let mut dream = build_dream_world();
    dream.entities.push(Entity {
        id: 1,
        translation: dreamswap::geom::Vec3i { x: BED_LOCATION_X, y: 0, z: 0 },
        custom_size: None,
        texture: 0,
        movement: None,
        background: None,
        collider: Some(ColliderKind::Area),
        bed: None,
    });
    dream.next_id = 2;
    let lib = SceneLibrary {
        real: encode_world(&build_real_world()),
        dream: encode_world(&dream),
    };
    let mut g = GameState::new(build_real_world(), WorldKind::Real);
    let mut fired = 0;
    for _ in 0..300 {
        let report = tick(&mut g, &hold_right(), &lib);
        if report.transitioned.is_some() {
            fired += 1;
        }
    }
    // The player ends on the trigger, still dreaming, after one firing.
    assert_eq!(g.active, WorldKind::Dream);
    assert_eq!(fired, 1);
    let idle = InputState::idle();
    let report = tick(&mut g, &idle, &lib);
    assert_eq!(report.transitioned, None);
    assert_eq!(g.active, WorldKind::Dream);
}

#[test]
fn unreadable_snapshot_keeps_the_current_world_and_reports() {
    let lib = SceneLibrary {
        real: encode_world(&build_real_world()),
        dream: vec![9, 9, 9],
    };
    let mut g = GameState::new(build_real_world(), WorldKind::Real);
    let mut saw_error = None;
    for _ in 0..300 {
        let report = tick(&mut g, &hold_right(), &lib);
        assert_eq!(report.transitioned, None);
        if let Some(e) = report.scene_error {
            saw_error = Some(e);
        }
    }
    // The walk still happened, the world never switched, and the
    // diagnostic was surfaced instead of a crash.
    assert_eq!(g.active, WorldKind::Real);
    assert_eq!(saw_error, Some(SceneError::UnsupportedVersion));
    assert_eq!(player_of(&g.store).movement.unwrap().location.x, 300 * SPEED_AXIS);
}
