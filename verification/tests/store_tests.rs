use dreamswap::geom::Vec3i;
use dreamswap::store::{
    bed_is_unique, bind_real_textures, build_dream_world, build_real_world, check_wf,
    player_is_unique, ColliderKind, Movement, TEX_BED, TEX_PLAYER, TEX_REAL_BG, TEX_UNLOADED,
};
use dreamswap::movement::players_within_bounds;

#[test]
fn real_world_holds_background_bed_and_player() {
    let w = build_real_world();
    assert_eq!(w.entities.len(), 3);
    assert_eq!(w.next_id, 3);
    let bg = &w.entities[0];
    assert!(bg.background.unwrap().real);
    assert!(!bg.background.unwrap().dream);
    let bed = &w.entities[1];
    assert_eq!(bed.translation, Vec3i { x: 3500000, y: 0, z: 0 });
    assert_eq!(bed.collider, Some(ColliderKind::Area));
    assert_eq!(bed.bed.unwrap().id, 1);
    let player = &w.entities[2];
    let m = player.movement.unwrap();
    assert_eq!(m.location, Vec3i { x: 0, y: 0, z: 0 });
    assert_eq!(m.velocity, Vec3i { x: 0, y: 0, z: 0 });
    let size = player.custom_size.unwrap();
    // (256, 144) / 3.5 world units, exact at 7000 subunits per unit.
    assert_eq!((size.x, size.y), (512000, 288000));
}

#[test]
fn textures_start_unloaded_and_bind_for_the_real_world() {
    let mut w = build_real_world();
    assert!(w.entities.iter().all(|e| e.texture == TEX_UNLOADED));
    bind_real_textures(&mut w);
    assert_eq!(w.entities[0].texture, TEX_REAL_BG);
    assert_eq!(w.entities[1].texture, TEX_BED);
    assert_eq!(w.entities[2].texture, TEX_PLAYER);
}

#[test]
fn built_worlds_pass_the_host_checks() {
    let w = build_real_world();
    assert!(check_wf(&w));
    assert!(player_is_unique(&w));
    assert!(bed_is_unique(&w));
    assert!(players_within_bounds(&w));
    let d = build_dream_world();
    assert!(check_wf(&d));
    assert!(!player_is_unique(&d));
    assert!(!bed_is_unique(&d));
}

#[test]
fn duplicate_players_fail_the_uniqueness_check() {
    let mut w = build_real_world();
    let mut extra = w.entities[2];
    extra.id = 3;
    w.entities.push(extra);
    w.next_id = 4;
    assert!(!player_is_unique(&w));
    assert!(check_wf(&w));
}

#[test]
fn desynced_transform_fails_well_formedness() {
    let mut w = build_real_world();
    for e in w.entities.iter_mut() {
        if e.movement.is_some() {
            e.translation = Vec3i { x: 1, y: 0, z: 0 };
        }
    }
    assert!(!check_wf(&w));
}

#[test]
fn runaway_velocity_fails_well_formedness() {
    let mut w = build_real_world();
    for e in w.entities.iter_mut() {
        if e.movement.is_some() {
            e.movement = Some(Movement {
                location: Vec3i { x: 0, y: 0, z: 0 },
                velocity: Vec3i { x: 5, y: 0, z: 0 },
            });
        }
    }
    assert!(!check_wf(&w));
}
