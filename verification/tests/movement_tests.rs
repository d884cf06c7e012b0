use dreamswap::movement::{apply_input, integrate_movement, InputState, SPEED_AXIS, SPEED_DIAG};
use dreamswap::store::{build_real_world, Entity, World};

fn player_of(w: &World) -> Entity {
    let players: Vec<&Entity> = w.entities.iter().filter(|e| e.movement.is_some()).collect();
    assert_eq!(players.len(), 1);
    *players[0]
}

fn held(up: bool, down: bool, left: bool, right: bool) -> InputState {
    InputState { up, down, left, right, reset: false }
}

#[test]
fn axis_step_is_exact() {
    let mut w = build_real_world();
    apply_input(&mut w, &held(false, false, false, true));
    integrate_movement(&mut w);
    let p = player_of(&w);
    let m = p.movement.unwrap();
    assert_eq!(m.location.x, SPEED_AXIS);
    assert_eq!(m.location.y, 0);
    assert_eq!(m.location.z, 0);
    assert_eq!(p.translation, m.location);
}

#[test]
fn diagonal_step_magnitude_close_to_speed() {
    let mut w = build_real_world();
    apply_input(&mut w, &held(true, false, false, true));
    integrate_movement(&mut w);
    let m = player_of(&w).movement.unwrap();
    assert_eq!(m.location.x, SPEED_DIAG);
    assert_eq!(m.location.y, SPEED_DIAG);
    let mag_sq = m.location.x * m.location.x + m.location.y * m.location.y;
    let speed_sq = SPEED_AXIS * SPEED_AXIS;
    assert!((mag_sq - speed_sq).abs() <= 11250);
}

#[test]
fn all_eight_directions_stay_near_speed() {
    let combos = [
        (true, false, false, false),
        (false, true, false, false),
        (false, false, true, false),
        (false, false, false, true),
        (true, false, false, true),
        (true, false, true, false),
        (false, true, false, true),
        (false, true, true, false),
    ];
    for &(u, d, l, r) in combos.iter() {
        let mut w = build_real_world();
        apply_input(&mut w, &held(u, d, l, r));
        integrate_movement(&mut w);
        let m = player_of(&w).movement.unwrap();
        let mag_sq = m.location.x * m.location.x + m.location.y * m.location.y;
        let speed_sq = SPEED_AXIS * SPEED_AXIS;
        assert!(
            (mag_sq - speed_sq).abs() <= 11250,
            "direction {:?} moved with squared magnitude {}",
            (u, d, l, r),
            mag_sq
        );
    }
}

#[test]
fn opposite_inputs_cancel() {
    let mut w = build_real_world();
    apply_input(&mut w, &held(true, false, true, true));
    integrate_movement(&mut w);
    let m = player_of(&w).movement.unwrap();
    assert_eq!(m.location.x, 0);
    assert_eq!(m.location.y, SPEED_AXIS);
}

#[test]
fn zero_input_keeps_location_and_syncs_transform() {
    let mut w = build_real_world();
    apply_input(&mut w, &held(false, false, false, true));
    integrate_movement(&mut w);
    let before = player_of(&w);
    apply_input(&mut w, &InputState::idle());
    integrate_movement(&mut w);
    let after = player_of(&w);
    assert_eq!(after.movement.unwrap().location, before.movement.unwrap().location);
    assert_eq!(after.translation, after.movement.unwrap().location);
}

#[test]
fn velocity_is_recomputed_not_accumulated() {
    let mut w = build_real_world();
    for _ in 0..2 {
        apply_input(&mut w, &held(false, false, false, true));
        let v = player_of(&w).movement.unwrap().velocity;
        assert_eq!((v.x, v.y, v.z), (1, 0, 0));
        integrate_movement(&mut w);
    }
    assert_eq!(player_of(&w).movement.unwrap().location.x, 2 * SPEED_AXIS);
}

#[test]
fn non_player_entities_are_untouched_by_movement() {
    let mut w = build_real_world();
    let beds_before: Vec<Entity> =
        w.entities.iter().copied().filter(|e| e.bed.is_some()).collect();
    apply_input(&mut w, &held(true, false, false, false));
    integrate_movement(&mut w);
    let beds_after: Vec<Entity> =
        w.entities.iter().copied().filter(|e| e.bed.is_some()).collect();
    assert_eq!(beds_before, beds_after);
}
