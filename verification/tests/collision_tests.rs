use dreamswap::collision::{overlap, player_overlaps_area, TRIGGER_BOX_H, TRIGGER_BOX_W};
use dreamswap::geom::{Vec2i, Vec3i};
use dreamswap::store::{build_real_world, BED_LOCATION_X, DEFAULT_SPRITE_H, DEFAULT_SPRITE_W};

fn v3(x: i64, y: i64) -> Vec3i {
    Vec3i { x, y, z: 0 }
}

fn v2(x: i64, y: i64) -> Vec2i {
    Vec2i { x, y }
}

#[test]
fn overlap_is_symmetric_on_samples() {
    let cases = [
        (v3(0, 0), v2(100, 100), v3(50, 20), v2(80, 60)),
        (v3(-500, 300), v2(10, 10), v3(500, -300), v2(10, 10)),
        (v3(0, 0), v2(0, 0), v3(0, 0), v2(0, 0)),
        (v3(7, -3), v2(14, 6), v3(8, -2), v2(2, 2)),
    ];
    for &(ap, asz, bp, bsz) in cases.iter() {
        assert_eq!(overlap(ap, asz, bp, bsz), overlap(bp, bsz, ap, asz));
    }
}

#[test]
fn overlapping_boxes_are_detected() {
    assert!(overlap(v3(0, 0), v2(100, 100), v3(90, 0), v2(100, 100)));
    assert!(overlap(v3(0, 0), v2(100, 100), v3(0, 0), v2(2, 2)));
}

#[test]
fn separated_boxes_do_not_overlap() {
    assert!(!overlap(v3(0, 0), v2(100, 100), v3(300, 0), v2(100, 100)));
    assert!(!overlap(v3(0, 0), v2(100, 100), v3(0, 300), v2(100, 100)));
}

#[test]
fn touching_edges_do_not_overlap() {
    // Centres exactly (aw + bw) / 2 apart on x: the intervals only touch.
    assert!(!overlap(v3(0, 0), v2(100, 200), v3(100, 0), v2(100, 200)));
    assert!(!overlap(v3(0, 0), v2(100, 200), v3(0, 200), v2(100, 200)));
    // One subunit closer, and they overlap.
    assert!(overlap(v3(0, 0), v2(100, 200), v3(99, 0), v2(100, 200)));
}

#[test]
fn player_far_from_bed_triggers_nothing() {
    let w = build_real_world();
    assert!(!player_overlaps_area(&w));
}

#[test]
fn player_on_bed_triggers_area_overlap() {
    let mut w = build_real_world();
    for e in w.entities.iter_mut() {
        if let Some(m) = e.movement.as_mut() {
            m.location.x = BED_LOCATION_X;
            e.translation = m.location;
        }
    }
    assert!(player_overlaps_area(&w));
}

#[test]
fn trigger_box_edge_is_exact() {
    // The player overlaps the bed's fixed trigger box exactly when the
    // centre distance on x is under (player width + box width) / 2.
    let threshold = (DEFAULT_SPRITE_W + TRIGGER_BOX_W) / 2;
    let mut w = build_real_world();
    for e in w.entities.iter_mut() {
        if let Some(m) = e.movement.as_mut() {
            m.location.x = BED_LOCATION_X - threshold;
            e.translation = m.location;
        }
    }
    assert!(!player_overlaps_area(&w));
    for e in w.entities.iter_mut() {
        if let Some(m) = e.movement.as_mut() {
            m.location.x = BED_LOCATION_X - threshold + 1;
            e.translation = m.location;
        }
    }
    assert!(player_overlaps_area(&w));
}

#[test]
fn trigger_box_is_fixed_regardless_of_declared_size() {
    // Shrink the bed's declared sprite size; the fixed (100, 200) box
    // still drives the trigger test.
    let mut w = build_real_world();
    for e in w.entities.iter_mut() {
        if e.bed.is_some() {
            e.custom_size = Some(Vec2i { x: 1, y: 1 });
        }
        if let Some(m) = e.movement.as_mut() {
            m.location.x = BED_LOCATION_X - (DEFAULT_SPRITE_W + TRIGGER_BOX_W) / 2 + 1;
            e.translation = m.location;
        }
    }
    assert!(player_overlaps_area(&w));
    let _ = (TRIGGER_BOX_H, DEFAULT_SPRITE_H);
}
