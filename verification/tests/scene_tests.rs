use dreamswap::movement::{apply_input, integrate_movement, InputState};
use dreamswap::scene::{decode_world, encode_world, SceneError, SCENE_VERSION};
use dreamswap::store::{bind_real_textures, build_dream_world, build_real_world};

#[test]
fn round_trip_reproduces_the_real_world() {
    let w = build_real_world();
    let bytes = encode_world(&w);
    let decoded = decode_world(&bytes).expect("the encoded real world must decode");
    assert_eq!(decoded, w);
}

#[test]
fn round_trip_reproduces_the_dream_world() {
    let w = build_dream_world();
    let bytes = encode_world(&w);
    let decoded = decode_world(&bytes).expect("the encoded dream world must decode");
    assert_eq!(decoded, w);
}

#[test]
fn round_trip_after_movement_and_textures() {
    let mut w = build_real_world();
    bind_real_textures(&mut w);
    apply_input(
        &mut w,
        &InputState { up: true, down: false, left: false, right: true, reset: false },
    );
    integrate_movement(&mut w);
    let bytes = encode_world(&w);
    let decoded = decode_world(&bytes).expect("a moved world must still decode");
    assert_eq!(decoded, w);
}

#[test]
fn repeated_round_trips_are_stable() {
    let w = build_real_world();
    let bytes = encode_world(&w);
    let once = decode_world(&bytes).unwrap();
    let bytes_again = encode_world(&once);
    assert_eq!(bytes, bytes_again);
    let twice = decode_world(&bytes_again).unwrap();
    assert_eq!(twice, w);
}

#[test]
fn snapshot_starts_with_the_schema_version() {
    let bytes = encode_world(&build_real_world());
    assert_eq!(bytes[0], SCENE_VERSION);
}

#[test]
fn empty_bytes_are_truncated() {
    let bytes: Vec<u8> = Vec::new();
    assert_eq!(decode_world(&bytes), Err(SceneError::Truncated));
}

#[test]
fn wrong_version_is_rejected() {
    let mut bytes = encode_world(&build_real_world());
    bytes[0] = SCENE_VERSION + 1;
    assert_eq!(decode_world(&bytes), Err(SceneError::UnsupportedVersion));
}

#[test]
fn ragged_length_is_truncated() {
    let mut bytes = encode_world(&build_real_world());
    bytes.pop();
    assert_eq!(decode_world(&bytes), Err(SceneError::Truncated));
}

#[test]
fn header_alone_is_truncated() {
    // A version byte and a single word: no room for the entity count.
    let mut bytes: Vec<u8> = vec![SCENE_VERSION];
    bytes.extend_from_slice(&[0u8; 8]);
    assert_eq!(decode_world(&bytes), Err(SceneError::Truncated));
}

#[test]
fn count_mismatch_is_truncated() {
    let mut bytes = encode_world(&build_real_world());
    // Announce one more entity than the bytes hold.
    bytes[9] = 4;
    assert_eq!(decode_world(&bytes), Err(SceneError::Truncated));
}

#[test]
fn unknown_collider_tag_is_malformed() {
    let mut bytes = encode_world(&build_real_world());
    // Entity 1's collider word: version byte, header words, one full
    // record, then 18 words into the second record.
    let off = 1 + 8 * (2 + 21 + 18);
    bytes[off] = 7;
    assert_eq!(decode_world(&bytes), Err(SceneError::MalformedEntity));
}

#[test]
fn both_background_flags_active_is_malformed() {
    let mut bytes = encode_world(&build_real_world());
    // Entity 0's background words: tag at word 15, dream flag at 16,
    // real flag at 17 — set both flags.
    let dream_off = 1 + 8 * (2 + 16);
    bytes[dream_off] = 1;
    assert_eq!(decode_world(&bytes), Err(SceneError::MalformedEntity));
}

#[test]
fn identity_above_bound_is_malformed() {
    let mut bytes = encode_world(&build_real_world());
    // Entity 0's identity word, set beyond the announced next identity.
    let off = 1 + 8 * 2;
    bytes[off] = 9;
    assert_eq!(decode_world(&bytes), Err(SceneError::MalformedEntity));
}

#[test]
fn scene_error_describes_itself() {
    assert!(SceneError::Truncated.describe().contains("truncated"));
    assert!(SceneError::UnsupportedVersion.describe().contains("version"));
    assert!(SceneError::MalformedEntity.describe().contains("malformed"));
}
