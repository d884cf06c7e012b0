//! The scene persistence bridge.
//!
//! A world's entity set is serialized to a durable byte description and
//! reconstructed from it. The format is explicit and hand-written, keyed
//! by a schema version byte: after the version byte comes a flat list of
//! little-endian 64-bit words — the next free identity, the entity
//! count, then a fixed 21-word record per entity. Decoding validates
//! every record, so a decoded world is always well-formed; a missing or
//! malformed snapshot is reported as a [`SceneError`], never a crash.
//!
//! Round-trip stability — decoding an encoded world yields the same
//! entity tags, locations, texture bindings and collider kinds — is
//! proved in [`lemma_scene_round_trip`].

use vstd::prelude::*;

use crate::geom::{Vec2i, Vec3i};
use crate::store::{entity_wf, store_wf, Background, Bed, ColliderKind, Entity, Movement, World};

verus! {

/// Schema version written in front of every snapshot.
pub const SCENE_VERSION: u8 = 1;

/// Why a snapshot was rejected. Missing or truncated bytes are fatal at
/// startup; during a runtime transition the caller stays in its current
/// world and reports the error.
#[derive(Clone, Copy, Debug, PartialEq, Eq, Structural)]
pub enum SceneError {
    /// The snapshot ends before the announced content.
    Truncated,
    /// The snapshot was written under another schema version.
    UnsupportedVersion,
    /// An entity record fails validation.
    MalformedEntity,
}

impl SceneError {
    /// A short diagnostic text for the host program to surface.
    pub fn describe(&self) -> (r: &'static str)
        ensures
            self is Truncated ==> r@ == "scene snapshot is truncated"@,
            self is UnsupportedVersion ==> r@ == "scene snapshot has an unsupported schema version"@,
            self is MalformedEntity ==> r@ == "scene snapshot holds a malformed entity record"@,
    {
        match self {
            SceneError::Truncated => "scene snapshot is truncated",
            SceneError::UnsupportedVersion => "scene snapshot has an unsupported schema version",
            SceneError::MalformedEntity => "scene snapshot holds a malformed entity record",
        }
    }
}

/// The eight little-endian bytes of one word.
pub open spec fn le_bytes(w: u64) -> Seq<u8> {
    seq![
        (w >> 0u64) as u8,
        (w >> 8u64) as u8,
        (w >> 16u64) as u8,
        (w >> 24u64) as u8,
        (w >> 32u64) as u8,
        (w >> 40u64) as u8,
        (w >> 48u64) as u8,
        (w >> 56u64) as u8,
    ]
}

/// The word read back from eight little-endian bytes.
pub open spec fn le_word(b: Seq<u8>) -> u64 {
    (b[0] as u64) | ((b[1] as u64) << 8u64) | ((b[2] as u64) << 16u64) | ((b[3] as u64) << 24u64)
        | ((b[4] as u64) << 32u64) | ((b[5] as u64) << 40u64) | ((b[6] as u64) << 48u64) | ((
    b[7] as u64) << 56u64)
}

/// Reading back the eight bytes of a word yields the word.
pub proof fn lemma_le_word_bytes(w: u64)
    ensures
        le_word(le_bytes(w)) == w,
{
    let b = le_bytes(w);
    assert(b[0] == (w >> 0u64) as u8);
    assert(b[1] == (w >> 8u64) as u8);
    assert(b[2] == (w >> 16u64) as u8);
    assert(b[3] == (w >> 24u64) as u8);
    assert(b[4] == (w >> 32u64) as u8);
    assert(b[5] == (w >> 40u64) as u8);
    assert(b[6] == (w >> 48u64) as u8);
    assert(b[7] == (w >> 56u64) as u8);
    assert((((w >> 0u64) as u8) as u64) | ((((w >> 8u64) as u8) as u64) << 8u64) | ((((w
        >> 16u64) as u8) as u64) << 16u64) | ((((w >> 24u64) as u8) as u64) << 24u64) | ((((w
        >> 32u64) as u8) as u64) << 32u64) | ((((w >> 40u64) as u8) as u64) << 40u64) | ((((w
        >> 48u64) as u8) as u64) << 48u64) | ((((w >> 56u64) as u8) as u64) << 56u64) == w)
        by (bit_vector);
}

/// Casting a coordinate through its unsigned word image is lossless.
pub proof fn lemma_cast_i64_round(x: i64)
    ensures
        (x as u64) as i64 == x,
{
    assert((x as u64) as i64 == x) by (bit_vector);
}

/// The byte image of a word list, words in order.
pub open spec fn bytes_of_words(ws: Seq<u64>) -> Seq<u8>
    decreases ws.len(),
{
    if ws.len() == 0 {
        Seq::empty()
    } else {
        bytes_of_words(ws.drop_last()) + le_bytes(ws.last())
    }
}

pub proof fn lemma_bytes_of_words_len(ws: Seq<u64>)
    ensures
        bytes_of_words(ws).len() == 8 * ws.len(),
    decreases ws.len(),
{
    if ws.len() > 0 {
        lemma_bytes_of_words_len(ws.drop_last());
    }
}

pub proof fn lemma_bytes_of_words_push(ws: Seq<u64>, w: u64)
    ensures
        bytes_of_words(ws.push(w)) == bytes_of_words(ws) + le_bytes(w),
{
    assert(ws.push(w).drop_last() =~= ws);
    assert(ws.push(w).last() == w);
}

pub proof fn lemma_bytes_of_words_concat(a: Seq<u64>, b: Seq<u64>)
    ensures
        bytes_of_words(a + b) == bytes_of_words(a) + bytes_of_words(b),
    decreases b.len(),
{
    if b.len() == 0 {
        assert(a + b =~= a);
        assert(bytes_of_words(a) + bytes_of_words(b) =~= bytes_of_words(a));
    } else {
        lemma_bytes_of_words_concat(a, b.drop_last());
        assert((a + b).drop_last() =~= a + b.drop_last());
        assert((a + b).last() == b.last());
        assert(bytes_of_words(a + b) =~= bytes_of_words(a) + bytes_of_words(b));
    }
}

/// The word list read back from a byte string, one word per eight bytes.
pub open spec fn words_of_bytes(b: Seq<u8>) -> Seq<u64> {
    Seq::new(b.len() / 8, |j: int| le_word(b.subrange(8 * j, 8 * j + 8)))
}

/// Reading back the byte image of a word list yields the word list.
pub proof fn lemma_words_of_bytes_of_words(ws: Seq<u64>)
    ensures
        words_of_bytes(bytes_of_words(ws)) == ws,
    decreases ws.len(),
{
    lemma_bytes_of_words_len(ws);
    let b = bytes_of_words(ws);
    if ws.len() == 0 {
        assert(words_of_bytes(b) =~= ws);
    } else {
        let pre = ws.drop_last();
        lemma_words_of_bytes_of_words(pre);
        lemma_bytes_of_words_len(pre);
        let bp = bytes_of_words(pre);
        let m = ws.len() as int;
        assert(b == bp + le_bytes(ws.last()));
        assert forall|j: int| 0 <= j < m implies words_of_bytes(b)[j] == ws[j] by {
            if j < m - 1 {
                assert(b.subrange(8 * j, 8 * j + 8) =~= bp.subrange(8 * j, 8 * j + 8));
                assert(words_of_bytes(bp)[j] == pre[j]);
            } else {
                assert(b.subrange(8 * j, 8 * j + 8) =~= le_bytes(ws.last()));
                lemma_le_word_bytes(ws.last());
            }
        }
        assert(words_of_bytes(b) =~= ws);
    }
}

/// The word written for a flag.
pub open spec fn bool_word(b: bool) -> u64 {
    if b {
        1
    } else {
        0
    }
}

/// The word written for a collider tag.
pub open spec fn collider_word(c: Option<ColliderKind>) -> u64 {
    match c {
        None => 0,
        Some(ColliderKind::Solid) => 1,
        Some(ColliderKind::Area) => 2,
    }
}

/// A coordinate read back from its unsigned word image.
pub open spec fn word_i64(w: u64) -> i64 {
    w as i64
}

/// The 21-word record of one entity. Absent components write a zero tag
/// word and zero payload words.
pub open spec fn words_of_entity(e: Entity) -> Seq<u64> {
    seq![
        e.id,
        e.translation.x as u64,
        e.translation.y as u64,
        e.translation.z as u64,
        match e.custom_size {
            Some(_) => 1u64,
            None => 0u64,
        },
        match e.custom_size {
            Some(s) => s.x as u64,
            None => 0u64,
        },
        match e.custom_size {
            Some(s) => s.y as u64,
            None => 0u64,
        },
        e.texture,
        match e.movement {
            Some(_) => 1u64,
            None => 0u64,
        },
        match e.movement {
            Some(m) => m.location.x as u64,
            None => 0u64,
        },
        match e.movement {
            Some(m) => m.location.y as u64,
            None => 0u64,
        },
        match e.movement {
            Some(m) => m.location.z as u64,
            None => 0u64,
        },
        match e.movement {
            Some(m) => m.velocity.x as u64,
            None => 0u64,
        },
        match e.movement {
            Some(m) => m.velocity.y as u64,
            None => 0u64,
        },
        match e.movement {
            Some(m) => m.velocity.z as u64,
            None => 0u64,
        },
        match e.background {
            Some(_) => 1u64,
            None => 0u64,
        },
        match e.background {
            Some(b) => bool_word(b.dream),
            None => 0u64,
        },
        match e.background {
            Some(b) => bool_word(b.real),
            None => 0u64,
        },
        collider_word(e.collider),
        match e.bed {
            Some(_) => 1u64,
            None => 0u64,
        },
        match e.bed {
            Some(bd) => bd.id as u64,
            None => 0u64,
        },
    ]
}

/// The entity validated and rebuilt from one 21-word record, or `None`
/// when the record fails validation. Validation enforces exactly the
/// store's well-formedness, so decoded worlds need no further checks.
pub open spec fn entity_of_words(ws: Seq<u64>, next_id: u64) -> Option<Entity> {
    if ws.len() != 21 {
        None
    } else if !(ws[0] < next_id) {
        None
    } else if !(ws[4] == 0 || ws[4] == 1) {
        None
    } else if ws[4] == 1 && !(word_i64(ws[5]) >= 0 && word_i64(ws[6]) >= 0) {
        None
    } else if !(ws[8] == 0 || ws[8] == 1) {
        None
    } else if ws[8] == 1 && !(ws[9] == ws[1] && ws[10] == ws[2] && ws[11] == ws[3]) {
        None
    } else if ws[8] == 1 && !(-1 <= word_i64(ws[12]) <= 1 && -1 <= word_i64(ws[13]) <= 1
        && word_i64(ws[14]) == 0) {
        None
    } else if !(ws[15] == 0 || ws[15] == 1) {
        None
    } else if ws[15] == 1 && !((ws[16] == 0 || ws[16] == 1) && (ws[17] == 0 || ws[17] == 1)
        && ws[16] != ws[17]) {
        None
    } else if !(ws[18] == 0 || ws[18] == 1 || ws[18] == 2) {
        None
    } else if !(ws[19] == 0 || ws[19] == 1) {
        None
    } else if ws[19] == 1 && !(ws[20] <= 255) {
        None
    } else {
        Some(
            Entity {
                id: ws[0],
                translation: Vec3i {
                    x: word_i64(ws[1]),
                    y: word_i64(ws[2]),
                    z: word_i64(ws[3]),
                },
                custom_size: if ws[4] == 1 {
                    Some(Vec2i { x: word_i64(ws[5]), y: word_i64(ws[6]) })
                } else {
                    None
                },
                texture: ws[7],
                movement: if ws[8] == 1 {
                    Some(
                        Movement {
                            location: Vec3i {
                                x: word_i64(ws[9]),
                                y: word_i64(ws[10]),
                                z: word_i64(ws[11]),
                            },
                            velocity: Vec3i {
                                x: word_i64(ws[12]),
                                y: word_i64(ws[13]),
                                z: word_i64(ws[14]),
                            },
                        },
                    )
                } else {
                    None
                },
                background: if ws[15] == 1 {
                    Some(Background { dream: ws[16] == 1, real: ws[17] == 1 })
                } else {
                    None
                },
                collider: if ws[18] == 1 {
                    Some(ColliderKind::Solid)
                } else if ws[18] == 2 {
                    Some(ColliderKind::Area)
                } else {
                    None
                },
                bed: if ws[19] == 1 {
                    Some(Bed { id: ws[20] as u8 })
                } else {
                    None
                },
            },
        )
    }
}

/// A record that validates yields a well-formed entity with an identity
/// under `next_id`.
pub proof fn lemma_entity_of_words_wf(ws: Seq<u64>, next_id: u64)
    requires
        entity_of_words(ws, next_id) is Some,
    ensures
        entity_wf(entity_of_words(ws, next_id).unwrap()),
        entity_of_words(ws, next_id).unwrap().id < next_id,
{
}

/// The record of a well-formed entity validates and rebuilds the entity.
pub proof fn lemma_entity_words_round(e: Entity, next_id: u64)
    requires
        entity_wf(e),
        e.id < next_id,
    ensures
        entity_of_words(words_of_entity(e), next_id) == Some(e),
{
    lemma_cast_i64_round(e.translation.x);
    lemma_cast_i64_round(e.translation.y);
    lemma_cast_i64_round(e.translation.z);
    match e.custom_size {
        Some(s) => {
            lemma_cast_i64_round(s.x);
            lemma_cast_i64_round(s.y);
        },
        None => {},
    }
    match e.movement {
        Some(m) => {
            lemma_cast_i64_round(m.location.x);
            lemma_cast_i64_round(m.location.y);
            lemma_cast_i64_round(m.location.z);
            lemma_cast_i64_round(m.velocity.x);
            lemma_cast_i64_round(m.velocity.y);
            lemma_cast_i64_round(m.velocity.z);
        },
        None => {},
    }
}

/// The concatenated records of a whole entity list.
pub open spec fn words_of_store(s: Seq<Entity>) -> Seq<u64>
    decreases s.len(),
{
    if s.len() == 0 {
        Seq::empty()
    } else {
        words_of_store(s.drop_last()) + words_of_entity(s.last())
    }
}

pub proof fn lemma_words_of_store_len(s: Seq<Entity>)
    ensures
        words_of_store(s).len() == 21 * s.len(),
    decreases s.len(),
{
    if s.len() > 0 {
        lemma_words_of_store_len(s.drop_last());
    }
}

pub proof fn lemma_words_of_store_push(s: Seq<Entity>, e: Entity)
    ensures
        words_of_store(s.push(e)) == words_of_store(s) + words_of_entity(e),
{
    assert(s.push(e).drop_last() =~= s);
    assert(s.push(e).last() == e);
}

pub proof fn lemma_words_of_store_index(s: Seq<Entity>, k: int)
    requires
        0 <= k < s.len(),
    ensures
        words_of_store(s).subrange(21 * k, 21 * k + 21) == words_of_entity(s[k]),
    decreases s.len(),
{
    lemma_words_of_store_len(s);
    lemma_words_of_store_len(s.drop_last());
    if k == s.len() - 1 {
        assert(words_of_store(s).subrange(21 * k, 21 * k + 21) =~= words_of_entity(s.last()));
    } else {
        lemma_words_of_store_index(s.drop_last(), k);
        assert(words_of_store(s).subrange(21 * k, 21 * k + 21) =~= words_of_store(
            s.drop_last(),
        ).subrange(21 * k, 21 * k + 21));
    }
}

/// The word list of a whole snapshot: next identity, entity count, then
/// the entity records.
pub open spec fn scene_words(s: Seq<Entity>, next_id: u64) -> Seq<u64> {
    seq![next_id, s.len() as u64] + words_of_store(s)
}

/// The byte image of a whole snapshot.
pub open spec fn encode_spec(s: Seq<Entity>, next_id: u64) -> Seq<u8> {
    seq![SCENE_VERSION] + bytes_of_words(scene_words(s, next_id))
}

/// The decoded snapshot, or the error naming what the bytes fail:
/// a missing or mismatched version byte, a length that fits no whole
/// snapshot, or an entity record that fails validation — exactly in
/// that order.
pub open spec fn decode_spec(b: Seq<u8>) -> Result<(Seq<Entity>, u64), SceneError> {
    if b.len() < 1 {
        Err(SceneError::Truncated)
    } else if b[0] != SCENE_VERSION {
        Err(SceneError::UnsupportedVersion)
    } else if (b.len() - 1) % 8 != 0 {
        Err(SceneError::Truncated)
    } else {
        let ws = words_of_bytes(b.skip(1));
        if ws.len() < 2 {
            Err(SceneError::Truncated)
        } else {
            let next_id = ws[0];
            let n = ws[1] as int;
            if ws.len() != 2 + 21 * n {
                Err(SceneError::Truncated)
            } else if !(forall|k: int|
                0 <= k < n ==> (#[trigger] entity_of_words(
                    ws.subrange(2 + 21 * k, 2 + 21 * k + 21),
                    next_id,
                )) is Some) {
                Err(SceneError::MalformedEntity)
            } else {
                Ok(
                    (
                        Seq::new(
                            n as nat,
                            |k: int| entity_of_words(
                                ws.subrange(2 + 21 * k, 2 + 21 * k + 21),
                                next_id,
                            ).unwrap(),
                        ),
                        next_id,
                    ),
                )
            }
        }
    }
}

/// Persistence round-trip: decoding the byte image of any well-formed
/// entity set yields the same entity set — the same tags, locations,
/// texture bindings and collider kinds — and the same next identity.
pub proof fn lemma_scene_round_trip(s: Seq<Entity>, next_id: u64)
    requires
        store_wf(s, next_id),
        s.len() < 0x1_0000_0000_0000_0000,
    ensures
        decode_spec(encode_spec(s, next_id)) == Ok::<(Seq<Entity>, u64), SceneError>(
            (s, next_id),
        ),
{
    let hw = scene_words(s, next_id);
    let b = encode_spec(s, next_id);
    lemma_words_of_store_len(s);
    lemma_bytes_of_words_len(hw);
    assert(b[0] == SCENE_VERSION);
    assert(b.skip(1) =~= bytes_of_words(hw));
    lemma_words_of_bytes_of_words(hw);
    let ws = words_of_bytes(b.skip(1));
    assert(ws == hw);
    assert(ws[0] == next_id);
    assert(ws[1] == s.len() as u64);
    let n = ws[1] as int;
    assert(n == s.len());
    assert(ws.len() == 2 + 21 * n);
    assert forall|k: int| 0 <= k < n implies (#[trigger] entity_of_words(
        ws.subrange(2 + 21 * k, 2 + 21 * k + 21),
        next_id,
    )) is Some && entity_of_words(ws.subrange(2 + 21 * k, 2 + 21 * k + 21), next_id) == Some(
        s[k],
    ) by {
        lemma_words_of_store_index(s, k);
        assert(ws.subrange(2 + 21 * k, 2 + 21 * k + 21) =~= words_of_store(s).subrange(
            21 * k,
            21 * k + 21,
        ));
        assert(entity_wf(s[k]) && s[k].id < next_id);
        lemma_entity_words_round(s[k], next_id);
    }
    match decode_spec(b) {
        Ok(p) => {
            assert(p.1 == next_id);
            assert(p.0 =~= s);
        },
        Err(_) => {
            assert(false);
        },
    }
}

/// Appends the eight little-endian bytes of one word.
fn push_word(out: &mut Vec<u8>, w: u64)
    ensures
        final(out)@ == old(out)@ + le_bytes(w),
{
    out.push((w >> 0u64) as u8);
    out.push((w >> 8u64) as u8);
    out.push((w >> 16u64) as u8);
    out.push((w >> 24u64) as u8);
    out.push((w >> 32u64) as u8);
    out.push((w >> 40u64) as u8);
    out.push((w >> 48u64) as u8);
    out.push((w >> 56u64) as u8);
    proof {
        assert(out@ =~= old(out)@ + le_bytes(w));
    }
}

/// Appends the byte image of a word list.
fn push_words(out: &mut Vec<u8>, ws: &Vec<u64>)
    ensures
        final(out)@ == old(out)@ + bytes_of_words(ws@),
{
    let ghost base = old(out)@;
    let n = ws.len();
    let mut i: usize = 0;
    while i < n
        invariant
            n == ws@.len(),
            i <= n,
            out@ == base + bytes_of_words(ws@.take(i as int)),
        decreases n - i,
    {
        push_word(out, ws[i]);
        proof {
            assert(ws@.take(i as int).push(ws@[i as int]) =~= ws@.take(i as int + 1));
            lemma_bytes_of_words_push(ws@.take(i as int), ws@[i as int]);
        }
        i += 1;
    }
    proof {
        assert(ws@.take(n as int) =~= ws@);
    }
}

/// Collects the 21-word record of one entity.
fn entity_word_vec(e: &Entity) -> (r: Vec<u64>)
    ensures
        r@ == words_of_entity(*e),
{
    let mut wv: Vec<u64> = Vec::new();
    wv.push(e.id);
    wv.push(e.translation.x as u64);
    wv.push(e.translation.y as u64);
    wv.push(e.translation.z as u64);
    match e.custom_size {
        Some(s) => {
            wv.push(1);
            wv.push(s.x as u64);
            wv.push(s.y as u64);
        },
        None => {
            wv.push(0);
            wv.push(0);
            wv.push(0);
        },
    }
    wv.push(e.texture);
    match e.movement {
        Some(m) => {
            wv.push(1);
            wv.push(m.location.x as u64);
            wv.push(m.location.y as u64);
            wv.push(m.location.z as u64);
            wv.push(m.velocity.x as u64);
            wv.push(m.velocity.y as u64);
            wv.push(m.velocity.z as u64);
        },
        None => {
            wv.push(0);
            wv.push(0);
            wv.push(0);
            wv.push(0);
            wv.push(0);
            wv.push(0);
            wv.push(0);
        },
    }
    match e.background {
        Some(b) => {
            wv.push(1);
            wv.push(if b.dream {
                1
            } else {
                0
            });
            wv.push(if b.real {
                1
            } else {
                0
            });
        },
        None => {
            wv.push(0);
            wv.push(0);
            wv.push(0);
        },
    }
    match e.collider {
        None => wv.push(0),
        Some(ColliderKind::Solid) => wv.push(1),
        Some(ColliderKind::Area) => wv.push(2),
    }
    match e.bed {
        Some(bd) => {
            wv.push(1);
            wv.push(bd.id as u64);
        },
        None => {
            wv.push(0);
            wv.push(0);
        },
    }
    proof {
        assert(wv@ =~= words_of_entity(*e));
    }
    wv
}

/// Serializes a world to its durable byte description.
pub fn encode_world(w: &World) -> (r: Vec<u8>)
    ensures
        r@ == encode_spec(w.entities@, w.next_id),
{
    let ghost s = w.entities@;
    let mut out: Vec<u8> = Vec::new();
    out.push(SCENE_VERSION);
    let ghost header = seq![w.next_id, s.len() as u64];
    push_word(&mut out, w.next_id);
    push_word(&mut out, w.entities.len() as u64);
    proof {
        assert(Seq::<u64>::empty().push(w.next_id) =~= seq![w.next_id]);
        lemma_bytes_of_words_push(Seq::<u64>::empty(), w.next_id);
        assert(seq![w.next_id].push(s.len() as u64) =~= header);
        lemma_bytes_of_words_push(seq![w.next_id], s.len() as u64);
        assert(bytes_of_words(Seq::<u64>::empty()) =~= Seq::<u8>::empty());
        assert(out@ =~= seq![SCENE_VERSION] + bytes_of_words(header + words_of_store(s.take(0))));
    }
    let n = w.entities.len();
    let mut k: usize = 0;
    while k < n
        invariant
            n == s.len(),
            s == w.entities@,
            k <= n,
            header == seq![w.next_id, s.len() as u64],
            out@ == seq![SCENE_VERSION] + bytes_of_words(header + words_of_store(
                s.take(k as int),
            )),
        decreases n - k,
    {
        let wv = entity_word_vec(&w.entities[k]);
        push_words(&mut out, &wv);
        proof {
            assert(s.take(k as int).push(s[k as int]) =~= s.take(k as int + 1));
            lemma_words_of_store_push(s.take(k as int), s[k as int]);
            let a = header + words_of_store(s.take(k as int));
            lemma_bytes_of_words_concat(a, words_of_entity(s[k as int]));
            assert(a + words_of_entity(s[k as int]) =~= header + words_of_store(
                s.take(k as int + 1),
            ));
        }
        k += 1;
    }
    proof {
        assert(s.take(n as int) =~= s);
        assert(out@ =~= encode_spec(s, w.next_id));
    }
    out
}

/// Reads one little-endian word out of a byte buffer.
fn read_word(b: &Vec<u8>, off: usize) -> (r: u64)
    requires
        off + 8 <= b@.len(),
    ensures
        r == le_word(b@.subrange(off as int, off as int + 8)),
{
    let blen = b.len();
    assert(off + 8 <= blen);
    let r = (b[off] as u64) | ((b[off + 1] as u64) << 8u64) | ((b[off + 2] as u64) << 16u64) | ((
    b[off + 3] as u64) << 24u64) | ((b[off + 4] as u64) << 32u64) | ((b[off + 5] as u64)
        << 40u64) | ((b[off + 6] as u64) << 48u64) | ((b[off + 7] as u64) << 56u64);
    proof {
        let sub = b@.subrange(off as int, off as int + 8);
        assert(sub[0] == b@[off as int]);
        assert(sub[1] == b@[off as int + 1]);
        assert(sub[2] == b@[off as int + 2]);
        assert(sub[3] == b@[off as int + 3]);
        assert(sub[4] == b@[off as int + 4]);
        assert(sub[5] == b@[off as int + 5]);
        assert(sub[6] == b@[off as int + 6]);
        assert(sub[7] == b@[off as int + 7]);
    }
    r
}

/// Reads the 21 words of one entity record.
fn read_record(b: &Vec<u8>, off: usize) -> (r: Vec<u64>)
    requires
        off + 168 <= b@.len(),
    ensures
        r@ == words_of_bytes(b@.subrange(off as int, off as int + 168)),
{
    let blen = b.len();
    assert(off + 168 <= blen);
    let mut wv: Vec<u64> = Vec::new();
    let mut j: usize = 0;
    while j < 21
        invariant
            off + 168 <= b@.len(),
            b@.len() <= usize::MAX,
            j <= 21,
            wv@.len() == j,
            forall|t: int|
                0 <= t < j ==> wv@[t] == le_word(
                    b@.subrange(off as int + 8 * t, off as int + 8 * t + 8),
                ),
        decreases 21 - j,
    {
        let wd = read_word(b, off + 8 * j);
        wv.push(wd);
        j += 1;
    }
    proof {
        let sub = b@.subrange(off as int, off as int + 168);
        assert forall|t: int| 0 <= t < 21 implies wv@[t] == words_of_bytes(sub)[t] by {
            assert(sub.subrange(8 * t, 8 * t + 8) =~= b@.subrange(
                off as int + 8 * t,
                off as int + 8 * t + 8,
            ));
        }
        assert(wv@ =~= words_of_bytes(sub));
    }
    wv
}

/// Validates one 21-word record and rebuilds its entity.
fn words_to_entity(wv: &Vec<u64>, next_id: u64) -> (r: Option<Entity>)
    requires
        wv@.len() == 21,
    ensures
        r == entity_of_words(wv@, next_id),
{
    if !(wv[0] < next_id) {
        return None;
    }
    if !(wv[4] == 0 || wv[4] == 1) {
        return None;
    }
    if wv[4] == 1 && !((wv[5] as i64) >= 0 && (wv[6] as i64) >= 0) {
        return None;
    }
    if !(wv[8] == 0 || wv[8] == 1) {
        return None;
    }
    if wv[8] == 1 && !(wv[9] == wv[1] && wv[10] == wv[2] && wv[11] == wv[3]) {
        return None;
    }
    if wv[8] == 1 && !(-1 <= (wv[12] as i64) && (wv[12] as i64) <= 1 && -1 <= (wv[13] as i64)
        && (wv[13] as i64) <= 1 && (wv[14] as i64) == 0) {
        return None;
    }
    if !(wv[15] == 0 || wv[15] == 1) {
        return None;
    }
    if wv[15] == 1 && !((wv[16] == 0 || wv[16] == 1) && (wv[17] == 0 || wv[17] == 1) && wv[16]
        != wv[17]) {
        return None;
    }
    if !(wv[18] == 0 || wv[18] == 1 || wv[18] == 2) {
        return None;
    }
    if !(wv[19] == 0 || wv[19] == 1) {
        return None;
    }
    if wv[19] == 1 && !(wv[20] <= 255) {
        return None;
    }
    Some(
        Entity {
            id: wv[0],
            translation: Vec3i { x: wv[1] as i64, y: wv[2] as i64, z: wv[3] as i64 },
            custom_size: if wv[4] == 1 {
                Some(Vec2i { x: wv[5] as i64, y: wv[6] as i64 })
            } else {
                None
            },
            texture: wv[7],
            movement: if wv[8] == 1 {
                Some(
                    Movement {
                        location: Vec3i { x: wv[9] as i64, y: wv[10] as i64, z: wv[11] as i64 },
                        velocity: Vec3i { x: wv[12] as i64, y: wv[13] as i64, z: wv[14] as i64 },
                    },
                )
            } else {
                None
            },
            background: if wv[15] == 1 {
                Some(Background { dream: wv[16] == 1, real: wv[17] == 1 })
            } else {
                None
            },
            collider: if wv[18] == 1 {
                Some(ColliderKind::Solid)
            } else if wv[18] == 2 {
                Some(ColliderKind::Area)
            } else {
                None
            },
            bed: if wv[19] == 1 {
                Some(Bed { id: wv[20] as u8 })
            } else {
                None
            },
        },
    )
}

/// The record words of entity `k` inside the word list of a snapshot
/// are the words read from the record's own byte window.
proof fn lemma_record_window(b: Seq<u8>, k: int)
    requires
        b.len() >= 1,
        (b.len() - 1) % 8 == 0,
        0 <= k,
        2 + 21 * k + 21 <= (b.len() - 1) / 8,
    ensures
        words_of_bytes(b.skip(1)).subrange(2 + 21 * k, 2 + 21 * k + 21) == words_of_bytes(
            b.subrange(1 + 8 * (2 + 21 * k), 1 + 8 * (2 + 21 * k) + 168),
        ),
{
    let ws = words_of_bytes(b.skip(1));
    let off = 1 + 8 * (2 + 21 * k);
    let sub = b.subrange(off, off + 168);
    assert forall|t: int| 0 <= t < 21 implies ws.subrange(2 + 21 * k, 2 + 21 * k + 21)[t]
        == words_of_bytes(sub)[t] by {
        let base = 2 + 21 * k;
        assert(ws[base + t] == le_word(b.skip(1).subrange(8 * (base + t), 8 * (base + t) + 8)));
        assert(b.skip(1).subrange(8 * (base + t), 8 * (base + t) + 8) =~= b.subrange(
            off + 8 * t,
            off + 8 * t + 8,
        ));
        assert(sub.subrange(8 * t, 8 * t + 8) =~= b.subrange(off + 8 * t, off + 8 * t + 8));
    }
    assert(ws.subrange(2 + 21 * k, 2 + 21 * k + 21) =~= words_of_bytes(sub));
}

/// Reconstructs a world from its durable byte description, validating
/// every record; the result is well-formed, or the error says what the
/// bytes fail.
pub fn decode_world(bytes: &Vec<u8>) -> (r: Result<World, SceneError>)
    ensures
        match r {
            Ok(w) => decode_spec(bytes@) == Ok::<(Seq<Entity>, u64), SceneError>(
                (w.entities@, w.next_id),
            ) && w.wf(),
            Err(e) => decode_spec(bytes@) == Err::<(Seq<Entity>, u64), SceneError>(e),
        },
{
    if bytes.len() < 1 {
        return Err(SceneError::Truncated);
    }
    if bytes[0] != SCENE_VERSION {
        return Err(SceneError::UnsupportedVersion);
    }
    if (bytes.len() - 1) % 8 != 0 {
        return Err(SceneError::Truncated);
    }
    let nwords = (bytes.len() - 1) / 8;
    let ghost ws = words_of_bytes(bytes@.skip(1));
    proof {
        assert(bytes@.skip(1).len() == bytes@.len() - 1);
        assert(ws.len() == nwords);
    }
    if nwords < 2 {
        return Err(SceneError::Truncated);
    }
    let next_id = read_word(bytes, 1);
    let count = read_word(bytes, 9);
    proof {
        assert(bytes@.skip(1).subrange(0, 8) =~= bytes@.subrange(1, 9));
        assert(bytes@.skip(1).subrange(8, 16) =~= bytes@.subrange(9, 17));
        assert(next_id == ws[0]);
        assert(count == ws[1]);
    }
    if (nwords as u128) != 2 + 21 * (count as u128) {
        return Err(SceneError::Truncated);
    }
    let n = (nwords - 2) / 21;
    proof {
        assert(n == count as int);
    }
    let blen = bytes.len();
    let mut ents: Vec<Entity> = Vec::new();
    let mut k: usize = 0;
    while k < n
        invariant
            bytes@.len() >= 1,
            bytes@.len() == blen,
            bytes@[0] == SCENE_VERSION,
            ws == words_of_bytes(bytes@.skip(1)),
            ws.len() == nwords,
            nwords == (bytes@.len() - 1) / 8,
            (bytes@.len() - 1) % 8 == 0,
            nwords == 2 + 21 * (count as int),
            n == count as int,
            k <= n,
            next_id == ws[0],
            count == ws[1],
            ents@.len() == k,
            forall|t: int|
                0 <= t < k ==> #[trigger] entity_of_words(
                    ws.subrange(2 + 21 * t, 2 + 21 * t + 21),
                    next_id,
                ) == Some(ents@[t]),
        decreases n - k,
    {
        proof {
            assert(2 + 21 * (k as int) + 21 <= nwords as int);
            assert(1 + 8 * (2 + 21 * (k as int)) + 168 <= blen);
        }
        let off = 1 + 8 * (2 + 21 * k);
        let wv = read_record(bytes, off);
        proof {
            lemma_record_window(bytes@, k as int);
            assert(ws.subrange(2 + 21 * (k as int), 2 + 21 * (k as int) + 21) == wv@);
        }
        match words_to_entity(&wv, next_id) {
            Some(e) => {
                ents.push(e);
            },
            None => {
                proof {
                    assert(entity_of_words(
                        ws.subrange(2 + 21 * (k as int), 2 + 21 * (k as int) + 21),
                        next_id,
                    ) is None);
                }
                return Err(SceneError::MalformedEntity);
            },
        }
        k += 1;
    }
    let w = World { entities: ents, next_id };
    proof {
        match decode_spec(bytes@) {
            Ok(p) => {
                assert forall|t: int| 0 <= t < n implies p.0[t] == w.entities@[t] by {
                    assert(entity_of_words(
                        ws.subrange(2 + 21 * t, 2 + 21 * t + 21),
                        next_id,
                    ) == Some(w.entities@[t]));
                }
                assert(p.0 =~= w.entities@);
                assert(p.1 == w.next_id);
            },
            Err(_) => {
                assert(false);
            },
        }
        assert forall|t: int| 0 <= t < w.entities@.len() implies entity_wf(
            #[trigger] w.entities@[t],
        ) && w.entities@[t].id < w.next_id by {
            lemma_entity_of_words_wf(ws.subrange(2 + 21 * t, 2 + 21 * t + 21), next_id);
        }
    }
    Ok(w)
}

} // verus!
