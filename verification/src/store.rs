//! The spatial entity store.
//!
//! Entities are plain records held in an arena (`World`); each carries an
//! integer identity, a render translation, optional sprite bounds, a bound
//! texture slot, and the optional game components (`Movement`,
//! `Background`, `ColliderKind`, `Bed`). Systems are plain functions over
//! the arena, defined in the sibling modules.

use vstd::prelude::*;

use crate::geom::{Vec2i, Vec3i};

verus! {

/// Texture slot for an asset whose load has not resolved yet; rendering
/// with it shows a placeholder, which is not an error.
pub const TEX_UNLOADED: u64 = 0;

/// Texture slot of the bed sprite in the real world.
pub const TEX_BED: u64 = 1;

/// Texture slot of the real-world background surface.
pub const TEX_REAL_BG: u64 = 2;

/// Texture slot of the player sprite.
pub const TEX_PLAYER: u64 = 3;

/// Texture slot of the dream-world background surface.
pub const TEX_DREAM_BG: u64 = 4;

/// Default sprite width when an entity declares no bounds:
/// `256 / 3.5` world units, exact in subunits.
pub const DEFAULT_SPRITE_W: i64 = 512000;

/// Default sprite height when an entity declares no bounds:
/// `144 / 3.5` world units, exact in subunits.
pub const DEFAULT_SPRITE_H: i64 = 288000;

/// Coordinate bound under which the movement integrator may run: far
/// beyond any playable area, it only keeps the per-tick position update
/// inside `i64`.
pub const COORD_LIMIT: i64 = 0x4000_0000_0000_0000;

/// The movement component, attached to the player entity only.
/// `velocity` holds one raw direction unit per held key and is recomputed
/// fully every tick; `location` integrates it.
#[derive(Clone, Copy, Debug, PartialEq, Eq, Structural)]
pub struct Movement {
    pub location: Vec3i,
    pub velocity: Vec3i,
}

/// The two renderable states of the world surface, as activity flags.
/// Exactly one of the two is active at any time.
#[derive(Clone, Copy, Debug, PartialEq, Eq, Structural)]
pub struct Background {
    pub dream: bool,
    pub real: bool,
}

/// Collision tag. `Area` marks a walk-through trigger that fires a world
/// transition; `Solid` marks a blocking region, reserved and not yet
/// enforced.
#[derive(Clone, Copy, Debug, PartialEq, Eq, Structural)]
pub enum ColliderKind {
    Solid,
    Area,
}

/// The interactive bed prop whose overlap with the player switches the
/// world.
#[derive(Clone, Copy, Debug, PartialEq, Eq, Structural)]
pub struct Bed {
    pub id: u8,
}

/// One game object: an identity plus its attached component data.
#[derive(Clone, Copy, Debug, PartialEq, Eq)]
pub struct Entity {
    pub id: u64,
    /// Render translation, synced from `Movement::location` each tick for
    /// the player.
    pub translation: Vec3i,
    /// Declared sprite bounds; `None` falls back to the default bounds.
    pub custom_size: Option<Vec2i>,
    /// Bound texture slot (one of the `TEX_*` constants).
    pub texture: u64,
    pub movement: Option<Movement>,
    pub background: Option<Background>,
    pub collider: Option<ColliderKind>,
    pub bed: Option<Bed>,
}

/// The arena owning all entities. `next_id` is strictly above every
/// identity in use.
#[derive(Clone, Debug, PartialEq)]
pub struct World {
    pub entities: Vec<Entity>,
    pub next_id: u64,
}

/// An entity is a player entity when it carries the movement component.
pub open spec fn has_movement(e: Entity) -> bool {
    e.movement is Some
}

/// Well-formedness of a single entity: the background flags name exactly
/// one active surface, the player's render translation reflects its
/// integrated location, its velocity holds at most one raw unit per axis
/// and never leaves the plane, and sprite bounds are non-negative.
pub open spec fn entity_wf(e: Entity) -> bool {
    &&& match e.background {
        Some(b) => b.dream != b.real,
        None => true,
    }
    &&& match e.movement {
        Some(m) => {
            &&& e.translation == m.location
            &&& -1 <= m.velocity.x <= 1
            &&& -1 <= m.velocity.y <= 1
            &&& m.velocity.z == 0
        },
        None => true,
    }
    &&& match e.custom_size {
        Some(s) => s.x >= 0 && s.y >= 0,
        None => true,
    }
}

/// Well-formedness of an arena: every entity is well-formed and its
/// identity lies under `next_id`.
pub open spec fn store_wf(entities: Seq<Entity>, next_id: u64) -> bool {
    forall|i: int|
        0 <= i < entities.len() ==> entity_wf(#[trigger] entities[i]) && entities[i].id < next_id
}

/// `i` indexes a player entity of `s`.
pub open spec fn is_player_at(s: Seq<Entity>, i: int) -> bool {
    0 <= i < s.len() && has_movement(s[i])
}

/// Exactly one player entity exists. The movement integrator, the
/// collision detector and the world switch all assume this; violating it
/// is a programming error, fatal in the host program.
pub open spec fn one_player(s: Seq<Entity>) -> bool {
    &&& exists|i: int| is_player_at(s, i)
    &&& forall|i: int, j: int| is_player_at(s, i) && is_player_at(s, j) ==> i == j
}

/// The unique player entity of a store with one player.
pub open spec fn the_player(s: Seq<Entity>) -> Entity {
    s[choose|i: int| is_player_at(s, i)]
}

/// `i` indexes a bed entity of `s`.
pub open spec fn is_bed_at(s: Seq<Entity>, i: int) -> bool {
    0 <= i < s.len() && s[i].bed is Some
}

/// Exactly one bed entity exists; the real-world texture binder assumes
/// this.
pub open spec fn one_bed(s: Seq<Entity>) -> bool {
    &&& exists|i: int| is_bed_at(s, i)
    &&& forall|i: int, j: int| is_bed_at(s, i) && is_bed_at(s, j) ==> i == j
}

impl World {
    pub open spec fn wf(self) -> bool {
        store_wf(self.entities@, self.next_id)
    }
}

/// The bed prop's location in the real world: 500 world units east of
/// the origin, in subunits.
pub const BED_LOCATION_X: i64 = 3500000;

/// The real world's background surface: inactive dream flag, active
/// real flag, texture not yet bound.
pub open spec fn real_background_spec() -> Entity {
    Entity {
        id: 0,
        translation: Vec3i::zero_spec(),
        custom_size: None,
        texture: TEX_UNLOADED,
        movement: None,
        background: Some(Background { dream: false, real: true }),
        collider: None,
        bed: None,
    }
}

/// The bed prop: the `Area` trigger whose overlap with the player
/// enters the dream world.
pub open spec fn real_bed_spec() -> Entity {
    Entity {
        id: 1,
        translation: Vec3i { x: BED_LOCATION_X, y: 0, z: 0 },
        custom_size: None,
        texture: TEX_UNLOADED,
        movement: None,
        background: None,
        collider: Some(ColliderKind::Area),
        bed: Some(Bed { id: 1 }),
    }
}

/// The player: declared sprite bounds of `(256, 144) / 3.5`, at rest at
/// the origin.
pub open spec fn player_spec() -> Entity {
    Entity {
        id: 2,
        translation: Vec3i::zero_spec(),
        custom_size: Some(Vec2i { x: DEFAULT_SPRITE_W, y: DEFAULT_SPRITE_H }),
        texture: TEX_UNLOADED,
        movement: Some(Movement { location: Vec3i::zero_spec(), velocity: Vec3i::zero_spec() }),
        background: None,
        collider: None,
        bed: None,
    }
}

/// The real world's full entity set.
pub open spec fn real_world_entities() -> Seq<Entity> {
    seq![real_background_spec(), real_bed_spec(), player_spec()]
}

/// The dream world's entity set: its background surface alone. The
/// live player is retained across the transition into it.
pub open spec fn dream_background_spec() -> Entity {
    Entity {
        id: 0,
        translation: Vec3i::zero_spec(),
        custom_size: None,
        texture: TEX_UNLOADED,
        movement: None,
        background: Some(Background { dream: true, real: false }),
        collider: None,
        bed: None,
    }
}

pub open spec fn dream_world_entities() -> Seq<Entity> {
    seq![dream_background_spec()]
}

/// Builds the initial real world: background surface, bed trigger and
/// player, each a fully-populated record.
pub fn build_real_world() -> (r: World)
    ensures
        r.entities@ == real_world_entities(),
        r.next_id == 3,
        r.wf(),
        one_player(r.entities@),
        one_bed(r.entities@),
{
    let mut entities: Vec<Entity> = Vec::new();
    entities.push(
        Entity {
            id: 0,
            translation: Vec3i::zero(),
            custom_size: None,
            texture: TEX_UNLOADED,
            movement: None,
            background: Some(Background { dream: false, real: true }),
            collider: None,
            bed: None,
        },
    );
    entities.push(
        Entity {
            id: 1,
            translation: Vec3i::new(BED_LOCATION_X, 0, 0),
            custom_size: None,
            texture: TEX_UNLOADED,
            movement: None,
            background: None,
            collider: Some(ColliderKind::Area),
            bed: Some(Bed { id: 1 }),
        },
    );
    entities.push(
        Entity {
            id: 2,
            translation: Vec3i::zero(),
            custom_size: Some(Vec2i::new(DEFAULT_SPRITE_W, DEFAULT_SPRITE_H)),
            texture: TEX_UNLOADED,
            movement: Some(Movement { location: Vec3i::zero(), velocity: Vec3i::zero() }),
            background: None,
            collider: None,
            bed: None,
        },
    );
    let r = World { entities, next_id: 3 };
    proof {
        assert(r.entities@ =~= real_world_entities());
        assert forall|i: int| 0 <= i < r.entities@.len() implies entity_wf(
            #[trigger] r.entities@[i],
        ) && r.entities@[i].id < r.next_id by {
            if i == 0 {
            } else if i == 1 {
            } else {
                assert(r.entities@[i] == player_spec());
            }
        }
        assert(is_player_at(r.entities@, 2));
        assert forall|a: int, b: int|
            is_player_at(r.entities@, a) && is_player_at(r.entities@, b) implies a == b by {
            assert(a == 2 && b == 2);
        }
        assert(is_bed_at(r.entities@, 1));
        assert forall|a: int, b: int|
            is_bed_at(r.entities@, a) && is_bed_at(r.entities@, b) implies a == b by {
            assert(a == 1 && b == 1);
        }
    }
    r
}

/// Builds the dream world: its background surface alone.
pub fn build_dream_world() -> (r: World)
    ensures
        r.entities@ == dream_world_entities(),
        r.next_id == 1,
        r.wf(),
{
    let mut entities: Vec<Entity> = Vec::new();
    entities.push(
        Entity {
            id: 0,
            translation: Vec3i::zero(),
            custom_size: None,
            texture: TEX_UNLOADED,
            movement: None,
            background: Some(Background { dream: true, real: false }),
            collider: None,
            bed: None,
        },
    );
    let r = World { entities, next_id: 1 };
    proof {
        assert(r.entities@ =~= dream_world_entities());
        assert forall|i: int| 0 <= i < r.entities@.len() implies entity_wf(
            #[trigger] r.entities@[i],
        ) && r.entities@[i].id < r.next_id by {
            assert(r.entities@[i] == dream_background_spec());
        }
    }
    r
}

/// One entity after the real-world texture binding: the player sprite,
/// then any background surface, then the bed take their real-world
/// textures; anything else keeps its binding.
pub open spec fn bind_real_entity(e: Entity) -> Entity {
    if e.movement is Some {
        Entity { texture: TEX_PLAYER, ..e }
    } else if e.background is Some {
        Entity { texture: TEX_REAL_BG, ..e }
    } else if e.bed is Some {
        Entity { texture: TEX_BED, ..e }
    } else {
        e
    }
}

/// Binds the real world's textures: the bed sprite, every background
/// surface and every player sprite take their real-world textures.
/// Exactly one bed must exist; its absence or multiplicity is a
/// programming error, fatal in the host program.
pub fn bind_real_textures(w: &mut World)
    requires
        one_bed(old(w).entities@),
    ensures
        final(w).entities@ == old(w).entities@.map_values(|e: Entity| bind_real_entity(e)),
        final(w).next_id == old(w).next_id,
{
    let ghost s = old(w).entities@;
    let n = w.entities.len();
    let mut i: usize = 0;
    while i < n
        invariant
            n == s.len(),
            w.entities@.len() == n,
            w.next_id == old(w).next_id,
            i <= n,
            forall|j: int| 0 <= j < i ==> w.entities@[j] == bind_real_entity(s[j]),
            forall|j: int| i <= j < n ==> w.entities@[j] == s[j],
        decreases n - i,
    {
        let e = w.entities[i];
        if e.movement.is_some() {
            w.entities.set(i, Entity { texture: TEX_PLAYER, ..e });
        } else if e.background.is_some() {
            w.entities.set(i, Entity { texture: TEX_REAL_BG, ..e });
        } else if e.bed.is_some() {
            w.entities.set(i, Entity { texture: TEX_BED, ..e });
        }
        i += 1;
    }
    proof {
        assert(w.entities@ =~= s.map_values(|e: Entity| bind_real_entity(e)));
    }
}

/// Decides whether the store holds exactly one player entity, so a host
/// program can test the fatal precondition before running a tick.
pub fn player_is_unique(w: &World) -> (r: bool)
    ensures
        r == one_player(w.entities@),
{
    let ghost s = w.entities@;
    let n = w.entities.len();
    let mut i: usize = 0;
    let mut first: usize = 0;
    let mut seen: bool = false;
    while i < n
        invariant
            n == s.len(),
            i <= n,
            s == w.entities@,
            !seen ==> forall|j: int| 0 <= j < i ==> !has_movement(s[j]),
            seen ==> is_player_at(s, first as int) && first < i,
            seen ==> forall|j: int| 0 <= j < i && j != first as int ==> !has_movement(s[j]),
        decreases n - i,
    {
        if w.entities[i].movement.is_some() {
            if seen {
                assert(is_player_at(s, first as int) && is_player_at(s, i as int) && first as int
                    != i as int);
                return false;
            }
            seen = true;
            first = i;
        }
        i += 1;
    }
    if !seen {
        assert(forall|j: int| !is_player_at(s, j));
        return false;
    }
    assert forall|a: int, b: int| is_player_at(s, a) && is_player_at(s, b) implies a == b by {
        assert(a == first as int && b == first as int);
    }
    true
}

/// Decides whether the store holds exactly one bed entity, the fatal
/// precondition of the real-world texture binder.
pub fn bed_is_unique(w: &World) -> (r: bool)
    ensures
        r == one_bed(w.entities@),
{
    let ghost s = w.entities@;
    let n = w.entities.len();
    let mut i: usize = 0;
    let mut first: usize = 0;
    let mut seen: bool = false;
    while i < n
        invariant
            n == s.len(),
            i <= n,
            s == w.entities@,
            !seen ==> forall|j: int| 0 <= j < i ==> !(s[j].bed is Some),
            seen ==> is_bed_at(s, first as int) && first < i,
            seen ==> forall|j: int| 0 <= j < i && j != first as int ==> !(s[j].bed is Some),
        decreases n - i,
    {
        if w.entities[i].bed.is_some() {
            if seen {
                assert(is_bed_at(s, first as int) && is_bed_at(s, i as int) && first as int
                    != i as int);
                return false;
            }
            seen = true;
            first = i;
        }
        i += 1;
    }
    if !seen {
        assert(forall|j: int| !is_bed_at(s, j));
        return false;
    }
    assert forall|a: int, b: int| is_bed_at(s, a) && is_bed_at(s, b) implies a == b by {
        assert(a == first as int && b == first as int);
    }
    true
}

/// Decides store well-formedness, so a host program can test it before
/// calling into the tick pipeline.
pub fn check_wf(w: &World) -> (r: bool)
    ensures
        r == w.wf(),
{
    let ghost s = w.entities@;
    let n = w.entities.len();
    let mut i: usize = 0;
    while i < n
        invariant
            n == s.len(),
            i <= n,
            s == w.entities@,
            forall|j: int|
                0 <= j < i ==> entity_wf(#[trigger] s[j]) && s[j].id < w.next_id,
        decreases n - i,
    {
        let e = w.entities[i];
        if e.id >= w.next_id {
            assert(!(entity_wf(s[i as int]) && s[i as int].id < w.next_id));
            return false;
        }
        match e.background {
            Some(b) => {
                if b.dream == b.real {
                    assert(!entity_wf(s[i as int]));
                    return false;
                }
            },
            None => {},
        }
        match e.movement {
            Some(m) => {
                if !(e.translation.x == m.location.x && e.translation.y == m.location.y
                    && e.translation.z == m.location.z) {
                    assert(!entity_wf(s[i as int]));
                    return false;
                }
                if m.velocity.x < -1 || m.velocity.x > 1 || m.velocity.y < -1 || m.velocity.y > 1
                    || m.velocity.z != 0 {
                    assert(!entity_wf(s[i as int]));
                    return false;
                }
            },
            None => {},
        }
        match e.custom_size {
            Some(sz) => {
                if sz.x < 0 || sz.y < 0 {
                    assert(!entity_wf(s[i as int]));
                    return false;
                }
            },
            None => {},
        }
        assert(entity_wf(s[i as int]));
        i += 1;
    }
    true
}

} // verus!
