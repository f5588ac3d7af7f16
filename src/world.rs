use vstd::prelude::*;

use crate::components::{Lifetime, Position, Sprite, Velocity};
use specs::{Builder, Join, WorldExt};

verus! {

#[verifier::external_type_specification]
#[verifier::external_body]
pub struct ExWorld(specs::World);

#[verifier::external_type_specification]
#[verifier::external_body]
pub struct ExEntity(specs::Entity);

/// Live entities at most, bounded by the entity bitset of hibitset: indices
/// stay below 2^20 on 32-bit targets and below 2^24 on 64-bit ones.
pub const MAX_LIVE: usize = 1048576;

/// The entities that the allocator of a specs world has handed out so far,
/// each index with every generation up to its current one.
pub uninterp spec fn issued_of(w: specs::World) -> Set<specs::Entity>;

/// The entities that a specs world has handed out and still holds alive.
pub uninterp spec fn live_of(w: specs::World) -> Set<specs::Entity>;

/// The position storage of a specs world, by entity.
pub uninterp spec fn positions_of(w: specs::World) -> Map<specs::Entity, Position>;

/// The velocity storage of a specs world, by entity.
pub uninterp spec fn velocities_of(w: specs::World) -> Map<specs::Entity, Velocity>;

/// The lifetime storage of a specs world, by entity.
pub uninterp spec fn lifetimes_of(w: specs::World) -> Map<specs::Entity, Lifetime>;

/// The sprite storage of a specs world, by entity.
pub uninterp spec fn sprites_of(w: specs::World) -> Map<specs::Entity, Sprite>;

/// The largest generation, in absolute value, that the entity allocator of
/// a specs world has given to any index.
pub uninterp spec fn max_generation_of(w: specs::World) -> nat;

/// What a world holds: the entities it has handed out, the live ones among
/// them, and one map per component type.
pub struct WorldView {
    pub issued: Set<specs::Entity>,
    pub live: Set<specs::Entity>,
    pub positions: Map<specs::Entity, Position>,
    pub velocities: Map<specs::Entity, Velocity>,
    pub lifetimes: Map<specs::Entity, Lifetime>,
    pub sprites: Map<specs::Entity, Sprite>,
    /// Bound on the generations that entity handles carry so far.
    pub max_generation: nat,
}

impl WorldView {
    /// The view of a world with no entity.
    pub open spec fn empty() -> WorldView {
        WorldView {
            issued: Set::empty(),
            live: Set::empty(),
            positions: Map::empty(),
            velocities: Map::empty(),
            lifetimes: Map::empty(),
            sprites: Map::empty(),
            max_generation: 0,
        }
    }

    /// Finitely many live entities, all handed out by this world, and
    /// components only on live entities.
    pub open spec fn wf(self) -> bool {
        &&& self.live.finite()
        &&& self.live.subset_of(self.issued)
        &&& forall|e: specs::Entity| #[trigger]
            self.positions.contains_key(e) ==> self.live.contains(e)
        &&& forall|e: specs::Entity| #[trigger]
            self.velocities.contains_key(e) ==> self.live.contains(e)
        &&& forall|e: specs::Entity| #[trigger]
            self.lifetimes.contains_key(e) ==> self.live.contains(e)
        &&& forall|e: specs::Entity| #[trigger]
            self.sprites.contains_key(e) ==> self.live.contains(e)
    }

    /// The view after `e` and all its components are destroyed.
    pub open spec fn without(self, e: specs::Entity) -> WorldView {
        WorldView {
            issued: self.issued,
            live: self.live.remove(e),
            positions: self.positions.remove(e),
            velocities: self.velocities.remove(e),
            lifetimes: self.lifetimes.remove(e),
            sprites: self.sprites.remove(e),
            max_generation: self.max_generation,
        }
    }
}

/// The view of a specs world, through the names above.
pub open spec fn view_of(w: specs::World) -> WorldView {
    WorldView {
        issued: issued_of(w),
        live: live_of(w),
        positions: positions_of(w),
        velocities: velocities_of(w),
        lifetimes: lifetimes_of(w),
        sprites: sprites_of(w),
        max_generation: max_generation_of(w),
    }
}

/// Relies on `World::new` and `WorldExt::register`: a new world holds no
/// entity, and registering a component type creates its empty storage.
#[verifier::external_body]
fn empty_world() -> (r: specs::World)
    ensures
        view_of(r) == WorldView::empty(),
{
    let mut w = specs::World::new();
    w.register::<Position>();
    w.register::<Velocity>();
    w.register::<Lifetime>();
    w.register::<Sprite>();
    w
}

/// Relies on `WorldExt::create_entity` and `EntityBuilder::build`: the
/// allocator hands out an entity that it never handed out before and makes
/// it alive, reusing a freed index with its generation raised by one, or
/// else the next unused index. It panics when that generation overflows
/// `i32`, or when the index reaches the cap of the hibitset alive set; a new
/// index equals the number of live entities, since freed ones are reused first.
#[verifier::external_body]
fn create_entity(w: &mut specs::World) -> (r: specs::Entity)
    requires
        live_of(*old(w)).len() < MAX_LIVE,
        max_generation_of(*old(w)) < i32::MAX,
    ensures
        !issued_of(*old(w)).contains(r),
        issued_of(*final(w)) == issued_of(*old(w)).insert(r),
        max_generation_of(*final(w)) <= max_generation_of(*old(w)) + 1,
        !live_of(*old(w)).contains(r),
        live_of(*final(w)) == live_of(*old(w)).insert(r),
        positions_of(*final(w)) == positions_of(*old(w)),
        velocities_of(*final(w)) == velocities_of(*old(w)),
        lifetimes_of(*final(w)) == lifetimes_of(*old(w)),
        sprites_of(*final(w)) == sprites_of(*old(w)),
{
    w.create_entity().build()
}

/// Relies on `EntitiesRes::is_alive`: an entity that this world handed out
/// is alive when its generation is the current one of its index.
#[verifier::external_body]
fn entity_is_alive(w: &specs::World, e: specs::Entity) -> (r: bool)
    requires
        issued_of(*w).contains(e),
    ensures
        r == live_of(*w).contains(e),
{
    w.entities().is_alive(e)
}

/// Relies on `Join` over `&EntitiesRes`: it yields each live entity once.
#[verifier::external_body]
fn live_entities(w: &specs::World) -> (r: Vec<specs::Entity>)
    ensures
        r@.no_duplicates(),
        r@.to_set() == live_of(*w),
{
    (&*w.entities()).join().collect()
}

/// Relies on `WorldExt::delete_entity`: a live entity is killed and its
/// components are dropped from every registered storage; an entity that this
/// world handed out earlier and that is dead now is refused and nothing
/// changes.
#[verifier::external_body]
fn delete_entity(w: &mut specs::World, e: specs::Entity) -> (r: bool)
    requires
        issued_of(*old(w)).contains(e),
    ensures
        r == live_of(*old(w)).contains(e),
        view_of(*final(w)) == view_of(*old(w)).without(e),
{
    w.delete_entity(e).is_ok()
}

/// Relies on `Storage::insert` of the position storage: it stores the value
/// for a live entity, replacing any earlier one.
#[verifier::external_body]
fn insert_position(w: &mut specs::World, e: specs::Entity, v: Position) -> (r: bool)
    requires
        live_of(*old(w)).contains(e),
    ensures
        r,
        positions_of(*final(w)) == positions_of(*old(w)).insert(e, v),
        issued_of(*final(w)) == issued_of(*old(w)),
        live_of(*final(w)) == live_of(*old(w)),
        max_generation_of(*final(w)) == max_generation_of(*old(w)),
        velocities_of(*final(w)) == velocities_of(*old(w)),
        lifetimes_of(*final(w)) == lifetimes_of(*old(w)),
        sprites_of(*final(w)) == sprites_of(*old(w)),
{
    w.write_storage::<Position>().insert(e, v).is_ok()
}

/// Relies on `Storage::insert` of the velocity storage.
#[verifier::external_body]
fn insert_velocity(w: &mut specs::World, e: specs::Entity, v: Velocity) -> (r: bool)
    requires
        live_of(*old(w)).contains(e),
    ensures
        r,
        velocities_of(*final(w)) == velocities_of(*old(w)).insert(e, v),
        issued_of(*final(w)) == issued_of(*old(w)),
        live_of(*final(w)) == live_of(*old(w)),
        max_generation_of(*final(w)) == max_generation_of(*old(w)),
        positions_of(*final(w)) == positions_of(*old(w)),
        lifetimes_of(*final(w)) == lifetimes_of(*old(w)),
        sprites_of(*final(w)) == sprites_of(*old(w)),
{
    w.write_storage::<Velocity>().insert(e, v).is_ok()
}

/// Relies on `Storage::insert` of the lifetime storage.
#[verifier::external_body]
fn insert_lifetime(w: &mut specs::World, e: specs::Entity, v: Lifetime) -> (r: bool)
    requires
        live_of(*old(w)).contains(e),
    ensures
        r,
        lifetimes_of(*final(w)) == lifetimes_of(*old(w)).insert(e, v),
        issued_of(*final(w)) == issued_of(*old(w)),
        live_of(*final(w)) == live_of(*old(w)),
        max_generation_of(*final(w)) == max_generation_of(*old(w)),
        positions_of(*final(w)) == positions_of(*old(w)),
        velocities_of(*final(w)) == velocities_of(*old(w)),
        sprites_of(*final(w)) == sprites_of(*old(w)),
{
    w.write_storage::<Lifetime>().insert(e, v).is_ok()
}

/// Relies on `Storage::insert` of the sprite storage.
#[verifier::external_body]
fn insert_sprite(w: &mut specs::World, e: specs::Entity, v: Sprite) -> (r: bool)
    requires
        live_of(*old(w)).contains(e),
    ensures
        r,
        sprites_of(*final(w)) == sprites_of(*old(w)).insert(e, v),
        issued_of(*final(w)) == issued_of(*old(w)),
        live_of(*final(w)) == live_of(*old(w)),
        max_generation_of(*final(w)) == max_generation_of(*old(w)),
        positions_of(*final(w)) == positions_of(*old(w)),
        velocities_of(*final(w)) == velocities_of(*old(w)),
        lifetimes_of(*final(w)) == lifetimes_of(*old(w)),
{
    w.write_storage::<Sprite>().insert(e, v).is_ok()
}

/// Relies on `Storage::get` of the position storage.
#[verifier::external_body]
fn get_position(w: &specs::World, e: specs::Entity) -> (r: Option<Position>)
    ensures
        r == if positions_of(*w).contains_key(e) {
            Some(positions_of(*w)[e])
        } else {
            None
        },
{
    w.read_storage::<Position>().get(e).copied()
}

/// Relies on `Storage::get` of the velocity storage.
#[verifier::external_body]
fn get_velocity(w: &specs::World, e: specs::Entity) -> (r: Option<Velocity>)
    ensures
        r == if velocities_of(*w).contains_key(e) {
            Some(velocities_of(*w)[e])
        } else {
            None
        },
{
    w.read_storage::<Velocity>().get(e).copied()
}

/// Relies on `Storage::get` of the lifetime storage.
#[verifier::external_body]
fn get_lifetime(w: &specs::World, e: specs::Entity) -> (r: Option<Lifetime>)
    ensures
        r == if lifetimes_of(*w).contains_key(e) {
            Some(lifetimes_of(*w)[e])
        } else {
            None
        },
{
    w.read_storage::<Lifetime>().get(e).copied()
}

/// Relies on `Storage::get` of the sprite storage.
#[verifier::external_body]
fn get_sprite(w: &specs::World, e: specs::Entity) -> (r: Option<Sprite>)
    ensures
        r == if sprites_of(*w).contains_key(e) {
            Some(sprites_of(*w)[e])
        } else {
            None
        },
{
    w.read_storage::<Sprite>().get(e).copied()
}

/// A world of entities and their components, kept in a specs world with one
/// storage per component type.
pub struct GameWorld {
    world: specs::World,
}

impl View for GameWorld {
    type V = WorldView;

    closed spec fn view(&self) -> WorldView {
        view_of(self.world)
    }
}

impl GameWorld {
    /// A world with no entity.
    pub fn new() -> (r: GameWorld)
        ensures
            r@ == WorldView::empty(),
            r@.wf(),
    {
        GameWorld { world: empty_world() }
    }

    /// Creates an entity with the components given, and returns it.
    pub fn spawn(
        &mut self,
        position: Option<Position>,
        velocity: Option<Velocity>,
        lifetime: Option<Lifetime>,
        sprite: Option<Sprite>,
    ) -> (e: specs::Entity)
        requires
            old(self)@.wf(),
            old(self)@.live.len() < MAX_LIVE,
            old(self)@.max_generation < i32::MAX,
        ensures
            final(self)@.wf(),
            !old(self)@.issued.contains(e),
            final(self)@.issued == old(self)@.issued.insert(e),
            final(self)@.max_generation <= old(self)@.max_generation + 1,
            !old(self)@.live.contains(e),
            final(self)@.live == old(self)@.live.insert(e),
            final(self)@.positions == (match position {
                Some(p) => old(self)@.positions.insert(e, p),
                None => old(self)@.positions,
            }),
            final(self)@.velocities == (match velocity {
                Some(v) => old(self)@.velocities.insert(e, v),
                None => old(self)@.velocities,
            }),
            final(self)@.lifetimes == (match lifetime {
                Some(l) => old(self)@.lifetimes.insert(e, l),
                None => old(self)@.lifetimes,
            }),
            final(self)@.sprites == (match sprite {
                Some(s) => old(self)@.sprites.insert(e, s),
                None => old(self)@.sprites,
            }),
    {
        let e = create_entity(&mut self.world);
        if let Some(p) = position {
            insert_position(&mut self.world, e, p);
        }
        if let Some(v) = velocity {
            insert_velocity(&mut self.world, e, v);
        }
        if let Some(l) = lifetime {
            insert_lifetime(&mut self.world, e, l);
        }
        if let Some(s) = sprite {
            insert_sprite(&mut self.world, e, s);
        }
        proof {
            let (v0, v1) = (old(self)@, self@);
            assert forall|x: specs::Entity| #[trigger] v1.positions.contains_key(x) implies v1.live.contains(x) by {
                if x != e {
                    assert(v0.positions.contains_key(x));
                }
            }
            assert forall|x: specs::Entity| #[trigger] v1.velocities.contains_key(x) implies v1.live.contains(x) by {
                if x != e {
                    assert(v0.velocities.contains_key(x));
                }
            }
            assert forall|x: specs::Entity| #[trigger] v1.lifetimes.contains_key(x) implies v1.live.contains(x) by {
                if x != e {
                    assert(v0.lifetimes.contains_key(x));
                }
            }
            assert forall|x: specs::Entity| #[trigger] v1.sprites.contains_key(x) implies v1.live.contains(x) by {
                if x != e {
                    assert(v0.sprites.contains_key(x));
                }
            }
        }
        e
    }

    /// Destroys a live entity with all its components; returns false, and
    /// changes nothing, for an entity of this world that is no longer alive.
    pub fn destroy(&mut self, e: specs::Entity) -> (r: bool)
        requires
            old(self)@.wf(),
            old(self)@.issued.contains(e),
        ensures
            final(self)@.wf(),
            r == old(self)@.live.contains(e),
            final(self)@ == old(self)@.without(e),
            forall|o: specs::Entity|
                o != e ==> {
                    &&& final(self)@.live.contains(o) == old(self)@.live.contains(o)
                    &&& final(self)@.positions.contains_key(o) == old(self)@.positions.contains_key(o)
                    &&& final(self)@.positions[o] == old(self)@.positions[o]
                    &&& final(self)@.velocities.contains_key(o) == old(self)@.velocities.contains_key(o)
                    &&& final(self)@.velocities[o] == old(self)@.velocities[o]
                    &&& final(self)@.lifetimes.contains_key(o) == old(self)@.lifetimes.contains_key(o)
                    &&& final(self)@.lifetimes[o] == old(self)@.lifetimes[o]
                    &&& final(self)@.sprites.contains_key(o) == old(self)@.sprites.contains_key(o)
                    &&& final(self)@.sprites[o] == old(self)@.sprites[o]
                },
    {
        delete_entity(&mut self.world, e)
    }

    /// Whether `e`, an entity of this world, is still alive.
    pub fn is_alive(&self, e: specs::Entity) -> (r: bool)
        requires
            self@.issued.contains(e),
        ensures
            r == self@.live.contains(e),
    {
        entity_is_alive(&self.world, e)
    }

    /// Every live entity, each once.
    pub fn entities(&self) -> (r: Vec<specs::Entity>)
        ensures
            r@.no_duplicates(),
            r@.to_set() == self@.live,
    {
        live_entities(&self.world)
    }

    /// The position of `e`, if it has one.
    pub fn position(&self, e: specs::Entity) -> (r: Option<Position>)
        ensures
            r == if self@.positions.contains_key(e) {
                Some(self@.positions[e])
            } else {
                None
            },
    {
        get_position(&self.world, e)
    }

    /// The velocity of `e`, if it has one.
    pub fn velocity(&self, e: specs::Entity) -> (r: Option<Velocity>)
        ensures
            r == if self@.velocities.contains_key(e) {
                Some(self@.velocities[e])
            } else {
                None
            },
    {
        get_velocity(&self.world, e)
    }

    /// The lifetime of `e`, if it has one.
    pub fn lifetime(&self, e: specs::Entity) -> (r: Option<Lifetime>)
        ensures
            r == if self@.lifetimes.contains_key(e) {
                Some(self@.lifetimes[e])
            } else {
                None
            },
    {
        get_lifetime(&self.world, e)
    }

    /// The sprite of `e`, if it has one.
    pub fn sprite(&self, e: specs::Entity) -> (r: Option<Sprite>)
        ensures
            r == if self@.sprites.contains_key(e) {
                Some(self@.sprites[e])
            } else {
                None
            },
    {
        get_sprite(&self.world, e)
    }

    /// Replaces the position of a live entity.
    pub fn set_position(&mut self, e: specs::Entity, p: Position)
        requires
            old(self)@.wf(),
            old(self)@.live.contains(e),
        ensures
            final(self)@.wf(),
            final(self)@ == (WorldView { positions: old(self)@.positions.insert(e, p), ..old(self)@ }),
    {
        insert_position(&mut self.world, e, p);
    }

    /// Replaces the lifetime of a live entity.
    pub fn set_lifetime(&mut self, e: specs::Entity, l: Lifetime)
        requires
            old(self)@.wf(),
            old(self)@.live.contains(e),
        ensures
            final(self)@.wf(),
            final(self)@ == (WorldView { lifetimes: old(self)@.lifetimes.insert(e, l), ..old(self)@ }),
    {
        insert_lifetime(&mut self.world, e, l);
    }
}

} // verus!
