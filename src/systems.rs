use vstd::prelude::*;

use crate::components::{Lifetime, Position, Velocity, GRID_SIZE};
use crate::world::{GameWorld, WorldView};

verus! {

/// One axis after a move by `d` on a grid of `GRID_SIZE` cells, wrapping
/// around at both ends: `(a + d + GRID_SIZE) mod GRID_SIZE`.
pub open spec fn wrapped(a: i32, d: i32) -> i32 {
    ((a + d + GRID_SIZE) % (GRID_SIZE as int)) as i32
}

/// A position after one move by velocity `v`, each axis wrapped.
pub open spec fn wrapped_position(p: Position, v: Velocity) -> Position {
    Position { x: wrapped(p.x, v.x), y: wrapped(p.y, v.y) }
}

/// The world after the movement pass: every entity with both a position and
/// a velocity moves once; nothing else changes.
pub open spec fn moved_view(v: WorldView) -> WorldView {
    WorldView {
        positions: Map::new(
            |e: specs::Entity| v.positions.contains_key(e),
            |e: specs::Entity|
                if v.velocities.contains_key(e) {
                    wrapped_position(v.positions[e], v.velocities[e])
                } else {
                    v.positions[e]
                },
        ),
        ..v
    }
}

/// Whether the lifetime pass destroys `e`: its counter has reached zero.
pub open spec fn dies(v: WorldView, e: specs::Entity) -> bool {
    v.lifetimes.contains_key(e) && v.lifetimes[e].0 == 0
}

/// The world after the lifetime pass: entities whose lifetime is zero are
/// destroyed with all their components, every other lifetime goes down by
/// one, and nothing else changes.
pub open spec fn aged_view(v: WorldView) -> WorldView {
    WorldView {
        issued: v.issued,
        live: v.live.filter(|e: specs::Entity| !dies(v, e)),
        positions: Map::new(
            |e: specs::Entity| v.positions.contains_key(e) && !dies(v, e),
            |e: specs::Entity| v.positions[e],
        ),
        velocities: Map::new(
            |e: specs::Entity| v.velocities.contains_key(e) && !dies(v, e),
            |e: specs::Entity| v.velocities[e],
        ),
        lifetimes: Map::new(
            |e: specs::Entity| v.lifetimes.contains_key(e) && !dies(v, e),
            |e: specs::Entity| Lifetime((v.lifetimes[e].0 - 1) as usize),
        ),
        sprites: Map::new(
            |e: specs::Entity| v.sprites.contains_key(e) && !dies(v, e),
            |e: specs::Entity| v.sprites[e],
        ),
        max_generation: v.max_generation,
    }
}

/// The prefix of a sequence without duplicates that ends just before
/// position `i` does not hold the element at `i`, and the prefix one longer
/// holds exactly what the shorter one holds and that element.
pub(crate) proof fn lemma_prefix_step<A>(s: Seq<A>, i: int)
    requires
        s.no_duplicates(),
        0 <= i < s.len(),
    ensures
        !s.subrange(0, i).contains(s[i]),
        forall|x: A|
            #[trigger] s.subrange(0, i + 1).contains(x) == (s.subrange(0, i).contains(x) || x == s[i]),
{
    let (short, long) = (s.subrange(0, i), s.subrange(0, i + 1));
    assert forall|k: int| 0 <= k < i implies short[k] != s[i] by {
        assert(short[k] == s[k]);
    }
    assert forall|x: A| #[trigger] long.contains(x) == (short.contains(x) || x == s[i]) by {
        if x == s[i] {
            assert(long[i] == x);
        }
        if short.contains(x) {
            let k = choose|k: int| 0 <= k < i && short[k] == x;
            assert(long[k] == x);
        }
        if long.contains(x) && x != s[i] {
            let k = choose|k: int| 0 <= k < i + 1 && long[k] == x;
            assert(short[k] == x);
        }
    }
}

/// One axis moved by `d` with wrap-around.
pub fn wrap_axis(a: i32, d: i32) -> (r: i32)
    ensures
        r == wrapped(a, d),
        0 <= r < GRID_SIZE,
{
    let s: i64 = a as i64 + d as i64 + GRID_SIZE as i64;
    match s.checked_rem_euclid(GRID_SIZE as i64) {
        Some(m) => m as i32,
        None => 0,
    }
}

/// A position moved once by `v`.
pub fn wrap_position(p: Position, v: Velocity) -> (r: Position)
    ensures
        r == wrapped_position(p, v),
        0 <= r.x < GRID_SIZE,
        0 <= r.y < GRID_SIZE,
{
    Position { x: wrap_axis(p.x, v.x), y: wrap_axis(p.y, v.y) }
}

/// Moves every entity that has both a position and a velocity by one step,
/// wrapping around the grid; entities without a velocity keep their position.
pub fn run_movement(world: &mut GameWorld)
    requires
        old(world)@.wf(),
    ensures
        final(world)@.wf(),
        final(world)@ == moved_view(old(world)@),
        forall|e: specs::Entity|
            #![trigger final(world)@.positions[e]]
            final(world)@.positions.contains_key(e) && old(world)@.velocities.contains_key(e) ==> {
                &&& 0 <= final(world)@.positions[e].x < GRID_SIZE
                &&& 0 <= final(world)@.positions[e].y < GRID_SIZE
            },
        forall|e: specs::Entity|
            #![trigger final(world)@.positions[e]]
            !old(world)@.velocities.contains_key(e) && old(world)@.positions.contains_key(e)
                ==> final(world)@.positions[e] == old(world)@.positions[e],
{
    let ghost v = world@;
    let ents = world.entities();
    let mut i: usize = 0;
    while i < ents.len()
        invariant
            0 <= i <= ents.len(),
            ents@.no_duplicates(),
            ents@.to_set() == v.live,
            v.wf(),
            world@.wf(),
            world@.live == v.live,
            world@.max_generation == v.max_generation,
            world@.issued == v.issued,
            world@.velocities == v.velocities,
            world@.lifetimes == v.lifetimes,
            world@.sprites == v.sprites,
            forall|e: specs::Entity|
                #[trigger] world@.positions.contains_key(e) == v.positions.contains_key(e),
            forall|e: specs::Entity|
                #[trigger] world@.positions.contains_key(e) ==> world@.positions[e] == (if ents@.subrange(
                    0,
                    i as int,
                ).contains(e) && v.velocities.contains_key(e) {
                    wrapped_position(v.positions[e], v.velocities[e])
                } else {
                    v.positions[e]
                }),
        decreases ents.len() - i,
    {
        let e = ents[i];
        proof {
            assert(ents@.contains(e));
            assert(v.live.contains(e));
            lemma_prefix_step(ents@, i as int);
        }
        match (world.position(e), world.velocity(e)) {
            (Some(p), Some(d)) => {
                let q = wrap_position(p, d);
                world.set_position(e, q);
            },
            _ => {},
        }
        i += 1;
    }
    proof {
        assert(ents@.subrange(0, ents.len() as int) =~= ents@);
        assert forall|e: specs::Entity| #[trigger] world@.positions.contains_key(e) implies world@.positions[e]
            == moved_view(v).positions[e] by {
            assert(v.live.contains(e));
            assert(ents@.to_set().contains(e));
        }
        assert(world@.positions =~= moved_view(v).positions);
    }
}

/// Counts every lifetime down by one; an entity whose lifetime is already
/// zero is destroyed instead, with all its components. Other entities keep
/// their components.
pub fn run_lifetimes(world: &mut GameWorld)
    requires
        old(world)@.wf(),
    ensures
        final(world)@.wf(),
        final(world)@ == aged_view(old(world)@),
{
    let ghost v = world@;
    let ents = world.entities();
    let mut i: usize = 0;
    while i < ents.len()
        invariant
            0 <= i <= ents.len(),
            ents@.no_duplicates(),
            ents@.to_set() == v.live,
            v.wf(),
            world@.wf(),
            world@.max_generation == v.max_generation,
            world@.issued == v.issued,
            forall|e: specs::Entity|
                #[trigger] world@.live.contains(e) == (v.live.contains(e) && !(ents@.subrange(
                    0,
                    i as int,
                ).contains(e) && dies(v, e))),
            forall|e: specs::Entity|
                #[trigger] world@.positions.contains_key(e) == (v.positions.contains_key(e) && !(
                ents@.subrange(0, i as int).contains(e) && dies(v, e))),
            forall|e: specs::Entity|
                #[trigger] world@.velocities.contains_key(e) == (v.velocities.contains_key(e) && !(
                ents@.subrange(0, i as int).contains(e) && dies(v, e))),
            forall|e: specs::Entity|
                #[trigger] world@.sprites.contains_key(e) == (v.sprites.contains_key(e) && !(
                ents@.subrange(0, i as int).contains(e) && dies(v, e))),
            forall|e: specs::Entity|
                #[trigger] world@.lifetimes.contains_key(e) == (v.lifetimes.contains_key(e) && !(
                ents@.subrange(0, i as int).contains(e) && dies(v, e))),
            forall|e: specs::Entity|
                #[trigger] world@.positions.contains_key(e) ==> world@.positions[e] == v.positions[e],
            forall|e: specs::Entity|
                #[trigger] world@.velocities.contains_key(e) ==> world@.velocities[e]
                    == v.velocities[e],
            forall|e: specs::Entity|
                #[trigger] world@.sprites.contains_key(e) ==> world@.sprites[e] == v.sprites[e],
            forall|e: specs::Entity|
                #[trigger] world@.lifetimes.contains_key(e) ==> world@.lifetimes[e] == (if ents@.subrange(
                    0,
                    i as int,
                ).contains(e) {
                    Lifetime((v.lifetimes[e].0 - 1) as usize)
                } else {
                    v.lifetimes[e]
                }),
        decreases ents.len() - i,
    {
        let e = ents[i];
        proof {
            assert(ents@.contains(e));
            assert(v.live.contains(e));
            lemma_prefix_step(ents@, i as int);
            assert(world@.live.contains(e));
        }
        match world.lifetime(e) {
            Some(l) => {
                if l.0 > 0 {
                    world.set_lifetime(e, Lifetime(l.0 - 1));
                } else {
                    world.destroy(e);
                }
            },
            None => {},
        }
        i += 1;
    }
    proof {
        assert(ents@.subrange(0, ents.len() as int) =~= ents@);
        let a = aged_view(v);
        assert forall|e: specs::Entity| #[trigger] v.lifetimes.contains_key(e) implies ents@.contains(e) by {
            assert(ents@.to_set().contains(e));
        }
        assert forall|e: specs::Entity| #[trigger] v.live.contains(e) implies ents@.contains(e) by {
            assert(ents@.to_set().contains(e));
        }
        assert(world@.live =~= a.live);
        assert(world@.positions =~= a.positions);
        assert(world@.velocities =~= a.velocities);
        assert(world@.sprites =~= a.sprites);
        assert(world@.lifetimes =~= a.lifetimes);
    }
}

/// One tick: the movement pass, then the lifetime pass. A live entity with
/// a positive lifetime survives it with that lifetime one lower; one whose
/// lifetime is zero leaves the world with all its components.
pub fn tick(world: &mut GameWorld)
    requires
        old(world)@.wf(),
    ensures
        final(world)@.wf(),
        final(world)@ == aged_view(moved_view(old(world)@)),
        forall|e: specs::Entity|
            #![trigger old(world)@.lifetimes[e]]
            old(world)@.live.contains(e) && old(world)@.lifetimes.contains_key(e)
                && old(world)@.lifetimes[e].0 > 0 ==> {
                &&& final(world)@.live.contains(e)
                &&& final(world)@.lifetimes.contains_key(e)
                &&& final(world)@.lifetimes[e].0 == old(world)@.lifetimes[e].0 - 1
            },
        forall|e: specs::Entity|
            #![trigger old(world)@.lifetimes[e]]
            old(world)@.lifetimes.contains_key(e) && old(world)@.lifetimes[e].0 == 0 ==> {
                &&& !final(world)@.live.contains(e)
                &&& !final(world)@.positions.contains_key(e)
                &&& !final(world)@.velocities.contains_key(e)
                &&& !final(world)@.lifetimes.contains_key(e)
                &&& !final(world)@.sprites.contains_key(e)
            },
{
    run_movement(world);
    run_lifetimes(world);
}

/// The movement system: shifts positions by velocities each tick.
pub struct MovementSystem;

impl MovementSystem {
    pub fn run(&mut self, world: &mut GameWorld)
        requires
            old(world)@.wf(),
        ensures
            final(world)@.wf(),
            final(world)@ == moved_view(old(world)@),
    {
        run_movement(world);
    }
}

/// The lifetime system: counts lifetimes down and destroys expired entities.
pub struct LifetimeSystem;

impl LifetimeSystem {
    pub fn run(&mut self, world: &mut GameWorld)
        requires
            old(world)@.wf(),
        ensures
            final(world)@.wf(),
            final(world)@ == aged_view(old(world)@),
    {
        run_lifetimes(world);
    }
}

proof fn lemma_countdown_until(views: Seq<WorldView>, e: specs::Entity, n: nat, k: nat)
    requires
        views.len() == n + 2,
        views[0].live.contains(e),
        views[0].lifetimes.contains_key(e),
        views[0].lifetimes[e].0 == n,
        forall|i: int| 1 <= i < n + 2 ==> #[trigger] views[i] == aged_view(moved_view(views[i - 1])),
        k <= n,
    ensures
        views[k as int].live.contains(e),
        views[k as int].lifetimes.contains_key(e),
        views[k as int].lifetimes[e].0 == n - k,
    decreases k,
{
    if k > 0 {
        lemma_countdown_until(views, e, n, (k - 1) as nat);
        assert(views[k as int] == aged_view(moved_view(views[k - 1])));
    }
}

/// Lifetime countdown: over consecutive ticks, an entity whose lifetime is
/// `n` stays alive through the first `n` ticks, its lifetime going from `n`
/// down to zero, and is destroyed by tick `n + 1`. `views` holds the world
/// before each call of `tick` and after the last, each one related to the
/// one before exactly as `tick` ensures.
pub proof fn lemma_destroyed_after_countdown(views: Seq<WorldView>, e: specs::Entity, n: nat)
    requires
        views.len() == n + 2,
        views[0].live.contains(e),
        views[0].lifetimes.contains_key(e),
        views[0].lifetimes[e].0 == n,
        forall|i: int| 1 <= i < n + 2 ==> #[trigger] views[i] == aged_view(moved_view(views[i - 1])),
    ensures
        forall|i: int|
            0 <= i <= n ==> {
                &&& (#[trigger] views[i]).live.contains(e)
                &&& views[i].lifetimes.contains_key(e)
                &&& views[i].lifetimes[e].0 == n - i
            },
        !views[n + 1 as int].live.contains(e),
{
    assert forall|i: int|
        0 <= i <= n implies {
            &&& (#[trigger] views[i]).live.contains(e)
            &&& views[i].lifetimes.contains_key(e)
            &&& views[i].lifetimes[e].0 == n - i
        } by {
        lemma_countdown_until(views, e, n, i as nat);
    }
    assert(views[n + 1 as int] == aged_view(moved_view(views[n as int])));
}

} // verus!
