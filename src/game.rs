use vstd::prelude::*;

use crate::components::{Lifetime, Position, Sprite, Velocity, INITIAL_TAIL, TILE_SIZE};
use crate::systems::lemma_prefix_step;
use crate::world::{GameWorld, WorldView};

verus! {

/// The starting world: a moving entity at (0, 0) with velocity (1, 0),
/// lifetime `INITIAL_TAIL` and the sheet's first sprite, and a still entity
/// at (2, 0) with the sprite below it and no velocity or lifetime. Returns the
/// world and the two entities in that order.
pub fn initial_world() -> (r: (GameWorld, specs::Entity, specs::Entity))
    ensures
        r.0@.wf(),
        r.1 != r.2,
        r.0@.live == set![r.1, r.2],
        r.0@.max_generation <= 2,
        r.0@.positions == map![r.1 => Position { x: 0, y: 0 }, r.2 => Position { x: 2, y: 0 }],
        r.0@.velocities == map![r.1 => Velocity { x: 1, y: 0 }],
        r.0@.lifetimes == map![r.1 => Lifetime(INITIAL_TAIL)],
        r.0@.sprites == map![
            r.1 => Sprite { x: 0, y: 0, width: 1, height: 1 },
            r.2 => Sprite { x: 0, y: 1, width: 1, height: 1 },
        ],
{
    let mut world = GameWorld::new();
    let mover = world.spawn(
        Some(Position { x: 0, y: 0 }),
        Some(Velocity { x: 1, y: 0 }),
        Some(Lifetime(INITIAL_TAIL)),
        Some(Sprite { x: 0, y: 0, width: 1, height: 1 }),
    );
    let still = world.spawn(
        Some(Position { x: 2, y: 0 }),
        None,
        None,
        Some(Sprite { x: 0, y: 1, width: 1, height: 1 }),
    );
    proof {
        assert(world@.live =~= set![mover, still]);
        assert(world@.positions =~= map![mover => Position { x: 0, y: 0 }, still => Position { x: 2, y: 0 }]);
        assert(world@.velocities =~= map![mover => Velocity { x: 1, y: 0 }]);
        assert(world@.lifetimes =~= map![mover => Lifetime(INITIAL_TAIL)]);
        assert(world@.sprites =~= map![
            mover => Sprite { x: 0, y: 0, width: 1, height: 1 },
            still => Sprite { x: 0, y: 1, width: 1, height: 1 },
        ]);
    }
    (world, mover, still)
}

/// Screen pixel coordinates of the top-left corner of a grid cell.
pub fn screen_position(p: Position) -> (r: (i64, i64))
    ensures
        r.0 == p.x * TILE_SIZE,
        r.1 == p.y * TILE_SIZE,
{
    (p.x as i64 * TILE_SIZE as i64, p.y as i64 * TILE_SIZE as i64)
}

/// What is drawn each frame: the position and sprite of every live entity
/// that has both, each entity once.
pub fn draw_list(world: &GameWorld) -> (r: Vec<(specs::Entity, Position, Sprite)>)
    requires
        world@.wf(),
    ensures
        forall|i: int|
            0 <= i < r.len() ==> {
                &&& world@.positions.contains_key((#[trigger] r@[i]).0)
                &&& world@.sprites.contains_key(r@[i].0)
                &&& world@.positions[r@[i].0] == r@[i].1
                &&& world@.sprites[r@[i].0] == r@[i].2
            },
        forall|i: int, j: int| 0 <= i < j < r.len() ==> (#[trigger] r@[i]).0 != (#[trigger] r@[j]).0,
        forall|e: specs::Entity|
            world@.positions.contains_key(e) && #[trigger] world@.sprites.contains_key(e) ==> exists|
                i: int,
            |
                0 <= i < r.len() && (#[trigger] r@[i]).0 == e,
{
    let ents = world.entities();
    let mut out: Vec<(specs::Entity, Position, Sprite)> = Vec::new();
    let mut i: usize = 0;
    while i < ents.len()
        invariant
            0 <= i <= ents.len(),
            ents@.no_duplicates(),
            ents@.to_set() == world@.live,
            forall|k: int|
                0 <= k < out.len() ==> {
                    &&& world@.positions.contains_key((#[trigger] out@[k]).0)
                    &&& world@.sprites.contains_key(out@[k].0)
                    &&& world@.positions[out@[k].0] == out@[k].1
                    &&& world@.sprites[out@[k].0] == out@[k].2
                    &&& ents@.subrange(0, i as int).contains(out@[k].0)
                },
            forall|a: int, b: int|
                0 <= a < b < out.len() ==> (#[trigger] out@[a]).0 != (#[trigger] out@[b]).0,
            forall|k: int|
                0 <= k < i && world@.positions.contains_key(ents@[k]) && #[trigger] world@.sprites.contains_key(ents@[k])
                    ==> exists|m: int| 0 <= m < out.len() && (#[trigger] out@[m]).0 == ents@[k],
        decreases ents.len() - i,
    {
        let e = ents[i];
        proof {
            lemma_prefix_step(ents@, i as int);
        }
        let ghost before = out@;
        match (world.position(e), world.sprite(e)) {
            (Some(p), Some(s)) => {
                out.push((e, p, s));
                proof {
                    assert(out@[out.len() - 1].0 == e);
                }
            },
            _ => {},
        }
        proof {
            assert forall|k: int|
                0 <= k < i + 1 && world@.positions.contains_key(ents@[k]) && #[trigger] world@.sprites.contains_key(ents@[k])
                    implies exists|m: int| 0 <= m < out.len() && (#[trigger] out@[m]).0 == ents@[k] by {
                if k < i {
                    let m = choose|m: int| 0 <= m < before.len() && (#[trigger] before[m]).0 == ents@[k];
                    assert(out@[m] == before[m]);
                } else {
                    assert(out@[out.len() - 1].0 == e);
                }
            }
        }
        i += 1;
    }
    proof {
        assert forall|e: specs::Entity|
            world@.positions.contains_key(e) && #[trigger] world@.sprites.contains_key(e) implies exists|
                i: int,
            | 0 <= i < out.len() && (#[trigger] out@[i]).0 == e by {
            assert(ents@.to_set().contains(e));
            assert(ents@.contains(e));
            let k = choose|k: int| 0 <= k < ents.len() && ents@[k] == e;
            assert(world@.sprites.contains_key(ents@[k]));
        }
    }
    out
}

} // verus!
