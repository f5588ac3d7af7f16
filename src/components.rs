use vstd::prelude::*;

verus! {

/// Side length of the square grid, in cells.
pub const GRID_SIZE: i32 = 20;

/// Side length of one grid cell on screen, in pixels.
pub const TILE_SIZE: i32 = 20;

/// Lifetime given to the moving entity of the initial world.
pub const INITIAL_TAIL: usize = 5;

/// Cell that an entity occupies.
#[derive(Clone, Copy, Debug, PartialEq, Eq, Structural)]
pub struct Position {
    pub x: i32,
    pub y: i32,
}

/// Cells moved per tick on each axis.
#[derive(Clone, Copy, Debug, PartialEq, Eq, Structural)]
pub struct Velocity {
    pub x: i32,
    pub y: i32,
}

/// Ticks left before the entity is destroyed.
#[derive(Clone, Copy, Debug, PartialEq, Eq, Structural)]
pub struct Lifetime(pub usize);

/// Clip rectangle of the entity's image in the sprite sheet, in sheet pixels.
#[derive(Clone, Copy, Debug, PartialEq, Eq, Structural)]
pub struct Sprite {
    pub x: i32,
    pub y: i32,
    pub width: i32,
    pub height: i32,
}

#[verifier::external_type_specification]
#[verifier::external_body]
#[verifier::reject_recursive_types(T)]
pub struct ExVecStorage<T>(specs::VecStorage<T>);

impl specs::Component for Position {
    type Storage = specs::VecStorage<Self>;
}

impl specs::Component for Velocity {
    type Storage = specs::VecStorage<Self>;
}

impl specs::Component for Lifetime {
    type Storage = specs::VecStorage<Self>;
}

impl specs::Component for Sprite {
    type Storage = specs::VecStorage<Self>;
}

} // verus!
