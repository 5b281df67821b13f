//! Small vectors and directions.
use vstd::prelude::*;

verus! {

/// A 2-dimensional vector.
#[derive(Debug, Default, Clone, Copy, PartialEq, Eq, Hash)]
pub struct Vec2<T> {
    pub x: T,
    pub y: T,
}

/// A 3-dimensional vector.
#[derive(Debug, Default, Clone, Copy, PartialEq, Eq, Hash)]
pub struct Vec3<T> {
    pub x: T,
    pub y: T,
    pub z: T,
}

/// Creates a new 2-dimensional vector.
pub fn vec2<T>(x: T, y: T) -> (r: Vec2<T>)
    ensures
        r.x == x,
        r.y == y,
{
    Vec2 { x, y }
}

/// Creates a new 3-dimensional vector.
pub fn vec3<T>(x: T, y: T, z: T) -> (r: Vec3<T>)
    ensures
        r.x == x,
        r.y == y,
        r.z == z,
{
    Vec3 { x, y, z }
}

/// The six axis-aligned directions.
#[derive(Debug, Clone, Copy, PartialEq, Eq, Hash, Structural)]
pub enum Direction {
    /// `-Z`
    North,
    /// `+Z`
    South,
    /// `+X`
    East,
    /// `-X`
    West,
    /// `+Y`
    Up,
    /// `-Y`
    Down,
}

} // verus!
