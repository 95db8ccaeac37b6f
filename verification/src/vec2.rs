//! Pairs of scalars, used for surface coordinates.
use crate::scalar::Scalar;
use vstd::prelude::*;

verus! {

/// A vector of two scalars.
#[derive(Clone, Copy, Debug, PartialEq, Eq, Structural)]
pub struct Vec2 {
    pub x: Scalar,
    pub y: Scalar,
}

/// Surface coordinates `(u, v)`.
pub type UV = Vec2;

impl Vec2 {
    pub open spec fn spec_new(x: Scalar, y: Scalar) -> Vec2 {
        Vec2 { x, y }
    }

    /// The pair `(x, y)`.
    #[verifier::when_used_as_spec(spec_new)]
    pub fn new(x: Scalar, y: Scalar) -> (r: Vec2)
        ensures
            r == Vec2::spec_new(x, y),
    {
        Vec2 { x, y }
    }

    pub open spec fn spec_x(&self) -> Scalar {
        self.x
    }

    /// The first component.
    #[verifier::when_used_as_spec(spec_x)]
    pub fn x(&self) -> (r: Scalar)
        ensures
            r == self.x,
    {
        self.x
    }

    pub open spec fn spec_y(&self) -> Scalar {
        self.y
    }

    /// The second component.
    #[verifier::when_used_as_spec(spec_y)]
    pub fn y(&self) -> (r: Scalar)
        ensures
            r == self.y,
    {
        self.y
    }
}

} // verus!
