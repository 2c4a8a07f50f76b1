//! The geometry primitive: an axis-aligned rectangle given by the position
//! of its bottom-left corner and its dimensions.

use vstd::prelude::*;
use crate::scalar::Scalar;

verus! {

/// An axis-aligned rectangle. `position` is the bottom-left corner,
/// `dimensions` is `(width, height)`.
#[derive(Clone, Copy, PartialEq, Debug)]
pub struct Rectangle {
    pub position: (Scalar, Scalar),
    pub dimensions: (Scalar, Scalar),
}

impl Rectangle {
    /// The left edge: the x coordinate of the position.
    pub open spec fn spec_left(self) -> Scalar {
        self.position.0
    }

    /// The bottom edge: the y coordinate of the position.
    pub open spec fn spec_bottom(self) -> Scalar {
        self.position.1
    }

    /// The right edge: left plus width.
    pub open spec fn spec_right(self) -> Scalar {
        self.position.0.spec_plus(self.dimensions.0)
    }

    /// The top edge: bottom plus height.
    pub open spec fn spec_top(self) -> Scalar {
        self.position.1.spec_plus(self.dimensions.1)
    }

    /// A copy of this rectangle shifted by `movement`; dimensions unchanged.
    pub open spec fn spec_translated(self, movement: (Scalar, Scalar)) -> Rectangle {
        Rectangle {
            position: (
                self.position.0.spec_plus(movement.0),
                self.position.1.spec_plus(movement.1),
            ),
            dimensions: self.dimensions,
        }
    }

    pub fn left(&self) -> (r: Scalar)
        ensures
            r == self.spec_left(),
    {
        self.position.0
    }

    pub fn bottom(&self) -> (r: Scalar)
        ensures
            r == self.spec_bottom(),
    {
        self.position.1
    }

    pub fn right(&self) -> (r: Scalar)
        ensures
            r == self.spec_right(),
    {
        self.position.0.plus(self.dimensions.0)
    }

    pub fn top(&self) -> (r: Scalar)
        ensures
            r == self.spec_top(),
    {
        self.position.1.plus(self.dimensions.1)
    }

    /// A copy of this rectangle shifted by `movement`; dimensions unchanged.
    pub fn translated(&self, movement: (Scalar, Scalar)) -> (r: Rectangle)
        ensures
            r == self.spec_translated(movement),
    {
        Rectangle {
            position: (
                self.position.0.plus(movement.0),
                self.position.1.plus(movement.1),
            ),
            dimensions: self.dimensions,
        }
    }

    /// The four corners, in the order
    /// [bottom left, top left, top right, bottom right]; consumers rely on
    /// this order for triangulation.
    pub fn vertices(&self) -> (r: [(Scalar, Scalar); 4])
        ensures
            r@.len() == 4,
            r@[0] == (self.spec_left(), self.spec_bottom()),
            r@[1] == (self.spec_left(), self.spec_top()),
            r@[2] == (self.spec_right(), self.spec_top()),
            r@[3] == (self.spec_right(), self.spec_bottom()),
    {
        [
            (self.left(), self.bottom()),
            (self.left(), self.top()),
            (self.right(), self.top()),
            (self.right(), self.bottom()),
        ]
    }
}

/// Law: translating a rectangle moves its left edge by exactly the x
/// component of the offset and its bottom edge by exactly the y component,
/// and leaves its dimensions unchanged.
pub proof fn lemma_translated_edges(r: Rectangle, v: (Scalar, Scalar))
    ensures
        r.spec_translated(v).spec_left() == r.spec_left().spec_plus(v.0),
        r.spec_translated(v).spec_bottom() == r.spec_bottom().spec_plus(v.1),
        r.spec_translated(v).dimensions == r.dimensions,
{
}

} // verus!
