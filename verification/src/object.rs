//! What every body in the arena has in common.

use std::collections::VecDeque;
use vstd::prelude::*;
use crate::collision::{check_collision_circles, circles_collide, Circle};

verus! {

/// A body that occupies a circle of the arena.
pub trait Object {
    /// The circle that the body occupies now.
    spec fn shape(&self) -> Circle;

    fn get_shape(&self) -> (c: Circle)
        ensures
            c == self.shape(),
    ;
}

/// A circle occupies itself.
impl Object for Circle {
    open spec fn shape(&self) -> Circle {
        *self
    }

    fn get_shape(&self) -> (c: Circle) {
        *self
    }
}

/// A collection of bodies occupies no place of its own: its bodies do.
impl<T: Object> Object for Vec<T> {
    open spec fn shape(&self) -> Circle {
        Circle::nowhere()
    }

    fn get_shape(&self) -> (c: Circle) {
        Circle::empty()
    }
}

/// A queue of bodies occupies no place of its own: its bodies do.
impl<T: Object> Object for VecDeque<T> {
    open spec fn shape(&self) -> Circle {
        Circle::nowhere()
    }

    fn get_shape(&self) -> (c: Circle) {
        Circle::empty()
    }
}

/// Tells whether two bodies collide. A body that occupies nothing collides
/// with nothing, and no body collides with a body that occupies the very
/// same circle.
pub fn is_colliding<A: Object, B: Object>(this: &A, other: &B) -> (hit: bool)
    ensures
        hit == circles_collide(this.shape(), other.shape()),
{
    check_collision_circles(this.get_shape(), other.get_shape())
}

/// Tells whether any body in `objects` collides with `other`.
pub fn any_colliding<T: Object, B: Object>(objects: &[T], other: &B) -> (hit: bool)
    ensures
        hit == exists|i: int|
            0 <= i < objects@.len() && circles_collide(
                (#[trigger] objects@[i]).shape(),
                other.shape(),
            ),
{
    let target = other.get_shape();
    let mut i: usize = 0;
    while i < objects.len()
        invariant
            i <= objects@.len(),
            target == other.shape(),
            forall|j: int| 0 <= j < i ==> !circles_collide((#[trigger] objects@[j]).shape(), target),
        decreases objects@.len() - i,
    {
        if check_collision_circles(objects[i].get_shape(), target) {
            return true;
        }
        i += 1;
    }
    false
}

} // verus!
