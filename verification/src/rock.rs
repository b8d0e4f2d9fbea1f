//! Rocks: obstacles that a bullet wears down.

use vstd::prelude::*;
use crate::collision::{names_of, Circle, CollisionFrame, FrameView, BULLET_LAYER};
use crate::math::Vector2;
use crate::object::Object;

verus! {

/// The radius of a rock, in thousandths of a unit.
pub const ROCK_RADIUS: u32 = 45_000;

/// The number of hits that a new rock withstands.
pub const ROCK_HP: u8 = 2;

/// The layers that wear a rock down.
pub open spec fn rock_threats() -> Seq<Seq<char>> {
    seq![BULLET_LAYER@]
}

/// A rock: where it lies and how many hits it still withstands.
#[derive(Clone, Copy, Debug, PartialEq, Eq, Structural)]
pub struct Rock {
    pub pos: Vector2,
    pub hp: u8,
}

impl Rock {
    /// The rock after a tick: a rock that still stands and collides with a
    /// bullet loses one hit point.
    pub open spec fn stepped(self, frame: FrameView) -> Rock {
        if frame.hits(rock_threats(), self.shape()) && self.hp > 0 {
            Rock { hp: (self.hp - 1) as u8, ..self }
        } else {
            self
        }
    }

    /// A new rock at `(x, y)`.
    pub open spec fn fresh(x: i32, y: i32) -> Rock {
        Rock { pos: Vector2 { x, y }, hp: ROCK_HP }
    }

    pub fn new(x: i32, y: i32) -> (rock: Rock)
        ensures
            rock == Rock::fresh(x, y),
    {
        Rock { pos: Vector2::new(x, y), hp: ROCK_HP }
    }

    /// Advances the rock by one tick.
    pub fn update(&mut self, collision_frame: &CollisionFrame)
        ensures
            *final(self) == old(self).stepped(collision_frame@),
    {
        let threats = vec![BULLET_LAYER];
        assert(names_of(threats@) =~= rock_threats());
        if collision_frame.check_collision(threats, self.get_shape()) && self.hp > 0 {
            self.hp -= 1;
        }
    }
}

/// A rock that stands occupies its circle; a rock worn down occupies nothing.
impl Object for Rock {
    open spec fn shape(&self) -> Circle {
        if self.hp > 0 {
            Circle { center: self.pos, radius: ROCK_RADIUS }
        } else {
            Circle::nowhere()
        }
    }

    fn get_shape(&self) -> (c: Circle) {
        if self.hp > 0 {
            Circle::new(self.pos, ROCK_RADIUS)
        } else {
            Circle::empty()
        }
    }
}

} // verus!
