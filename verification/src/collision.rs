//! Circles, the layers they are grouped in, and the frame of layers against
//! which one tick of the arena is resolved.

use vstd::prelude::*;
use crate::math::{direction, direction_of, Direction, Vector2, DIRECTION_SCALE};
use crate::object::Object;
use crate::text::str_eq;

verus! {

/// The distance after which a ray gives up, in thousandths of a unit.
pub const MAX_RAY_LENGTH: i64 = 1_000_000;

/// The width of the standard arena, in thousandths of a unit.
pub const ARENA_WIDTH: i32 = 1_280_000;

/// The height of the standard arena, in thousandths of a unit.
pub const ARENA_HEIGHT: i32 = 960_000;

/// The layer of the ships.
pub const SHIP_LAYER: &'static str = "ship";

/// The layer of the bullets in flight.
pub const BULLET_LAYER: &'static str = "bullet";

/// The layer of the rocks.
pub const ROCK_LAYER: &'static str = "rock";

/// What a ray reports when it leaves the arena.
pub const WALL: &'static str = "wall";

/// What a ray reports when it meets nothing within its maximum length.
pub const NOTHING: &'static str = "none";

/// A circle: a centre and a radius in thousandths of a unit.
#[derive(Clone, Copy, Debug, PartialEq, Eq, Structural)]
pub struct Circle {
    pub center: Vector2,
    pub radius: u32,
}

impl Circle {
    /// The circle of a body that takes no part in collisions.
    pub open spec fn nowhere() -> Circle {
        Circle { center: Vector2::origin(), radius: 0 }
    }

    pub fn new(center: Vector2, radius: u32) -> (c: Circle)
        ensures
            c == (Circle { center, radius }),
    {
        Circle { center, radius }
    }

    pub fn empty() -> (c: Circle)
        ensures
            c == Circle::nowhere(),
    {
        Circle { center: Vector2::zero(), radius: 0 }
    }
}

/// The square of the distance between two points.
pub open spec fn distance_squared(a: Vector2, b: Vector2) -> int {
    (a.x - b.x) * (a.x - b.x) + (a.y - b.y) * (a.y - b.y)
}

/// Two circles touch when their centres are no further apart than the sum of
/// their radii.
pub open spec fn circles_touch(a: Circle, b: Circle) -> bool {
    distance_squared(a.center, b.center) <= (a.radius + b.radius) * (a.radius + b.radius)
}

/// Two circles collide when they touch, neither is empty, and they are not
/// one and the same circle.
pub open spec fn circles_collide(a: Circle, b: Circle) -> bool {
    &&& a.radius != 0
    &&& b.radius != 0
    &&& a != b
    &&& circles_touch(a, b)
}

/// Some circle of the layer collides with `circle`.
pub open spec fn layer_collides(shapes: Seq<Circle>, circle: Circle) -> bool {
    exists|i: int| 0 <= i < shapes.len() && circles_collide(#[trigger] shapes[i], circle)
}

/// The shapes of a sequence of bodies, in order.
pub open spec fn shapes_of<T: Object>(objects: Seq<T>) -> Seq<Circle> {
    Seq::new(objects.len(), |i: int| objects[i].shape())
}

/// The names of a query, as sequences of characters.
pub open spec fn names_of(layers: Seq<&str>) -> Seq<Seq<char>> {
    Seq::new(layers.len(), |i: int| layers[i]@)
}

/// The layers that a list of named layers stands for. Where a name occurs
/// more than once, its last layer counts.
pub open spec fn layer_map(entries: Seq<(&'static str, CollisionLayer)>) -> Map<
    Seq<char>,
    Seq<Circle>,
>
    decreases entries.len(),
{
    if entries.len() == 0 {
        Map::empty()
    } else {
        layer_map(entries.drop_last()).insert(entries.last().0@, entries.last().1@)
    }
}

/// Decides [`circles_touch`].
pub fn circles_touching(a: Circle, b: Circle) -> (hit: bool)
    ensures
        hit == circles_touch(a, b),
{
    let dx: i128 = a.center.x as i128 - b.center.x as i128;
    let dy: i128 = a.center.y as i128 - b.center.y as i128;
    let reach: i128 = a.radius as i128 + b.radius as i128;
    assert(0 <= dx * dx <= 0x1_0000_0000 * 0x1_0000_0000) by (nonlinear_arith)
        requires
            -0x1_0000_0000 <= dx <= 0x1_0000_0000,
    ;
    assert(0 <= dy * dy <= 0x1_0000_0000 * 0x1_0000_0000) by (nonlinear_arith)
        requires
            -0x1_0000_0000 <= dy <= 0x1_0000_0000,
    ;
    assert(0 <= reach * reach <= 0x2_0000_0000 * 0x2_0000_0000) by (nonlinear_arith)
        requires
            0 <= reach <= 0x2_0000_0000,
    ;
    dx * dx + dy * dy <= reach * reach
}

/// Tells whether two circles collide. An empty circle collides with nothing,
/// and no circle collides with itself.
pub fn check_collision_circles(circle1: Circle, circle2: Circle) -> (hit: bool)
    ensures
        hit == circles_collide(circle1, circle2),
{
    if circle1.radius == 0 || circle2.radius == 0 || circle1 == circle2 {
        false
    } else {
        circles_touching(circle1, circle2)
    }
}

/// The circles of all live bodies of one kind, as they stand in one tick.
pub struct CollisionLayer {
    shapes: Vec<Circle>,
}

impl View for CollisionLayer {
    type V = Seq<Circle>;

    closed spec fn view(&self) -> Seq<Circle> {
        self.shapes@
    }
}

impl CollisionLayer {
    /// Collects the shapes of the bodies in `collection`.
    pub fn from<T: Object>(collection: &[T]) -> (layer: CollisionLayer)
        ensures
            layer@ == shapes_of(collection@),
    {
        let mut shapes: Vec<Circle> = Vec::new();
        let mut i: usize = 0;
        while i < collection.len()
            invariant
                i <= collection@.len(),
                shapes@ == shapes_of(collection@.take(i as int)),
            decreases collection@.len() - i,
        {
            shapes.push(collection[i].get_shape());
            i += 1;
            assert(shapes@ =~= shapes_of(collection@.take(i as int)));
        }
        assert(collection@.take(i as int) =~= collection@);
        CollisionLayer { shapes }
    }

    /// Tells whether `circle` collides with a circle of the layer.
    pub fn check_collision(&self, circle: Circle) -> (hit: bool)
        ensures
            hit == layer_collides(self@, circle),
    {
        let mut i: usize = 0;
        while i < self.shapes.len()
            invariant
                i <= self.shapes@.len(),
                forall|j: int| 0 <= j < i ==> !circles_collide(#[trigger] self.shapes@[j], circle),
            decreases self.shapes@.len() - i,
        {
            if check_collision_circles(self.shapes[i], circle) {
                return true;
            }
            i += 1;
        }
        false
    }
}

/// Where the probe of a ray stands after `k` steps of its own radius from
/// `pos`. Each step is rounded, and held back at the edge of what a
/// coordinate can represent, on its own.
pub open spec fn probe_at(pos: Vector2, dir: Direction, radius: u32, k: nat) -> Vector2
    decreases k,
{
    if k == 0 {
        pos
    } else {
        probe_at(pos.moved(dir, radius as int), dir, radius, (k - 1) as nat)
    }
}

/// What a frame holds: its layers by name, and the size of the arena.
pub struct FrameView {
    pub layers: Map<Seq<char>, Seq<Circle>>,
    pub width: int,
    pub height: int,
}

impl FrameView {
    /// The layer called `name` exists and collides with `circle`.
    pub open spec fn layer_hits(self, name: Seq<char>, circle: Circle) -> bool {
        self.layers.contains_key(name) && layer_collides(self.layers[name], circle)
    }

    /// Some layer called for in `names` collides with `circle`. A name that
    /// the frame does not know contributes nothing.
    pub open spec fn hits(self, names: Seq<Seq<char>>, circle: Circle) -> bool {
        exists|i: int| 0 <= i < names.len() && self.layer_hits(#[trigger] names[i], circle)
    }

    /// The name under which `circle` is hit: of the names whose layers
    /// collide with it, the one that stands last in `names`.
    pub open spec fn first_hit(self, names: Seq<Seq<char>>, circle: Circle) -> Option<Seq<char>>
        decreases names.len(),
    {
        if names.len() == 0 {
            None
        } else if self.layer_hits(names.last(), circle) {
            Some(names.last())
        } else {
            self.first_hit(names.drop_last(), circle)
        }
    }

    /// The point lies inside the arena. The left and top edges belong to the
    /// arena, the right and bottom edges do not.
    pub open spec fn contains(self, p: Vector2) -> bool {
        0 <= p.x < self.width && 0 <= p.y < self.height
    }

    /// The number of times that the probe of a ray moves on before the ray
    /// ends: see [`FrameView::cast`].
    pub open spec fn marches(
        self,
        names: Seq<Seq<char>>,
        pos: Vector2,
        dir: Direction,
        radius: u32,
        dist: int,
    ) -> nat
        decreases
            (if dist > MAX_RAY_LENGTH {
                0
            } else {
                MAX_RAY_LENGTH - dist + 1
            }),
        when radius > 0
    {
        if self.first_hit(names, Circle { center: pos, radius }).is_some() || dist > MAX_RAY_LENGTH
            || !self.contains(pos) {
            0
        } else {
            1 + self.marches(names, pos.moved(dir, radius as int), dir, radius, dist + radius)
        }
    }

    /// What a ray reports that has already travelled `dist` and whose probe,
    /// a circle of the given radius, stands at `pos`. The probe is tested
    /// where it stands; a hit reports the layer and the distance to the far
    /// side of the probe. Without a hit the ray ends with `"none"` once it
    /// has travelled more than [`MAX_RAY_LENGTH`], and with `"wall"` once the
    /// probe's centre has left the arena; otherwise the probe moves on by its
    /// own radius.
    pub open spec fn cast(
        self,
        names: Seq<Seq<char>>,
        pos: Vector2,
        dir: Direction,
        radius: u32,
        dist: int,
    ) -> (Seq<char>, int)
        decreases
            (if dist > MAX_RAY_LENGTH {
                0
            } else {
                MAX_RAY_LENGTH - dist + 1
            }),
        when radius > 0
    {
        match self.first_hit(names, Circle { center: pos, radius }) {
            Some(name) => (name, dist + radius),
            None => if dist > MAX_RAY_LENGTH {
                (NOTHING@, dist)
            } else if !self.contains(pos) {
                (WALL@, dist)
            } else {
                self.cast(names, pos.moved(dir, radius as int), dir, radius, dist + radius)
            },
        }
    }
}

/// A hit is found exactly when some named layer collides, and the name found
/// is one that was asked for and whose layer collides.
pub proof fn lemma_first_hit(frame: FrameView, names: Seq<Seq<char>>, circle: Circle)
    ensures
        frame.first_hit(names, circle).is_some() == frame.hits(names, circle),
        frame.first_hit(names, circle) matches Some(name) ==> names.contains(name)
            && frame.layer_hits(name, circle),
    decreases names.len(),
{
    if names.len() == 0 {
    } else if frame.layer_hits(names.last(), circle) {
        assert(frame.layer_hits(names[names.len() - 1], circle));
        assert(names[names.len() - 1] == names.last());
    } else {
        let rest = names.drop_last();
        lemma_first_hit(frame, rest, circle);
        if frame.hits(rest, circle) {
            let i = choose|i: int| 0 <= i < rest.len() && frame.layer_hits(#[trigger] rest[i], circle);
            assert(frame.layer_hits(names[i], circle));
        }
        if frame.hits(names, circle) {
            let i = choose|i: int| 0 <= i < names.len() && frame.layer_hits(#[trigger] names[i], circle);
            assert(i < names.len() - 1);
            assert(frame.layer_hits(rest[i], circle));
        }
        if let Some(name) = frame.first_hit(rest, circle) {
            let i = choose|i: int| 0 <= i < rest.len() && rest[i] == name;
            assert(names[i] == name);
        }
    }
}

/// Where several named layers collide with a circle at once, the name that
/// stands last in the query is the one reported.
pub proof fn lemma_later_name_wins(
    frame: FrameView,
    names: Seq<Seq<char>>,
    circle: Circle,
    i: int,
)
    requires
        0 <= i < names.len(),
        frame.layer_hits(names[i], circle),
        forall|j: int| i < j < names.len() ==> !frame.layer_hits(#[trigger] names[j], circle),
    ensures
        frame.first_hit(names, circle) == Some(names[i]),
    decreases names.len(),
{
    if i < names.len() - 1 {
        let rest = names.drop_last();
        assert(!frame.layer_hits(names[names.len() - 1], circle));
        assert forall|j: int| i < j < rest.len() implies !frame.layer_hits(
            #[trigger] rest[j],
            circle,
        ) by {
            assert(rest[j] == names[j]);
        }
        lemma_later_name_wins(frame, rest, circle, i);
    }
}

/// The entry that stands last under its name is the one the map holds.
proof fn lemma_layer_map_last_wins(entries: Seq<(&'static str, CollisionLayer)>, i: int)
    requires
        0 <= i < entries.len(),
        forall|j: int| i < j < entries.len() ==> (#[trigger] entries[j]).0@ != entries[i].0@,
    ensures
        layer_map(entries).contains_key(entries[i].0@),
        layer_map(entries)[entries[i].0@] == entries[i].1@,
    decreases entries.len(),
{
    if i < entries.len() - 1 {
        let rest = entries.drop_last();
        assert(entries[entries.len() - 1].0@ != entries[i].0@);
        assert forall|j: int| i < j < rest.len() implies (#[trigger] rest[j]).0@ != rest[i].0@ by {
            assert(rest[j] == entries[j]);
        }
        lemma_layer_map_last_wins(rest, i);
    }
}

/// A name that no entry carries is not in the map.
proof fn lemma_layer_map_absent(entries: Seq<(&'static str, CollisionLayer)>, name: Seq<char>)
    requires
        forall|j: int| 0 <= j < entries.len() ==> (#[trigger] entries[j]).0@ != name,
    ensures
        !layer_map(entries).contains_key(name),
    decreases entries.len(),
{
    if entries.len() > 0 {
        let rest = entries.drop_last();
        assert(entries[entries.len() - 1].0@ != name);
        assert forall|j: int| 0 <= j < rest.len() implies (#[trigger] rest[j]).0@ != name by {
            assert(rest[j] == entries[j]);
        }
        lemma_layer_map_absent(rest, name);
    }
}

/// The layers of one tick, by name, together with the bounds of the arena.
/// A frame is built once per tick and only read afterwards.
pub struct CollisionFrame {
    layers: Vec<(&'static str, CollisionLayer)>,
    width: i32,
    height: i32,
}

impl View for CollisionFrame {
    type V = FrameView;

    closed spec fn view(&self) -> FrameView {
        FrameView {
            layers: layer_map(self.layers@),
            width: self.width as int,
            height: self.height as int,
        }
    }
}

impl CollisionFrame {
    /// A frame of the given layers in the standard arena.
    pub fn new(layers: Vec<(&'static str, CollisionLayer)>) -> (frame: CollisionFrame)
        ensures
            frame@ == (FrameView {
                layers: layer_map(layers@),
                width: ARENA_WIDTH as int,
                height: ARENA_HEIGHT as int,
            }),
    {
        CollisionFrame { layers, width: ARENA_WIDTH, height: ARENA_HEIGHT }
    }

    /// A frame of the given layers in an arena of the given size.
    pub fn within(layers: Vec<(&'static str, CollisionLayer)>, width: i32, height: i32) -> (frame:
        CollisionFrame)
        ensures
            frame@ == (FrameView {
                layers: layer_map(layers@),
                width: width as int,
                height: height as int,
            }),
    {
        CollisionFrame { layers, width, height }
    }

    /// Looks a layer up by name.
    fn find(&self, name: &str) -> (found: Option<usize>)
        ensures
            match found {
                Some(i) => {
                    &&& i < self.layers@.len()
                    &&& self@.layers.contains_key(name@)
                    &&& self@.layers[name@] == self.layers@[i as int].1@
                },
                None => !self@.layers.contains_key(name@),
            },
    {
        let mut i: usize = self.layers.len();
        while i > 0
            invariant
                i <= self.layers@.len(),
                forall|j: int| i <= j < self.layers@.len() ==> (#[trigger] self.layers@[j]).0@ != name@,
            decreases i,
        {
            i -= 1;
            if str_eq(self.layers[i].0, name) {
                proof {
                    lemma_layer_map_last_wins(self.layers@, i as int);
                }
                return Some(i);
            }
        }
        proof {
            lemma_layer_map_absent(self.layers@, name@);
        }
        None
    }

    /// Finds the position in `layers` of the name under which `circle` is hit.
    fn locate_hit(&self, layers: &Vec<&str>, circle: Circle) -> (found: Option<usize>)
        ensures
            match found {
                Some(k) => k < layers@.len() && self@.first_hit(names_of(layers@), circle) == Some(
                    layers@[k as int]@,
                ),
                None => self@.first_hit(names_of(layers@), circle).is_none(),
            },
    {
        let ghost names = names_of(layers@);
        let mut k: usize = layers.len();
        assert(names.take(k as int) =~= names);
        while k > 0
            invariant
                k <= layers@.len(),
                names == names_of(layers@),
                self@.first_hit(names, circle) == self@.first_hit(names.take(k as int), circle),
            decreases k,
        {
            assert(names.take(k as int).drop_last() =~= names.take(k as int - 1));
            assert(names.take(k as int).last() == layers@[k as int - 1]@);
            k -= 1;
            match self.find(layers[k]) {
                Some(i) => {
                    if self.layers[i].1.check_collision(circle) {
                        return Some(k);
                    }
                },
                None => {},
            }
        }
        assert(names.take(0).len() == 0);
        None
    }

    /// Tells whether `circle` collides with a circle of any of the named
    /// layers. A name that the frame does not know contributes nothing.
    pub fn check_collision(&self, layers: Vec<&str>, circle: Circle) -> (hit: bool)
        ensures
            hit == self@.hits(names_of(layers@), circle),
    {
        proof {
            lemma_first_hit(self@, names_of(layers@), circle);
        }
        self.locate_hit(&layers, circle).is_some()
    }

    /// Casts a ray from `pos` along the heading `rotation` by marching a
    /// probe circle of the given radius in steps of that radius, and reports
    /// what the ray met and how far it had travelled: see [`FrameView::cast`].
    pub fn raycast(&self, layers: Vec<&str>, pos: Vector2, rotation: i32, radius: u32) -> (hit: (
        String,
        i64,
    ))
        requires
            radius > 0,
        ensures
            hit.0@ == self@.cast(
                names_of(layers@),
                pos,
                direction_of(rotation as int),
                radius,
                0,
            ).0,
            hit.1 == self@.cast(names_of(layers@), pos, direction_of(rotation as int), radius, 0).1,
            0 <= hit.1 <= MAX_RAY_LENGTH + 2 * radius,
    {
        proof {
            lemma_cast_is_bounded(
                self@,
                names_of(layers@),
                pos,
                direction_of(rotation as int),
                radius,
                0,
            );
        }
        let dir = direction(rotation);
        let ghost names = names_of(layers@);
        let mut probe = pos;
        let mut dist: i64 = 0;
        loop
            invariant
                radius > 0,
                names == names_of(layers@),
                dir == direction_of(rotation as int),
                0 <= dist <= MAX_RAY_LENGTH + radius,
                self@.cast(names, pos, dir, radius, 0) == self@.cast(names, probe, dir, radius, dist as int),
            decreases MAX_RAY_LENGTH + radius - dist,
        {
            match self.locate_hit(&layers, Circle { center: probe, radius }) {
                Some(k) => {
                    return (layers[k].to_owned(), dist + radius as i64);
                },
                None => {},
            }
            if dist > MAX_RAY_LENGTH {
                return (NOTHING.to_owned(), dist);
            }
            if !(0 <= probe.x && probe.x < self.width && 0 <= probe.y && probe.y < self.height) {
                return (WALL.to_owned(), dist);
            }
            probe = probe.advance(dir, radius as i64);
            dist = dist + radius as i64;
        }
    }
}

/// An empty circle collides with nothing, and no circle collides with
/// itself.
pub proof fn lemma_no_degenerate_or_self_collision(a: Circle, b: Circle)
    requires
        a.radius == 0 || b.radius == 0 || a == b,
    ensures
        !circles_collide(a, b),
{
}

/// In no frame and under no names does an empty circle collide.
pub proof fn lemma_empty_circle_hits_nothing(
    frame: FrameView,
    names: Seq<Seq<char>>,
    circle: Circle,
)
    requires
        circle.radius == 0,
    ensures
        !frame.hits(names, circle),
        frame.first_hit(names, circle).is_none(),
{
    lemma_first_hit(frame, names, circle);
}

/// A body is never hit by its own circle: whether a layer collides with a
/// circle does not depend on whether the layer holds that same circle.
pub proof fn lemma_own_shape_is_ignored(shapes: Seq<Circle>, circle: Circle)
    ensures
        layer_collides(shapes.push(circle), circle) == layer_collides(shapes, circle),
{
    let more = shapes.push(circle);
    if layer_collides(shapes, circle) {
        let i = choose|i: int| 0 <= i < shapes.len() && circles_collide(#[trigger] shapes[i], circle);
        assert(circles_collide(more[i], circle));
    }
    if layer_collides(more, circle) {
        let i = choose|i: int| 0 <= i < more.len() && circles_collide(#[trigger] more[i], circle);
        assert(i < shapes.len());
        assert(circles_collide(shapes[i], circle));
    }
}

/// A ray ends after a bounded number of steps. Where the ray has travelled
/// `dist` and its probe then moves on `n` more times, it reports the
/// distance `dist + n * radius` for a wall or for nothing, and one radius
/// more for a hit; the probe moves on only while the distance travelled is
/// at most [`MAX_RAY_LENGTH`], so that from the start `n` is at most
/// `MAX_RAY_LENGTH / radius + 1`. What it reports is a name that was asked
/// for, `"wall"` or `"none"`.
pub proof fn lemma_cast_is_bounded(
    frame: FrameView,
    names: Seq<Seq<char>>,
    pos: Vector2,
    dir: Direction,
    radius: u32,
    dist: int,
)
    requires
        radius > 0,
        0 <= dist,
    ensures
        ({
            let n = frame.marches(names, pos, dir, radius, dist);
            let ray = frame.cast(names, pos, dir, radius, dist);
            &&& dist > MAX_RAY_LENGTH ==> n == 0
            &&& dist <= MAX_RAY_LENGTH ==> dist + n * radius <= MAX_RAY_LENGTH + radius
            &&& ray.0 == NOTHING@ || ray.0 == WALL@ || names.contains(ray.0)
            &&& ray.1 == dist + n * radius || ray.1 == dist + n * radius + radius
        }),
    decreases
        (if dist > MAX_RAY_LENGTH {
            0
        } else {
            MAX_RAY_LENGTH - dist + 1
        }),
{
    let probe = Circle { center: pos, radius };
    lemma_first_hit(frame, names, probe);
    if frame.first_hit(names, probe).is_none() && dist <= MAX_RAY_LENGTH && frame.contains(pos) {
        let next = pos.moved(dir, radius as int);
        let n = frame.marches(names, next, dir, radius, dist + radius);
        assert((1 + n) * radius == radius + n * radius) by (nonlinear_arith);
        lemma_cast_is_bounded(frame, names, next, dir, radius, dist + radius);
    } else {
        assert(frame.marches(names, pos, dir, radius, dist) == 0);
        assert(0 * radius == 0);
    }
}

/// A ray ends at the first place where something happens. Where its probe
/// moves on `n` times, then at none of the `n` places that it leaves was it
/// hit, had the ray travelled more than [`MAX_RAY_LENGTH`], or had the probe
/// left the arena. At the place where it ends, a hit is reported before
/// anything else, with the distance to the far side of the probe; without a
/// hit the distance travelled beyond the maximum is reported as `"none"`,
/// and otherwise the probe has left the arena and `"wall"` is reported.
pub proof fn lemma_cast_ends_at_first_event(
    frame: FrameView,
    names: Seq<Seq<char>>,
    pos: Vector2,
    dir: Direction,
    radius: u32,
    dist: int,
)
    requires
        radius > 0,
        0 <= dist,
    ensures
        ({
            let n = frame.marches(names, pos, dir, radius, dist);
            let end = probe_at(pos, dir, radius, n);
            let ray = frame.cast(names, pos, dir, radius, dist);
            &&& forall|j: nat|
                j < n ==> {
                    let probe = #[trigger] probe_at(pos, dir, radius, j);
                    &&& frame.first_hit(names, Circle { center: probe, radius }).is_none()
                    &&& dist + j * radius <= MAX_RAY_LENGTH
                    &&& frame.contains(probe)
                }
            &&& match frame.first_hit(names, Circle { center: end, radius }) {
                Some(name) => ray == (name, dist + n * radius + radius),
                None => if dist + n * radius > MAX_RAY_LENGTH {
                    ray == (NOTHING@, dist + n * radius)
                } else {
                    !frame.contains(end) && ray == (WALL@, dist + n * radius)
                },
            }
        }),
    decreases
        (if dist > MAX_RAY_LENGTH {
            0
        } else {
            MAX_RAY_LENGTH - dist + 1
        }),
{
    let n = frame.marches(names, pos, dir, radius, dist);
    let probe = Circle { center: pos, radius };
    if frame.first_hit(names, probe).is_none() && dist <= MAX_RAY_LENGTH && frame.contains(pos) {
        let next = pos.moved(dir, radius as int);
        let rest = frame.marches(names, next, dir, radius, dist + radius);
        lemma_cast_ends_at_first_event(frame, names, next, dir, radius, dist + radius);
        assert(n == rest + 1);
        assert(probe_at(pos, dir, radius, n) == probe_at(next, dir, radius, rest));
        assert((rest + 1) * radius == rest * radius + radius) by (nonlinear_arith);
        assert forall|j: nat| j < n implies ({
            let probe = #[trigger] probe_at(pos, dir, radius, j);
            &&& frame.first_hit(names, Circle { center: probe, radius }).is_none()
            &&& dist + j * radius <= MAX_RAY_LENGTH
            &&& frame.contains(probe)
        }) by {
            if j > 0 {
                let i = (j - 1) as nat;
                assert(probe_at(pos, dir, radius, j) == probe_at(next, dir, radius, i));
                assert((i + 1) * radius == i * radius + radius) by (nonlinear_arith);
            } else {
                assert(0 * radius == 0);
            }
        }
    } else {
        assert(n == 0);
        assert(0 * radius == 0);
    }
}

/// The direction of heading 0: along the positive x axis.
pub open spec fn east() -> Direction {
    Direction { x: DIRECTION_SCALE, y: 0 }
}

/// Every circle of the named layers lies on the line through `pos` along
/// the x axis, and none lies wholly behind `pos`.
pub open spec fn lies_ahead_on_the_axis(frame: FrameView, names: Seq<Seq<char>>, pos: Vector2) -> bool {
    forall|i: int, j: int|
        0 <= i < names.len() && frame.layers.contains_key(names[i]) && 0 <= j
            < frame.layers[names[i]].len() ==> {
            let shape = #[trigger] frame.layers[names[i]][j];
            shape.center.y == pos.y && shape.center.x + shape.radius >= pos.x
        }
}

/// The ray from `pos` along the x axis ends with a hit.
pub open spec fn ends_with_a_hit(
    frame: FrameView,
    names: Seq<Seq<char>>,
    pos: Vector2,
    radius: u32,
) -> bool {
    let n = frame.marches(names, pos, east(), radius, 0);
    frame.first_hit(names, Circle { center: probe_at(pos, east(), radius, n), radius }).is_some()
}

/// Along the x axis, and short of the edge of what a coordinate can
/// represent, every step of a probe is exact.
proof fn lemma_probe_on_the_axis(pos: Vector2, radius: u32, k: nat)
    requires
        pos.x + k * radius <= i32::MAX,
    ensures
        probe_at(pos, east(), radius, k) == (Vector2 { x: (pos.x + k * radius) as i32, y: pos.y }),
    decreases k,
{
    if k == 0 {
        assert(0 * radius == 0);
    } else {
        let rest = (k - 1) as nat;
        assert(k * radius == rest * radius + radius) by (nonlinear_arith)
            requires
                k == rest + 1,
        ;
        assert(rest * radius >= 0) by (nonlinear_arith)
            requires
                rest >= 0,
                radius >= 0,
        ;
        crate::math::lemma_along_full_scale(radius as int);
        let next = pos.moved(east(), radius as int);
        assert(next == (Vector2 { x: (pos.x + radius) as i32, y: pos.y }));
        lemma_probe_on_the_axis(next, radius, rest);
    }
}

/// Two circles on one line along the x axis touch exactly when their
/// centres are no further apart than the sum of their radii.
proof fn lemma_touch_on_a_line(a: Circle, b: Circle)
    requires
        a.center.y == b.center.y,
    ensures
        circles_touch(a, b) == (-(a.radius + b.radius) <= a.center.x - b.center.x <= a.radius
            + b.radius),
{
    let dx = a.center.x - b.center.x;
    let reach = a.radius + b.radius;
    assert((dx * dx <= reach * reach) == (-reach <= dx <= reach)) by (nonlinear_arith)
        requires
            reach >= 0,
    ;
    assert((a.center.y - b.center.y) * (a.center.y - b.center.y) == 0);
}

/// A circle of a named layer that collides with a probe is a hit.
proof fn lemma_collision_is_a_hit(
    frame: FrameView,
    names: Seq<Seq<char>>,
    i: int,
    j: int,
    probe: Circle,
)
    requires
        0 <= i < names.len(),
        frame.layers.contains_key(names[i]),
        0 <= j < frame.layers[names[i]].len(),
        circles_collide(frame.layers[names[i]][j], probe),
    ensures
        frame.first_hit(names, probe).is_some(),
{
    lemma_first_hit(frame, names, probe);
    assert(frame.layer_hits(names[i], probe));
}

/// Along the x axis a wider probe reports a hit no more than one step of
/// the narrower probe sooner. This holds where every circle of the named
/// layers lies on the line of the ray and not wholly behind its start, where
/// the ray stays short of the edge of what a coordinate can represent, and
/// where both rays end with a hit. It does not hold of circles beside the
/// line of the ray, which a wider probe can meet much sooner.
pub proof fn lemma_wider_probe_on_the_axis(
    frame: FrameView,
    names: Seq<Seq<char>>,
    pos: Vector2,
    narrow: u32,
    wide: u32,
)
    requires
        0 < narrow <= wide,
        pos.x + MAX_RAY_LENGTH + 2 * wide <= i32::MAX,
        lies_ahead_on_the_axis(frame, names, pos),
        ends_with_a_hit(frame, names, pos, narrow),
        ends_with_a_hit(frame, names, pos, wide),
    ensures
        frame.cast(names, pos, east(), wide, 0).1 >= frame.cast(names, pos, east(), narrow, 0).1
            - narrow,
{
    let n1 = frame.marches(names, pos, east(), narrow, 0);
    let n2 = frame.marches(names, pos, east(), wide, 0);
    lemma_cast_ends_at_first_event(frame, names, pos, east(), narrow, 0);
    lemma_cast_ends_at_first_event(frame, names, pos, east(), wide, 0);
    lemma_cast_is_bounded(frame, names, pos, east(), narrow, 0);
    lemma_cast_is_bounded(frame, names, pos, east(), wide, 0);
    let d1 = frame.cast(names, pos, east(), narrow, 0).1;
    let d2 = frame.cast(names, pos, east(), wide, 0).1;
    assert(d1 == n1 * narrow + narrow);
    assert(d2 == n2 * wide + wide);
    assert(n2 * wide >= 0) by (nonlinear_arith)
        requires
            n2 >= 0,
            wide >= 0,
    ;
    // The circle that the wide probe hits where its ray ends.
    lemma_probe_on_the_axis(pos, wide, n2);
    let end = Circle { center: probe_at(pos, east(), wide, n2), radius: wide };
    lemma_first_hit(frame, names, end);
    let name = frame.first_hit(names, end)->0;
    let i = choose|i: int| 0 <= i < names.len() && names[i] == name;
    let layer = frame.layers[name];
    let j = choose|j: int| 0 <= j < layer.len() && circles_collide(#[trigger] layer[j], end);
    let target = frame.layers[names[i]][j];
    lemma_touch_on_a_line(target, end);
    // The near side of that circle, seen from the start of the ray.
    let near = target.center.x - target.radius - pos.x;
    assert(near <= d2);
    if n1 * narrow > d2 {
        assert(n1 >= 2) by (nonlinear_arith)
            requires
                n1 * narrow > d2,
                d2 >= wide,
                wide >= narrow,
                narrow > 0,
                n1 >= 0,
        ;
        // The first step at which the narrow probe reaches the circle.
        let k: nat = if near <= narrow {
            0
        } else {
            ((near - 1) / (narrow as int)) as nat
        };
        if near > narrow {
            vstd::arithmetic::div_mod::lemma_fundamental_div_mod(near - 1, narrow as int);
            vstd::arithmetic::div_mod::lemma_mod_bound(near - 1, narrow as int);
            vstd::arithmetic::div_mod::lemma_div_pos_is_pos(near - 1, narrow as int);
            assert(k * narrow + narrow >= near && k * narrow < near && k >= 1) by (nonlinear_arith)
                requires
                    near - 1 == narrow * ((near - 1) / (narrow as int)) + (near - 1) % (
                    narrow as int),
                    0 <= (near - 1) % (narrow as int) < narrow,
                    k == (near - 1) / (narrow as int),
                    near > narrow,
                    narrow > 0,
            ;
        } else {
            assert(0 * narrow == 0);
        }
        assert(k * narrow + narrow >= near);
        assert(k <= n1 - 2 || (k == n1 - 1 && k >= 1)) by (nonlinear_arith)
            requires
                k * narrow < near || k == 0,
                near <= d2,
                n1 * narrow > d2,
                n1 >= 2,
                narrow > 0,
                k >= 0,
        ;
        assert(k * narrow <= n1 * narrow) by (nonlinear_arith)
            requires
                0 <= k <= n1,
                narrow > 0,
        ;
        lemma_probe_on_the_axis(pos, narrow, k);
        let probe = Circle { center: probe_at(pos, east(), narrow, k), radius: narrow };
        lemma_touch_on_a_line(target, probe);
        assert(circles_touch(target, probe));
        if target == probe {
            // The circle is the probe at the start of the ray; one step on
            // the probe lies within it.
            assert(k == 0);
            let step: nat = 1;
            assert(step * narrow == narrow) by (nonlinear_arith)
                requires
                    step == 1,
            ;
            lemma_probe_on_the_axis(pos, narrow, step);
            let second = Circle { center: probe_at(pos, east(), narrow, step), radius: narrow };
            lemma_touch_on_a_line(target, second);
            lemma_collision_is_a_hit(frame, names, i, j, second);
            assert(false);
        } else {
            lemma_collision_is_a_hit(frame, names, i, j, probe);
            assert(false);
        }
    }
}

} // verus!
