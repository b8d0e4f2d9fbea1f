//! Ships: the state machine that carries out the actions of a control
//! program, one tick at a time.

use vstd::prelude::*;
use crate::bullet::{BulletPool, PoolExhausted, PoolView};
use crate::collision::{
    circles_collide, layer_collides, names_of, Circle, CollisionFrame, FrameView, BULLET_LAYER,
    NOTHING, ROCK_LAYER, SHIP_LAYER,
};
use crate::math::{clamp_coord, direction, direction_of, saturate, Vector2};
use crate::object::Object;
use self::api::{APIRequest, ActionChannel, ChannelView, Context};

pub mod api;

verus! {

/// The speed of a moving ship, in units per second.
pub const MOVE_SPEED: u32 = 100;

/// The speed of a turning ship, in degrees per second.
pub const TURN_SPEED: u32 = 360;

/// How far in front of a ship its bullets start and its ray begins, in
/// thousandths of a unit.
pub const SHOOT_OFFSET: i64 = 40_100;

/// How long a shot keeps a ship busy, in milliseconds.
pub const SHOOT_COOLDOWN: u32 = 1000;

/// The radius of a ship, in thousandths of a unit.
pub const SHIP_RADIUS: u32 = 20_000;

/// The radius of the probe with which a ship senses, in thousandths of a
/// unit.
pub const SENSOR_RADIUS: u32 = 20_000;

/// The layers that destroy a ship.
pub open spec fn ship_threats() -> Seq<Seq<char>> {
    seq![BULLET_LAYER@, ROCK_LAYER@]
}

/// The layers that a ship senses. Where both are met at once, the rock is
/// reported.
pub open spec fn ship_sights() -> Seq<Seq<char>> {
    seq![SHIP_LAYER@, ROCK_LAYER@]
}

/// As much of `amount` as a budget allows in one tick, with its sign.
pub open spec fn limited(amount: int, budget: int) -> int {
    if amount > budget {
        budget
    } else if amount < -budget {
        -budget
    } else {
        amount
    }
}

/// What a ship is doing. `Moving` and `Turning` hold what is left of the
/// distance or angle, `Shooting` what is left of the cooldown.
#[derive(Clone, Copy, Debug, PartialEq, Eq, Structural)]
pub enum State {
    Destroyed,
    Waiting,
    Moving(i32),
    Turning(i32),
    Shooting(u32),
}

impl State {
    /// The state in which a ship takes up a request.
    pub open spec fn of(req: APIRequest) -> State {
        match req {
            APIRequest::Move(dist) => State::Moving(dist),
            APIRequest::Turn(dist) => State::Turning(dist),
            APIRequest::Shoot => State::Shooting(SHOOT_COOLDOWN),
        }
    }

    /// The ship is carrying out an action.
    pub open spec fn is_busy(self) -> bool {
        self is Moving || self is Turning || self is Shooting
    }

    pub fn from_req(req: APIRequest) -> (state: State)
        ensures
            state == State::of(req),
    {
        match req {
            APIRequest::Move(dist) => State::Moving(dist),
            APIRequest::Turn(dist) => State::Turning(dist),
            APIRequest::Shoot => State::Shooting(SHOOT_COOLDOWN),
        }
    }
}

/// What a ship last sensed: what its ray met, how far away, and where the
/// ship stood.
pub struct ShipHandle {
    raycast: String,
    raycast_dist: i64,
    pos: Vector2,
}

/// What a [`ShipHandle`] holds.
pub struct HandleView {
    pub raycast: Seq<char>,
    pub raycast_dist: int,
    pub pos: Vector2,
}

impl View for ShipHandle {
    type V = HandleView;

    closed spec fn view(&self) -> HandleView {
        HandleView { raycast: self.raycast@, raycast_dist: self.raycast_dist as int, pos: self.pos }
    }
}

impl ShipHandle {
    /// What a ship at `(x, y)` knows before its first tick: it has met
    /// nothing, at no distance.
    pub open spec fn initial(x: i32, y: i32) -> HandleView {
        HandleView { raycast: NOTHING@, raycast_dist: -1000, pos: Vector2 { x, y } }
    }

    pub fn new(x: i32, y: i32) -> (handle: ShipHandle)
        ensures
            handle@ == ShipHandle::initial(x, y),
    {
        ShipHandle { raycast: NOTHING.to_owned(), raycast_dist: -1000, pos: Vector2::new(x, y) }
    }

    /// What the ray met: the name of a layer, `"wall"` or `"none"`.
    pub fn raycast(&self) -> (name: String)
        ensures
            name@ == self@.raycast,
    {
        self.raycast.clone()
    }

    /// How far the ray had travelled, in thousandths of a unit.
    pub fn raycast_dist(&self) -> (dist: i64)
        ensures
            dist == self@.raycast_dist,
    {
        self.raycast_dist
    }

    /// Where the ship stood.
    pub fn pos(&self) -> (pos: Vector2)
        ensures
            pos == self@.pos,
    {
        self.pos
    }
}

/// What a ship is: its name, where it stands, where it is heading, and what
/// it is doing.
pub struct ShipView {
    pub name: Seq<char>,
    pub pos: Vector2,
    pub rotation: i32,
    pub state: State,
}

impl ShipView {
    /// The circle that the ship occupies. A destroyed ship occupies nothing.
    pub open spec fn shape(self) -> Circle {
        if self.state is Destroyed {
            Circle::nowhere()
        } else {
            Circle { center: self.pos, radius: SHIP_RADIUS }
        }
    }

    /// The point in front of the ship where its bullets start and its ray
    /// begins.
    pub open spec fn muzzle(self) -> Vector2 {
        self.pos.moved(direction_of(self.rotation as int), SHOOT_OFFSET as int)
    }

    /// The action that the ship is carrying out ends in a tick of `dt`
    /// milliseconds.
    pub open spec fn completes(self, dt: u32) -> bool {
        match self.state {
            State::Moving(d) => limited(d as int, MOVE_SPEED * dt) == d,
            State::Turning(d) => limited(d as int, TURN_SPEED * dt) == d,
            State::Shooting(cooldown) => dt >= cooldown,
            _ => false,
        }
    }

    /// The ship after it has acted for a tick of `dt` milliseconds, before
    /// it is tested for damage. A waiting ship takes up `request`; a busy
    /// ship advances its action, and waits again once the action is
    /// complete. A moving ship goes as far along its heading as the tick
    /// allows, backwards where the distance is negative. A turning ship adds
    /// as much of the angle to its heading as the tick allows, with its
    /// sign; the heading is not brought back into one turn, and is held back
    /// only at the edge of what it can hold.
    pub open spec fn acted(self, dt: u32, request: Option<APIRequest>) -> ShipView {
        match self.state {
            State::Destroyed => self,
            State::Waiting => match request {
                Some(req) => ShipView { state: State::of(req), ..self },
                None => self,
            },
            State::Moving(d) => {
                let step = limited(d as int, MOVE_SPEED * dt);
                ShipView {
                    pos: self.pos.moved(direction_of(self.rotation as int), step),
                    state: if step == d {
                        State::Waiting
                    } else {
                        State::Moving((d - step) as i32)
                    },
                    ..self
                }
            },
            State::Turning(d) => {
                let step = limited(d as int, TURN_SPEED * dt);
                ShipView {
                    rotation: clamp_coord(self.rotation + step) as i32,
                    state: if step == d {
                        State::Waiting
                    } else {
                        State::Turning((d - step) as i32)
                    },
                    ..self
                }
            },
            State::Shooting(cooldown) => ShipView {
                state: if dt >= cooldown {
                    State::Waiting
                } else {
                    State::Shooting((cooldown - dt) as u32)
                },
                ..self
            },
        }
    }

    /// What the ship senses in `frame`: the outcome of a ray cast from its
    /// muzzle along its heading, and its own position.
    pub open spec fn sensed(self, frame: FrameView) -> HandleView {
        let ray = frame.cast(
            ship_sights(),
            self.muzzle(),
            direction_of(self.rotation as int),
            SENSOR_RADIUS,
            0,
        );
        HandleView { raycast: ray.0, raycast_dist: ray.1, pos: self.pos }
    }

    /// The channel is in step with the ship: while the ship carries out an
    /// action, its control program is suspended and has sent nothing more.
    pub open spec fn in_step(self, channel: ChannelView) -> bool {
        &&& channel.wf()
        &&& self.state.is_busy() ==> channel.parked && channel.pending.is_none()
    }

    /// Everything that one tick of a ship decides.
    pub open spec fn tick(
        self,
        dt: u32,
        frame: FrameView,
        channel: ChannelView,
        handle: HandleView,
        pool: PoolView,
    ) -> Tick {
        if self.state is Destroyed {
            Tick { ship: self, channel, handle, pool, exhausted: false }
        } else {
            let request = if self.state is Waiting {
                channel.pending
            } else {
                None
            };
            let polled = if self.state is Waiting {
                channel.received()
            } else {
                channel
            };
            let shot = request == Some(APIRequest::Shoot);
            let acted = self.acted(dt, request);
            let lethal = frame.hits(ship_threats(), acted.shape());
            Tick {
                ship: if lethal {
                    ShipView { state: State::Destroyed, ..acted }
                } else {
                    acted
                },
                channel: if !lethal && self.completes(dt) {
                    polled.resumed()
                } else {
                    polled
                },
                handle: if lethal {
                    handle
                } else {
                    acted.sensed(frame)
                },
                pool: if shot && pool.asleep.len() > 0 {
                    pool.shoot(self.muzzle(), self.rotation)
                } else {
                    pool
                },
                exhausted: shot && pool.asleep.len() == 0,
            }
        }
    }
}

/// The outcome of one tick of a ship: the ship, its channel, what it last
/// sensed, the pool, and whether a shot found the pool empty.
pub struct Tick {
    pub ship: ShipView,
    pub channel: ChannelView,
    pub handle: HandleView,
    pub pool: PoolView,
    pub exhausted: bool,
}

/// A ship, driven by the requests of its control program.
pub struct Ship {
    name: String,
    pos: Vector2,
    rotation: i32,
    state: State,
}

impl View for Ship {
    type V = ShipView;

    closed spec fn view(&self) -> ShipView {
        ShipView { name: self.name@, pos: self.pos, rotation: self.rotation, state: self.state }
    }
}

impl Ship {
    /// A ship called `name` that waits at `(x, y)`, heading along the x axis.
    pub fn new(name: String, x: i32, y: i32) -> (ship: Ship)
        ensures
            ship@ == (ShipView {
                name: name@,
                pos: Vector2 { x, y },
                rotation: 0,
                state: State::Waiting,
            }),
    {
        Ship { name, pos: Vector2::new(x, y), rotation: 0, state: State::Waiting }
    }

    /// Ends the action: the ship waits again and its control program may go
    /// on.
    fn next(&mut self, channel: &mut ActionChannel)
        ensures
            final(self)@ == (ShipView { state: State::Waiting, ..old(self)@ }),
            final(channel)@ == old(channel)@.resumed(),
    {
        self.state = State::Waiting;
        channel.unpark();
    }

    /// Senses the arena: casts a ray from the muzzle along the heading.
    pub fn make_handle(&self, collision_frame: &CollisionFrame) -> (handle: ShipHandle)
        ensures
            handle@ == self@.sensed(collision_frame@),
    {
        let sights = vec![SHIP_LAYER, ROCK_LAYER];
        assert(names_of(sights@) =~= ship_sights());
        let dir = direction(self.rotation);
        let (raycast, raycast_dist) = collision_frame.raycast(
            sights,
            self.pos.advance(dir, SHOOT_OFFSET),
            self.rotation,
            SENSOR_RADIUS,
        );
        ShipHandle { raycast, raycast_dist, pos: self.pos }
    }

    /// Advances the ship by one tick of `dt` milliseconds: see
    /// [`ShipView::tick`]. A waiting ship looks for a request and takes it
    /// up; a shot is fired at once, and fails without stopping the tick when
    /// the pool is empty. A busy ship advances its action. Then a ship that
    /// collides with a bullet or a rock is destroyed; any other ship senses
    /// the arena and, where its action is complete, lets its control program
    /// go on.
    pub fn update(
        &mut self,
        dt: u32,
        collision_frame: &CollisionFrame,
        link: &mut Context,
        bullet_pool: &mut BulletPool,
    ) -> (res: Result<(), PoolExhausted>)
        ensures
            ({
                let tick = old(self)@.tick(
                    dt,
                    collision_frame@,
                    old(link).channel@,
                    old(link).handle@,
                    old(bullet_pool)@,
                );
                &&& final(self)@ == tick.ship
                &&& final(link).channel@ == tick.channel
                &&& final(link).handle@ == tick.handle
                &&& final(bullet_pool)@ == tick.pool
                &&& res.is_err() == tick.exhausted
            }),
            old(self)@.in_step(old(link).channel@) ==> final(self)@.in_step(final(link).channel@),
            old(bullet_pool)@.wf() ==> final(bullet_pool)@.wf(),
            final(bullet_pool)@.capacity() == old(bullet_pool)@.capacity(),
    {
        let mut should_unpark = false;
        let mut res: Result<(), PoolExhausted> = Ok(());
        match self.state {
            State::Destroyed => {
                return Ok(());
            },
            State::Waiting => {
                match link.channel.try_recv() {
                    Some(msg) => {
                        if let APIRequest::Shoot = msg {
                            res = bullet_pool.shoot(
                                self.pos.advance(direction(self.rotation), SHOOT_OFFSET),
                                self.rotation,
                            );
                        }
                        self.state = State::from_req(msg);
                    },
                    None => {},
                }
            },
            State::Moving(dist) => {
                let budget: i64 = MOVE_SPEED as i64 * dt as i64;
                let step: i64 = if dist as i64 > budget {
                    budget
                } else if (dist as i64) < -budget {
                    -budget
                } else {
                    dist as i64
                };
                self.pos = self.pos.advance(direction(self.rotation), step);
                if step != dist as i64 {
                    self.state = State::Moving((dist as i64 - step) as i32);
                } else {
                    should_unpark = true;
                }
            },
            State::Turning(dist) => {
                let budget: i64 = TURN_SPEED as i64 * dt as i64;
                let step: i64 = if dist as i64 > budget {
                    budget
                } else if (dist as i64) < -budget {
                    -budget
                } else {
                    dist as i64
                };
                self.rotation = saturate(self.rotation as i128 + step as i128);
                if step != dist as i64 {
                    self.state = State::Turning((dist as i64 - step) as i32);
                } else {
                    should_unpark = true;
                }
            },
            State::Shooting(cooldown) => {
                if dt < cooldown {
                    self.state = State::Shooting(cooldown - dt);
                } else {
                    should_unpark = true;
                }
            },
        }
        let threats = vec![BULLET_LAYER, ROCK_LAYER];
        assert(names_of(threats@) =~= ship_threats());
        if collision_frame.check_collision(threats, self.get_shape()) {
            self.state = State::Destroyed;
        } else {
            link.handle = self.make_handle(collision_frame);
            if should_unpark {
                self.next(&mut link.channel);
            }
        }
        res
    }

    /// The name of the ship.
    pub fn name(&self) -> (name: String)
        ensures
            name@ == self@.name,
    {
        self.name.clone()
    }

    /// Where the ship stands.
    pub fn get_pos(&self) -> (pos: Vector2)
        ensures
            pos == self@.pos,
    {
        self.pos
    }

    /// The heading of the ship, in thousandths of a degree.
    pub fn rotation(&self) -> (rotation: i32)
        ensures
            rotation == self@.rotation,
    {
        self.rotation
    }

    /// What the ship is doing.
    pub fn state(&self) -> (state: State)
        ensures
            state == self@.state,
    {
        self.state
    }

    /// Tells whether the ship has been destroyed.
    pub fn is_destroyed(&self) -> (destroyed: bool)
        ensures
            destroyed == (self@.state is Destroyed),
    {
        match self.state {
            State::Destroyed => true,
            _ => false,
        }
    }
}

impl Object for Ship {
    open spec fn shape(&self) -> Circle {
        self@.shape()
    }

    fn get_shape(&self) -> (c: Circle) {
        if let State::Destroyed = self.state {
            Circle::empty()
        } else {
            Circle::new(self.pos, SHIP_RADIUS)
        }
    }
}

/// What a ship senses is one of four things, a ship, a rock, the wall or
/// nothing, at a distance that is not negative and not beyond the maximum
/// length of a ray by more than two radii of the probe.
pub proof fn lemma_sensed_is_one_of_four(ship: ShipView, frame: FrameView)
    ensures
        ({
            let sensed = ship.sensed(frame);
            &&& sensed.raycast == SHIP_LAYER@ || sensed.raycast == ROCK_LAYER@ || sensed.raycast
                == crate::collision::WALL@ || sensed.raycast == NOTHING@
            &&& 0 <= sensed.raycast_dist <= crate::collision::MAX_RAY_LENGTH + 2 * SENSOR_RADIUS
            &&& sensed.pos == ship.pos
        }),
{
    crate::collision::lemma_cast_is_bounded(
        frame,
        ship_sights(),
        ship.muzzle(),
        direction_of(ship.rotation as int),
        SENSOR_RADIUS,
        0,
    );
    let n = frame.marches(
        ship_sights(),
        ship.muzzle(),
        direction_of(ship.rotation as int),
        SENSOR_RADIUS,
        0,
    );
    assert(n * SENSOR_RADIUS >= 0) by (nonlinear_arith)
        requires
            n >= 0,
    ;
    let name = ship.sensed(frame).raycast;
    if ship_sights().contains(name) {
        let i = choose|i: int| 0 <= i < ship_sights().len() && ship_sights()[i] == name;
        assert(i == 0 || i == 1);
    }
}

/// A tick keeps the channel in step with the ship.
pub proof fn lemma_tick_keeps_in_step(
    ship: ShipView,
    dt: u32,
    frame: FrameView,
    channel: ChannelView,
    handle: HandleView,
    pool: PoolView,
)
    requires
        ship.in_step(channel),
    ensures
        ship.tick(dt, frame, channel, handle, pool).ship.in_step(
            ship.tick(dt, frame, channel, handle, pool).channel,
        ),
{
}

/// A request that the channel accepts leaves the channel in step with the
/// ship.
pub proof fn lemma_send_keeps_in_step(ship: ShipView, channel: ChannelView, request: APIRequest)
    requires
        ship.in_step(channel),
        channel.accepts(),
    ensures
        ship.in_step(channel.sent(request)),
{
}

/// A waiting ship takes up the request that waits in its channel, and
/// leaves its control program suspended.
pub proof fn lemma_request_is_taken_up(
    ship: ShipView,
    dt: u32,
    frame: FrameView,
    channel: ChannelView,
    handle: HandleView,
    pool: PoolView,
    request: APIRequest,
)
    requires
        ship.in_step(channel),
        ship.state is Waiting,
        channel.pending == Some(request),
    ensures
        ({
            let tick = ship.tick(dt, frame, channel, handle, pool);
            &&& tick.channel.pending.is_none()
            &&& tick.channel.parked
            &&& tick.ship.state is Destroyed || tick.ship.state == State::of(request)
        }),
{
}

/// While a ship carries out an action, its control program stays
/// suspended. A tick ends the suspension exactly when the action completes
/// in it and the ship is not destroyed in it; the ship then waits again.
pub proof fn lemma_suspended_until_complete(
    ship: ShipView,
    dt: u32,
    frame: FrameView,
    channel: ChannelView,
    handle: HandleView,
    pool: PoolView,
)
    requires
        ship.in_step(channel),
        ship.state.is_busy(),
    ensures
        ({
            let tick = ship.tick(dt, frame, channel, handle, pool);
            let signalled = ship.completes(dt) && !(tick.ship.state is Destroyed);
            &&& tick.channel.parked == !signalled
            &&& tick.channel.pending.is_none()
            &&& (tick.ship.state is Waiting) == signalled
            &&& tick.pool == pool
            &&& !tick.exhausted
        }),
{
}

/// An action of no extent completes in one tick, however short.
pub proof fn lemma_empty_action_completes_at_once(ship: ShipView, dt: u32)
    requires
        ship.state == State::Moving(0) || ship.state == State::Turning(0) || ship.state
            == State::Shooting(0),
    ensures
        ship.completes(dt),
        ship.acted(dt, None).state is Waiting,
        ship.state is Moving ==> ship.acted(dt, None).pos == ship.pos,
{
    assert(crate::math::along(direction_of(ship.rotation as int).x as int, 0) == 0);
    assert(crate::math::along(direction_of(ship.rotation as int).y as int, 0) == 0);
}

/// A destroyed ship stays destroyed: a tick changes nothing of it, of its
/// channel, of what it last sensed, or of the pool. It occupies nothing: it
/// collides in no frame, no circle collides with it, and a layer collides
/// with the same circles whether or not it holds the shape of the ship.
pub proof fn lemma_destroyed_is_final(
    ship: ShipView,
    dt: u32,
    frame: FrameView,
    channel: ChannelView,
    handle: HandleView,
    pool: PoolView,
    names: Seq<Seq<char>>,
)
    requires
        ship.state is Destroyed,
    ensures
        ship.tick(dt, frame, channel, handle, pool) == (Tick {
            ship,
            channel,
            handle,
            pool,
            exhausted: false,
        }),
        ship.shape() == Circle::nowhere(),
        !frame.hits(names, ship.shape()),
        forall|other: Circle| !circles_collide(ship.shape(), other),
        forall|shapes: Seq<Circle>, other: Circle|
            #[trigger] layer_collides(shapes.push(ship.shape()), other) == layer_collides(
                shapes,
                other,
            ),
{
    crate::collision::lemma_empty_circle_hits_nothing(frame, names, ship.shape());
    assert forall|shapes: Seq<Circle>, other: Circle|
        #[trigger] layer_collides(shapes.push(ship.shape()), other) == layer_collides(
            shapes,
            other,
        ) by {
        let more = shapes.push(ship.shape());
        if layer_collides(shapes, other) {
            let i = choose|i: int|
                0 <= i < shapes.len() && circles_collide(#[trigger] shapes[i], other);
            assert(circles_collide(more[i], other));
        }
        if layer_collides(more, other) {
            let i = choose|i: int| 0 <= i < more.len() && circles_collide(#[trigger] more[i], other);
            assert(circles_collide(shapes[i], other));
        }
    }
}

} // verus!
