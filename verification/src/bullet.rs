//! Bullets, and the pool that hands them out and takes them back.

use std::collections::VecDeque;
use vstd::prelude::*;
use crate::collision::{
    shapes_of, Circle, CollisionFrame, CollisionLayer, FrameView, ROCK_LAYER, SHIP_LAYER,
};
use crate::math::{direction, direction_of, Vector2};
use crate::object::Object;

verus! {

/// The speed of a bullet, in units per second.
pub const BULLET_SPEED: u32 = 400;

/// How long a bullet flies, in milliseconds.
pub const BULLET_LIFETIME: u32 = 3000;

/// The radius of a bullet, in thousandths of a unit.
pub const BULLET_RADIUS: u32 = 10_000;

/// The layers that stop a bullet.
pub open spec fn bullet_targets() -> Seq<Seq<char>> {
    seq![SHIP_LAYER@, ROCK_LAYER@]
}

/// What is left of a lifetime after `dt` milliseconds.
pub open spec fn remaining(lifetime: u32, dt: u32) -> u32 {
    if dt >= lifetime {
        0
    } else {
        (lifetime - dt) as u32
    }
}

/// One bullet: where it is, where it is heading, how many milliseconds it
/// has left, and whether it is due to go back to the pool.
#[derive(Clone, Copy, Debug, PartialEq, Eq, Structural)]
pub struct Bullet {
    pub pos: Vector2,
    pub rotation: i32,
    pub lifetime: u32,
    pub sleep_queued: bool,
}

impl Bullet {
    /// A bullet as it lies in a new pool.
    pub open spec fn fresh() -> Bullet {
        Bullet {
            pos: Vector2::origin(),
            rotation: 0,
            lifetime: BULLET_LIFETIME,
            sleep_queued: false,
        }
    }

    /// The bullet, fired from `pos` along `rotation`.
    pub open spec fn launched(self, pos: Vector2, rotation: i32) -> Bullet {
        Bullet { pos, rotation, ..self }
    }

    /// Where the bullet stands after a tick of `dt` milliseconds.
    pub open spec fn advanced(self, dt: u32) -> Vector2 {
        self.pos.moved(direction_of(self.rotation as int), BULLET_SPEED * dt)
    }

    /// The bullet after a tick of `dt` milliseconds: it has advanced and its
    /// lifetime has gone down. It is due to go back to the pool if its
    /// lifetime has run out or if, where it stands after the tick, it
    /// collides with a ship or a rock.
    pub open spec fn stepped(self, dt: u32, frame: FrameView) -> Bullet {
        Bullet {
            pos: self.advanced(dt),
            rotation: self.rotation,
            lifetime: remaining(self.lifetime, dt),
            sleep_queued: self.sleep_queued || remaining(self.lifetime, dt) == 0 || frame.hits(
                bullet_targets(),
                Circle { center: self.advanced(dt), radius: BULLET_RADIUS },
            ),
        }
    }

    /// The bullet as it goes back to the pool: with a full lifetime again.
    pub open spec fn recycled(self) -> Bullet {
        Bullet { lifetime: BULLET_LIFETIME, sleep_queued: false, ..self }
    }

    /// The bullet after the ticks of `ticks`, each a duration and the frame
    /// that the tick is resolved against.
    pub open spec fn flown_through(self, ticks: Seq<(u32, FrameView)>) -> Bullet
        decreases ticks.len(),
    {
        if ticks.len() == 0 {
            self
        } else {
            self.flown_through(ticks.drop_last()).stepped(ticks.last().0, ticks.last().1)
        }
    }

    /// In none of the ticks does the bullet, where it stands after the
    /// tick, collide with a ship or a rock.
    pub open spec fn unhindered(self, ticks: Seq<(u32, FrameView)>) -> bool
        decreases ticks.len(),
    {
        ticks.len() > 0 ==> {
            &&& self.unhindered(ticks.drop_last())
            &&& !ticks.last().1.hits(bullet_targets(), self.flown_through(ticks).shape())
        }
    }

    /// The bullet may lie in the inactive part of a pool.
    pub open spec fn is_rested(self) -> bool {
        self.lifetime == BULLET_LIFETIME && !self.sleep_queued
    }

    /// The bullet may be in flight between two ticks.
    pub open spec fn is_flying(self) -> bool {
        0 < self.lifetime <= BULLET_LIFETIME && !self.sleep_queued
    }

    pub fn new() -> (bullet: Bullet)
        ensures
            bullet == Bullet::fresh(),
    {
        Bullet { pos: Vector2::zero(), rotation: 0, lifetime: BULLET_LIFETIME, sleep_queued: false }
    }

    /// Advances the bullet by one tick of `dt` milliseconds: it moves on,
    /// its lifetime goes down, and it is marked as due to go back if the
    /// lifetime has run out or if, where it now stands, it collides with a
    /// ship or a rock of the frame.
    pub fn update(&mut self, dt: u32, collision_frame: &CollisionFrame)
        ensures
            *final(self) == old(self).stepped(dt, collision_frame@),
    {
        self.pos = self.pos.advance(direction(self.rotation), BULLET_SPEED as i64 * dt as i64);
        self.lifetime = if dt >= self.lifetime {
            0
        } else {
            self.lifetime - dt
        };
        if self.lifetime == 0 {
            self.sleep_queued = true;
        }
        let targets = vec![SHIP_LAYER, ROCK_LAYER];
        assert(crate::collision::names_of(targets@) =~= bullet_targets());
        if collision_frame.check_collision(targets, self.get_shape()) {
            self.sleep_queued = true;
        }
    }
}

impl Object for Bullet {
    open spec fn shape(&self) -> Circle {
        Circle { center: self.pos, radius: BULLET_RADIUS }
    }

    fn get_shape(&self) -> (c: Circle) {
        Circle::new(self.pos, BULLET_RADIUS)
    }
}

/// The error of a shot for which the pool has no bullet left.
#[derive(Clone, Copy, Debug, PartialEq, Eq, Structural)]
pub struct PoolExhausted;

impl PoolExhausted {
    /// The words in which the error is reported.
    pub fn message(&self) -> (text: String)
        ensures
            text@ == "Ran out of bullets."@,
    {
        "Ran out of bullets.".to_owned()
    }
}

/// The bullets of `s` that stay in flight.
pub open spec fn kept(s: Seq<Bullet>) -> Seq<Bullet> {
    s.filter(|b: Bullet| !b.sleep_queued)
}

/// The bullets of `s` that are due to go back, as they go back.
pub open spec fn retired(s: Seq<Bullet>) -> Seq<Bullet> {
    s.filter(|b: Bullet| b.sleep_queued).map_values(|b: Bullet| b.recycled())
}

/// What a pool holds: the inactive bullets, of which the last is the next to
/// be fired, and the bullets in flight, the latest first.
pub struct PoolView {
    pub asleep: Seq<Bullet>,
    pub awake: Seq<Bullet>,
}

impl PoolView {
    /// The number of bullets that the pool was made with.
    pub open spec fn capacity(self) -> nat {
        self.asleep.len() + self.awake.len()
    }

    /// Every inactive bullet has its full lifetime, every bullet in flight
    /// has some lifetime left, and none is due to go back.
    pub open spec fn wf(self) -> bool {
        &&& forall|i: int| 0 <= i < self.asleep.len() ==> (#[trigger] self.asleep[i]).is_rested()
        &&& forall|i: int| 0 <= i < self.awake.len() ==> (#[trigger] self.awake[i]).is_flying()
    }

    /// A new pool of `count` bullets.
    pub open spec fn fresh(count: nat) -> PoolView {
        PoolView { asleep: Seq::new(count, |i: int| Bullet::fresh()), awake: Seq::empty() }
    }

    /// The pool after a shot, where an inactive bullet is left.
    pub open spec fn shoot(self, pos: Vector2, rotation: i32) -> PoolView {
        PoolView {
            asleep: self.asleep.drop_last(),
            awake: seq![self.asleep.last().launched(pos, rotation)] + self.awake,
        }
    }

    /// The pool after the shots of `shots`, each a place and a heading, one
    /// after the other, where the pool has a bullet for each.
    pub open spec fn shoot_all(self, shots: Seq<(Vector2, i32)>) -> PoolView
        decreases shots.len(),
    {
        if shots.len() == 0 {
            self
        } else {
            self.shoot_all(shots.drop_last()).shoot(shots.last().0, shots.last().1)
        }
    }

    /// The bullets in flight after a tick, before any goes back.
    pub open spec fn flown(self, dt: u32, frame: FrameView) -> Seq<Bullet> {
        self.awake.map_values(|b: Bullet| b.stepped(dt, frame))
    }

    /// The pool after a tick of `dt` milliseconds. Every bullet in flight
    /// advances; those that are then due go back to the inactive bullets,
    /// the one that stood last in flight first.
    pub open spec fn step(self, dt: u32, frame: FrameView) -> PoolView {
        PoolView {
            asleep: self.asleep + retired(self.flown(dt, frame)).reverse(),
            awake: kept(self.flown(dt, frame)),
        }
    }
}

/// Adding a bullet at the end adds it to exactly one of the two parts.
proof fn lemma_sort_one(s: Seq<Bullet>, b: Bullet)
    ensures
        kept(s.push(b)) == if b.sleep_queued {
            kept(s)
        } else {
            kept(s).push(b)
        },
        retired(s.push(b)) == if b.sleep_queued {
            retired(s).push(b.recycled())
        } else {
            retired(s)
        },
{
    s.lemma_filter_push(b, |b: Bullet| !b.sleep_queued);
    s.lemma_filter_push(b, |b: Bullet| b.sleep_queued);
    if b.sleep_queued {
        let q = s.filter(|b: Bullet| b.sleep_queued);
        assert(q.push(b).map_values(|b: Bullet| b.recycled()) =~= q.map_values(
            |b: Bullet| b.recycled(),
        ).push(b.recycled()));
    }
}

/// A fixed store of bullets. A shot takes a bullet from the inactive ones
/// and puts it in flight; a tick brings back those whose flight has ended.
pub struct BulletPool {
    asleep: Vec<Bullet>,
    awake: VecDeque<Bullet>,
}

impl View for BulletPool {
    type V = PoolView;

    closed spec fn view(&self) -> PoolView {
        PoolView { asleep: self.asleep@, awake: self.awake@ }
    }
}

impl BulletPool {
    /// A pool of `count` bullets, none in flight.
    pub fn new(count: usize) -> (pool: BulletPool)
        ensures
            pool@ == PoolView::fresh(count as nat),
            pool@.wf(),
    {
        let mut asleep: Vec<Bullet> = Vec::new();
        let mut i: usize = 0;
        while i < count
            invariant
                i <= count,
                asleep@ == PoolView::fresh(i as nat).asleep,
            decreases count - i,
        {
            asleep.push(Bullet::new());
            i += 1;
            assert(asleep@ =~= PoolView::fresh(i as nat).asleep);
        }
        BulletPool { asleep, awake: VecDeque::new() }
    }

    /// Fires a bullet from `pos` along `rotation`. Fails, and changes
    /// nothing, when every bullet of the pool is in flight.
    pub fn shoot(&mut self, pos: Vector2, rotation: i32) -> (res: Result<(), PoolExhausted>)
        ensures
            old(self)@.asleep.len() > 0 ==> res.is_ok() && final(self)@ == old(self)@.shoot(
                pos,
                rotation,
            ),
            old(self)@.asleep.len() == 0 ==> res == Err::<(), PoolExhausted>(PoolExhausted)
                && final(self)@ == old(self)@,
            old(self)@.wf() ==> final(self)@.wf(),
            final(self)@.capacity() == old(self)@.capacity(),
    {
        match self.asleep.pop() {
            Some(mut bullet) => {
                bullet.pos = pos;
                bullet.rotation = rotation;
                self.awake.push_front(bullet);
                assert(self.asleep@ =~= old(self)@.asleep.drop_last());
                proof {
                    if old(self)@.wf() {
                        let last = old(self)@.asleep.len() - 1;
                        assert(old(self)@.asleep[last].is_rested());
                        assert forall|i: int| 0 <= i < self.awake@.len() implies (
                        #[trigger] self.awake@[i]).is_flying() by {
                            if i > 0 {
                                assert(self.awake@[i] == old(self)@.awake[i - 1]);
                            }
                        }
                    }
                }
                Ok(())
            },
            None => Err(PoolExhausted),
        }
    }

    /// The shapes of the bullets in flight, the latest first.
    pub fn collision_layer(&mut self) -> (layer: CollisionLayer)
        ensures
            layer@ == shapes_of(old(self)@.awake),
            final(self)@ == old(self)@,
    {
        let mut shapes: Vec<Circle> = Vec::new();
        let mut i: usize = 0;
        while i < self.awake.len()
            invariant
                i <= self.awake@.len(),
                shapes@ == shapes_of(self.awake@.take(i as int)),
            decreases self.awake@.len() - i,
        {
            shapes.push(self.awake[i].get_shape());
            i += 1;
            assert(shapes@ =~= shapes_of(self.awake@.take(i as int)));
        }
        assert(self.awake@.take(i as int) =~= self.awake@);
        assert(shapes_of(shapes@) =~= shapes@);
        CollisionLayer::from(shapes.as_slice())
    }

    /// The number of inactive bullets: the shots that the pool can still
    /// serve before a bullet comes back.
    pub fn available(&self) -> (count: usize)
        ensures
            count == self@.asleep.len(),
    {
        self.asleep.len()
    }

    /// The bullets in flight, the latest first.
    pub fn awake(&self) -> (bullets: &VecDeque<Bullet>)
        ensures
            bullets@ == self@.awake,
    {
        &self.awake
    }

    /// Advances the pool by one tick of `dt` milliseconds: see
    /// [`PoolView::step`]. No bullet goes back before every bullet in flight
    /// has advanced.
    pub fn update(&mut self, dt: u32, collision_frame: &CollisionFrame)
        ensures
            final(self)@ == old(self)@.step(dt, collision_frame@),
            old(self)@.wf() ==> final(self)@.wf(),
            final(self)@.capacity() == old(self)@.capacity(),
    {
        let ghost before = self@;
        let ghost flown = before.flown(dt, collision_frame@);
        let count: usize = self.awake.len();
        let mut sleep: Vec<Bullet> = Vec::new();
        let mut i: usize = 0;
        proof {
            reveal(Seq::filter);
            assert(kept(flown.take(0)) =~= Seq::<Bullet>::empty());
            assert(retired(flown.take(0)) =~= Seq::<Bullet>::empty());
            assert(self.awake@ =~= before.awake.skip(0) + kept(flown.take(0)));
        }
        while i < count
            invariant
                i <= count,
                count == before.awake.len(),
                flown == before.flown(dt, collision_frame@),
                self.asleep@ == before.asleep,
                self.awake@ == before.awake.skip(i as int) + kept(flown.take(i as int)),
                sleep@ == retired(flown.take(i as int)),
            decreases count - i,
        {
            let ghost done = flown.take(i as int);
            assert(before.awake.skip(i as int)[0] == before.awake[i as int]);
            match self.awake.pop_front() {
                Some(mut bullet) => {
                    bullet.update(dt, collision_frame);
                    proof {
                        assert(bullet == flown[i as int]);
                        lemma_sort_one(done, bullet);
                        assert(flown.take(i as int + 1) =~= done.push(bullet));
                    }
                    if bullet.sleep_queued {
                        bullet.sleep_queued = false;
                        bullet.lifetime = BULLET_LIFETIME;
                        sleep.push(bullet);
                        assert(self.awake@ =~= before.awake.skip(i as int + 1) + kept(done));
                    } else {
                        self.awake.push_back(bullet);
                        assert(self.awake@ =~= before.awake.skip(i as int + 1) + kept(done).push(
                            bullet,
                        ));
                    }
                },
                None => {},
            }
            i += 1;
        }
        let mut j: usize = sleep.len();
        proof {
            assert(flown.take(count as int) =~= flown);
            assert(self.awake@ =~= kept(flown));
            assert(self.asleep@ =~= before.asleep + sleep@.skip(j as int).reverse());
        }
        while j > 0
            invariant
                j <= sleep@.len(),
                self.asleep@ == before.asleep + sleep@.skip(j as int).reverse(),
                self.awake@ == kept(flown),
            decreases j,
        {
            j -= 1;
            self.asleep.push(sleep[j]);
            assert(self.asleep@ =~= before.asleep + sleep@.skip(j as int).reverse());
        }
        proof {
            assert(sleep@.skip(0) =~= sleep@);
            lemma_sorted_parts(flown);
            if before.wf() {
                lemma_step_sorts_every_bullet(before, dt, collision_frame@);
            }
        }
    }
}

/// A pool occupies no place of its own: its bullets do.
impl Object for BulletPool {
    open spec fn shape(&self) -> Circle {
        Circle::nowhere()
    }

    fn get_shape(&self) -> (c: Circle) {
        Circle::empty()
    }
}

/// The time that a sequence of ticks takes, in milliseconds.
pub open spec fn total_time(ticks: Seq<(u32, FrameView)>) -> int
    decreases ticks.len(),
{
    if ticks.len() == 0 {
        0
    } else {
        total_time(ticks.drop_last()) + ticks.last().0
    }
}

/// As long as inactive bullets are left, every shot succeeds: after
/// `shots.len()` shots from a valid pool that had at least as many inactive
/// bullets, that many have gone from the inactive bullets into flight, and
/// the pool is valid and as large as before.
pub proof fn lemma_shots_within_capacity(pool: PoolView, shots: Seq<(Vector2, i32)>)
    requires
        pool.wf(),
        shots.len() <= pool.asleep.len(),
    ensures
        pool.shoot_all(shots).asleep.len() == pool.asleep.len() - shots.len(),
        pool.shoot_all(shots).awake.len() == pool.awake.len() + shots.len(),
        pool.shoot_all(shots).capacity() == pool.capacity(),
        pool.shoot_all(shots).wf(),
    decreases shots.len(),
{
    if shots.len() > 0 {
        let before = pool.shoot_all(shots.drop_last());
        lemma_shots_within_capacity(pool, shots.drop_last());
        let after = before.shoot(shots.last().0, shots.last().1);
        assert(before.asleep.last().is_rested());
        assert forall|i: int| 0 <= i < after.awake.len() implies (#[trigger] after.awake[i]).is_flying() by {
            if i > 0 {
                assert(after.awake[i] == before.awake[i - 1]);
            }
        }
        assert forall|i: int| 0 <= i < after.asleep.len() implies (#[trigger] after.asleep[i]).is_rested() by {
            assert(after.asleep[i] == before.asleep[i]);
        }
    }
}

/// From a new pool, every sequence of shots that does not exceed the
/// capacity succeeds shot by shot, and once as many bullets are in flight as
/// the pool holds, no inactive bullet is left for one more.
pub proof fn lemma_new_pool_serves_its_capacity(capacity: nat, shots: Seq<(Vector2, i32)>)
    requires
        shots.len() <= capacity,
    ensures
        forall|k: int|
            0 <= k < shots.len() ==> (#[trigger] PoolView::fresh(capacity).shoot_all(
                shots.take(k),
            )).asleep.len() > 0,
        shots.len() == capacity ==> PoolView::fresh(capacity).shoot_all(shots).asleep.len() == 0,
        PoolView::fresh(capacity).shoot_all(shots).awake.len() == shots.len(),
{
    let pool = PoolView::fresh(capacity);
    assert(pool.wf());
    lemma_shots_within_capacity(pool, shots);
    assert forall|k: int| 0 <= k < shots.len() implies (#[trigger] pool.shoot_all(
        shots.take(k),
    )).asleep.len() > 0 by {
        lemma_shots_within_capacity(pool, shots.take(k));
    }
}

/// A bullet goes back to the pool with exactly its full lifetime, and is
/// not due to go back again.
pub proof fn lemma_recycled_is_rested(bullet: Bullet)
    ensures
        bullet.recycled().lifetime == BULLET_LIFETIME,
        bullet.recycled().is_rested(),
        bullet.recycled().recycled() == bullet.recycled(),
{
}

/// Every bullet that a tick sends back lies among the inactive bullets with
/// its full lifetime.
pub proof fn lemma_step_rests_what_it_retires(pool: PoolView, dt: u32, frame: FrameView)
    ensures
        forall|i: int|
            pool.asleep.len() <= i < pool.step(dt, frame).asleep.len() ==> (#[trigger] pool.step(
                dt,
                frame,
            ).asleep[i]).is_rested(),
{
    let flown = pool.flown(dt, frame);
    let back = retired(flown);
    assert forall|i: int| pool.asleep.len() <= i < pool.step(dt, frame).asleep.len() implies (
    #[trigger] pool.step(dt, frame).asleep[i]).is_rested() by {
        let j = i - pool.asleep.len();
        let k = back.len() - 1 - j;
        assert(pool.step(dt, frame).asleep[i] == back.reverse()[j]);
        assert(back.reverse()[j] == back[k]);
        let queued = flown.filter(|b: Bullet| b.sleep_queued);
        assert(back[k] == queued[k].recycled());
    }
}

/// A bullet that has just come back and is fired again stays in flight
/// through every tick in which it collides with nothing, until the ticks
/// have taken its whole lifetime; the tick in which they do sends it back.
pub proof fn lemma_recycled_bullet_flies_again(
    bullet: Bullet,
    pos: Vector2,
    rotation: i32,
    ticks: Seq<(u32, FrameView)>,
)
    requires
        bullet.recycled().launched(pos, rotation).unhindered(ticks),
        ticks.len() > 0 ==> total_time(ticks.drop_last()) < BULLET_LIFETIME,
    ensures
        ({
            let fired = bullet.recycled().launched(pos, rotation);
            &&& fired.flown_through(ticks).sleep_queued == (total_time(ticks) >= BULLET_LIFETIME)
            &&& total_time(ticks) < BULLET_LIFETIME ==> fired.flown_through(ticks).lifetime
                == BULLET_LIFETIME - total_time(ticks)
        }),
    decreases ticks.len(),
{
    if ticks.len() > 0 {
        let earlier = ticks.drop_last();
        if earlier.len() > 0 {
            lemma_total_time_grows(earlier);
        }
        lemma_recycled_bullet_flies_again(bullet, pos, rotation, earlier);
    }
}

/// The time that ticks take does not shrink as ticks are added.
pub proof fn lemma_total_time_grows(ticks: Seq<(u32, FrameView)>)
    requires
        ticks.len() > 0,
    ensures
        0 <= total_time(ticks.drop_last()) <= total_time(ticks),
    decreases ticks.len(),
{
    if ticks.len() > 1 {
        lemma_total_time_grows(ticks.drop_last());
    }
}

/// A tick sorts every bullet in flight into exactly one of two parts: it
/// stays in flight with some lifetime left, or it goes back with its full
/// lifetime. So a tick keeps a valid pool valid, and keeps its capacity.
pub proof fn lemma_step_sorts_every_bullet(pool: PoolView, dt: u32, frame: FrameView)
    requires
        pool.wf(),
    ensures
        kept(pool.flown(dt, frame)).len() + retired(pool.flown(dt, frame)).len()
            == pool.awake.len(),
        pool.step(dt, frame).capacity() == pool.capacity(),
        pool.step(dt, frame).wf(),
{
    let flown = pool.flown(dt, frame);
    lemma_sorted_parts(flown);
    lemma_step_rests_what_it_retires(pool, dt, frame);
    let after = pool.step(dt, frame);
    assert forall|i: int| 0 <= i < after.asleep.len() implies (#[trigger] after.asleep[i]).is_rested() by {
        if i < pool.asleep.len() {
            assert(after.asleep[i] == pool.asleep[i]);
        }
    }
    assert forall|i: int| 0 <= i < after.awake.len() implies (#[trigger] after.awake[i]).is_flying() by {
        let stay = |b: Bullet| !b.sleep_queued;
        let b = after.awake[i];
        flown.lemma_filter_pred(stay, i);
        assert(flown.filter(stay)[i] == b);
        assert(flown.filter(stay).contains(b));
        flown.lemma_filter_contains_rev(stay, b);
        let j = choose|j: int| 0 <= j < flown.len() && flown[j] == b;
        assert(pool.awake[j].is_flying());
        assert(b == pool.awake[j].stepped(dt, frame));
    }
}

/// A tick keeps the capacity of a pool, valid or not.
pub proof fn lemma_step_keeps_capacity(pool: PoolView, dt: u32, frame: FrameView)
    ensures
        pool.step(dt, frame).capacity() == pool.capacity(),
{
    lemma_sorted_parts(pool.flown(dt, frame));
}

/// The two parts into which bullets are sorted hold every bullet once.
proof fn lemma_sorted_parts(s: Seq<Bullet>)
    ensures
        kept(s).len() + retired(s).len() == s.len(),
    decreases s.len(),
{
    if s.len() == 0 {
        assert(kept(s).len() == 0 && retired(s).len() == 0) by {
            reveal(Seq::filter);
        }
    } else {
        lemma_sorted_parts(s.drop_last());
        lemma_sort_one(s.drop_last(), s.last());
        assert(s.drop_last().push(s.last()) =~= s);
    }
}

} // verus!
