//! The arena: the ships, the rocks and the bullets, and the tick that
//! advances them all against one frame.
//!
//! The arena does not hold what a ship shares with its control program:
//! each link stays with whoever guards it. A tick can be run in one piece
//! over all links at once, or ship by ship, so that each link is only
//! needed for as long as its own ship has its turn.

use vstd::prelude::*;
use crate::bullet::{BulletPool, PoolExhausted, PoolView};
use crate::collision::{
    layer_map, shapes_of, Circle, CollisionFrame, CollisionLayer, FrameView, BULLET_LAYER,
    ROCK_LAYER, SHIP_LAYER,
};
use crate::math::Vector2;
use crate::rock::Rock;
use crate::ship::api::{slot_view, Context, ContextView};
use crate::ship::{Ship, ShipView, State};

verus! {

/// The circles that a sequence of ships occupies.
pub open spec fn ship_shapes(ships: Seq<ShipView>) -> Seq<Circle> {
    Seq::new(ships.len(), |i: int| ships[i].shape())
}

/// The number of ships that have not been destroyed.
pub open spec fn alive(ships: Seq<ShipView>) -> nat
    decreases ships.len(),
{
    if ships.len() == 0 {
        0
    } else if ships.last().state is Destroyed {
        alive(ships.drop_last())
    } else {
        alive(ships.drop_last()) + 1
    }
}

/// What a list of links holds, a link that is missing as `None`.
pub open spec fn links_view(links: Seq<Option<Context>>) -> Seq<Option<ContextView>> {
    Seq::new(links.len(), |i: int| slot_view(links[i]))
}

/// What an arena holds: its ships, its rocks, its bullets, its size, and
/// whether a round has been won.
pub struct ArenaView {
    pub ships: Seq<ShipView>,
    pub rocks: Seq<Rock>,
    pub pool: PoolView,
    pub width: int,
    pub height: int,
    pub won: bool,
}

/// An arena together with the links of its ships, the link of ship `i` at
/// place `i`.
pub struct Round {
    pub ships: Seq<ShipView>,
    pub links: Seq<Option<ContextView>>,
    pub rocks: Seq<Rock>,
    pub pool: PoolView,
    pub width: int,
    pub height: int,
    pub won: bool,
}

impl ArenaView {
    /// The arena together with the given links.
    pub open spec fn with(self, links: Seq<Option<ContextView>>) -> Round {
        Round {
            ships: self.ships,
            links,
            rocks: self.rocks,
            pool: self.pool,
            width: self.width,
            height: self.height,
            won: self.won,
        }
    }

    /// The frame of the arena as it stands: the shapes of the ships, of the
    /// bullets in flight and of the rocks, each under the name of its layer.
    pub open spec fn frame(self) -> FrameView {
        FrameView {
            layers: Map::empty().insert(SHIP_LAYER@, ship_shapes(self.ships)).insert(
                BULLET_LAYER@,
                shapes_of(self.pool.awake),
            ).insert(ROCK_LAYER@, shapes_of(self.rocks)),
            width: self.width,
            height: self.height,
        }
    }

    /// The arena after ship `i` has had its tick against `frame` with the
    /// given link. The ships share the pool: a shot of one ship leaves one
    /// bullet less for the next.
    pub open spec fn ship_ticked(self, dt: u32, frame: FrameView, i: int, link: ContextView) -> ArenaView {
        let tick = self.ships[i].tick(dt, frame, link.channel, link.handle, self.pool);
        ArenaView { ships: self.ships.update(i, tick.ship), pool: tick.pool, ..self }
    }

    /// The arena after the part of a tick that follows the ticks of the
    /// ships: every rock takes its damage, the bullets fly, and the round is
    /// won once exactly one ship is left.
    pub open spec fn rest(self, dt: u32, frame: FrameView) -> ArenaView {
        ArenaView {
            rocks: Seq::new(self.rocks.len(), |i: int| self.rocks[i].stepped(frame)),
            pool: self.pool.step(dt, frame),
            won: self.won || alive(self.ships) == 1,
            ..self
        }
    }
}

impl Round {
    /// The arena of the round, without the links.
    pub open spec fn arena(self) -> ArenaView {
        ArenaView {
            ships: self.ships,
            rocks: self.rocks,
            pool: self.pool,
            width: self.width,
            height: self.height,
            won: self.won,
        }
    }

    /// Every ship has its link and is in step with it, and the pool is
    /// valid.
    pub open spec fn wf(self) -> bool {
        &&& self.links.len() == self.ships.len()
        &&& forall|i: int|
            0 <= i < self.ships.len() ==> ((#[trigger] self.links[i]) matches Some(link)
                && self.ships[i].in_step(link.channel))
        &&& self.pool.wf()
    }

    /// The link of ship `i`, if the round holds one.
    pub open spec fn link(self, i: int) -> Option<ContextView> {
        if 0 <= i < self.links.len() {
            self.links[i]
        } else {
            None
        }
    }

    /// The round after ship `i` has had its tick against `frame`. A ship
    /// without a link has no tick.
    pub open spec fn ship_ticked(self, dt: u32, frame: FrameView, i: int) -> Round {
        match self.link(i) {
            Some(link) => {
                let tick = self.ships[i].tick(dt, frame, link.channel, link.handle, self.pool);
                self.arena().ship_ticked(dt, frame, i, link).with(
                    self.links.update(
                        i,
                        Some(ContextView { channel: tick.channel, handle: tick.handle }),
                    ),
                )
            },
            None => self,
        }
    }

    /// The shot of ship `i` finds the pool empty in its tick.
    pub open spec fn ship_fails(self, dt: u32, frame: FrameView, i: int) -> bool {
        self.link(i) matches Some(link) && self.ships[i].tick(
            dt,
            frame,
            link.channel,
            link.handle,
            self.pool,
        ).exhausted
    }

    /// The round after its first `n` ships have each had their tick, in
    /// order, against `frame`.
    pub open spec fn ships_after(self, dt: u32, frame: FrameView, n: int) -> Round
        decreases n,
    {
        if n <= 0 {
            self
        } else {
            self.ships_after(dt, frame, n - 1).ship_ticked(dt, frame, n - 1)
        }
    }

    /// Of the first `n` ships, those whose shot found the pool empty.
    pub open spec fn failures(self, dt: u32, frame: FrameView, n: int) -> Seq<usize>
        decreases n,
    {
        if n <= 0 {
            Seq::empty()
        } else if self.ships_after(dt, frame, n - 1).ship_fails(dt, frame, n - 1) {
            self.failures(dt, frame, n - 1).push((n - 1) as usize)
        } else {
            self.failures(dt, frame, n - 1)
        }
    }

    /// The round after a tick of `dt` milliseconds. One frame is taken of
    /// the arena as it stands before the tick; against it the ships have
    /// their ticks in order, then the rocks, then the bullets. The round is
    /// won once exactly one ship is left.
    pub open spec fn step(self, dt: u32) -> Round {
        let frame = self.arena().frame();
        let shipped = self.ships_after(dt, frame, self.ships.len() as int);
        shipped.arena().rest(dt, frame).with(shipped.links)
    }
}

/// The three layers of a frame go by different names, so that each holds the
/// shapes of its own kind and no name stands for another.
pub proof fn lemma_frame_layers(arena: ArenaView)
    ensures
        arena.frame().layers.dom() =~= set![SHIP_LAYER@, BULLET_LAYER@, ROCK_LAYER@],
        arena.frame().layers[SHIP_LAYER@] == ship_shapes(arena.ships),
        arena.frame().layers[BULLET_LAYER@] == shapes_of(arena.pool.awake),
        arena.frame().layers[ROCK_LAYER@] == shapes_of(arena.rocks),
{
    reveal_strlit("ship");
    reveal_strlit("bullet");
    reveal_strlit("rock");
    assert(SHIP_LAYER@.len() == 4);
    assert(BULLET_LAYER@.len() == 6);
    assert(ROCK_LAYER@[0] == 'r');
    assert(SHIP_LAYER@[0] == 's');
}

/// The ticks of the ships change nothing but the ships that had their tick,
/// their links and the pool. No ship or link is added or lost, a ship that
/// was destroyed stays as it was, the pool keeps its capacity, and a valid
/// round stays valid.
pub proof fn lemma_ships_after(round: Round, dt: u32, frame: FrameView, n: int)
    requires
        0 <= n <= round.ships.len(),
    ensures
        ({
            let after = round.ships_after(dt, frame, n);
            &&& after.ships.len() == round.ships.len()
            &&& after.links.len() == round.links.len()
            &&& after.rocks == round.rocks
            &&& after.width == round.width
            &&& after.height == round.height
            &&& after.won == round.won
            &&& after.pool.capacity() == round.pool.capacity()
            &&& forall|i: int|
                n <= i < round.ships.len() ==> after.ships[i] == round.ships[i] && after.link(i)
                    == round.link(i)
            &&& forall|i: int|
                0 <= i < round.links.len() ==> (#[trigger] after.links[i]).is_some()
                    == round.links[i].is_some()
            &&& forall|i: int|
                0 <= i < round.ships.len() && (#[trigger] round.ships[i]).state is Destroyed
                    ==> after.ships[i] == round.ships[i]
            &&& round.wf() ==> after.wf()
        }),
    decreases n,
{
    if n > 0 {
        lemma_ships_after(round, dt, frame, n - 1);
        let before = round.ships_after(dt, frame, n - 1);
        let after = round.ships_after(dt, frame, n);
        assert(after == before.ship_ticked(dt, frame, n - 1));
        if let Some(link) = before.link(n - 1) {
            let ship = before.ships[n - 1];
            let tick = ship.tick(dt, frame, link.channel, link.handle, before.pool);
            if tick.pool != before.pool {
                let shot = seq![(ship.muzzle(), ship.rotation)];
                assert(shot.drop_last() =~= Seq::empty());
                assert(before.pool.shoot_all(Seq::empty()) == before.pool);
                assert(before.pool.shoot_all(shot) == tick.pool);
                assert(tick.pool.capacity() == before.pool.capacity());
            }
            if round.wf() {
                assert(before.links[n - 1] is Some);
                assert(ship.in_step(link.channel));
                crate::ship::lemma_tick_keeps_in_step(
                    ship,
                    dt,
                    frame,
                    link.channel,
                    link.handle,
                    before.pool,
                );
                if tick.pool != before.pool {
                    crate::bullet::lemma_shots_within_capacity(
                        before.pool,
                        seq![(ship.muzzle(), ship.rotation)],
                    );
                }
                assert forall|i: int| 0 <= i < after.ships.len() implies ((
                #[trigger] after.links[i]) matches Some(l) && after.ships[i].in_step(l.channel)) by {
                    if i != n - 1 {
                        assert(before.links[i] is Some);
                    }
                }
            }
        }
    }
}

/// A tick keeps what a round is built on. No ship, link or rock is added or
/// lost; the pool keeps its capacity; a ship that was destroyed stays
/// destroyed, so that none comes back; no rock moves or gains a hit point;
/// a round that was won stays won; and a valid round stays valid.
pub proof fn lemma_step_keeps_the_round(round: Round, dt: u32)
    ensures
        ({
            let after = round.step(dt);
            &&& after.ships.len() == round.ships.len()
            &&& after.links.len() == round.links.len()
            &&& after.rocks.len() == round.rocks.len()
            &&& after.width == round.width
            &&& after.height == round.height
            &&& after.pool.capacity() == round.pool.capacity()
            &&& forall|i: int|
                0 <= i < round.ships.len() && (#[trigger] round.ships[i]).state is Destroyed
                    ==> after.ships[i] == round.ships[i]
            &&& forall|i: int|
                0 <= i < round.rocks.len() ==> (#[trigger] after.rocks[i]).hp <= round.rocks[i].hp
                    && after.rocks[i].pos == round.rocks[i].pos
            &&& round.won ==> after.won
            &&& round.wf() ==> after.wf()
        }),
{
    let frame = round.arena().frame();
    let count = round.ships.len() as int;
    lemma_ships_after(round, dt, frame, count);
    let shipped = round.ships_after(dt, frame, count);
    crate::bullet::lemma_step_keeps_capacity(shipped.pool, dt, frame);
    if round.wf() {
        crate::bullet::lemma_step_sorts_every_bullet(shipped.pool, dt, frame);
    }
}

/// A destroyed ship keeps its place among the ships, and its entry in the
/// layer of the ships, but the entry is an empty circle, before a tick and
/// after it: the ship adds nothing to what collides with that layer.
pub proof fn lemma_destroyed_ship_in_frame(round: Round, dt: u32, i: int)
    requires
        0 <= i < round.ships.len(),
        round.ships[i].state is Destroyed,
    ensures
        round.arena().frame().layers[SHIP_LAYER@].len() == round.ships.len(),
        round.arena().frame().layers[SHIP_LAYER@][i] == Circle::nowhere(),
        round.step(dt).ships[i].state is Destroyed,
        round.step(dt).arena().frame().layers[SHIP_LAYER@][i] == Circle::nowhere(),
        forall|other: Circle|
            !crate::collision::circles_collide(round.arena().frame().layers[SHIP_LAYER@][i], other),
{
    lemma_frame_layers(round.arena());
    lemma_frame_layers(round.step(dt).arena());
    lemma_step_keeps_the_round(round, dt);
}

/// The arena of one round.
pub struct Arena {
    ships: Vec<Ship>,
    rocks: Vec<Rock>,
    bullet_pool: BulletPool,
    width: i32,
    height: i32,
    ship_did_win: bool,
}

impl View for Arena {
    type V = ArenaView;

    closed spec fn view(&self) -> ArenaView {
        ArenaView {
            ships: Seq::new(self.ships@.len(), |i: int| self.ships@[i]@),
            rocks: self.rocks@,
            pool: self.bullet_pool@,
            width: self.width as int,
            height: self.height as int,
            won: self.ship_did_win,
        }
    }
}

impl Arena {
    /// An empty arena of the given size with `count` bullets.
    pub fn new(width: i32, height: i32, count: usize) -> (arena: Arena)
        ensures
            arena@ == (ArenaView {
                ships: Seq::empty(),
                rocks: Seq::empty(),
                pool: PoolView::fresh(count as nat),
                width: width as int,
                height: height as int,
                won: false,
            }),
            arena@.pool.wf(),
    {
        let arena = Arena {
            ships: Vec::new(),
            rocks: Vec::new(),
            bullet_pool: BulletPool::new(count),
            width,
            height,
            ship_did_win: false,
        };
        assert(arena@.ships =~= Seq::empty());
        arena
    }

    /// Puts a waiting ship called `name` at `(x, y)` and gives its number.
    /// The link of the ship is for the caller to make and to keep.
    pub fn add_ship(&mut self, name: String, x: i32, y: i32) -> (index: usize)
        ensures
            index == old(self)@.ships.len(),
            final(self)@ == (ArenaView {
                ships: old(self)@.ships.push(
                    ShipView { name: name@, pos: Vector2 { x, y }, rotation: 0, state: State::Waiting },
                ),
                ..old(self)@
            }),
    {
        let index = self.ships.len();
        self.ships.push(Ship::new(name, x, y));
        assert(self@.ships =~= old(self)@.ships.push(self.ships@[index as int]@));
        index
    }

    /// Puts a rock at `(x, y)`.
    pub fn add_rock(&mut self, x: i32, y: i32)
        ensures
            final(self)@ == (ArenaView {
                rocks: old(self)@.rocks.push(Rock::fresh(x, y)),
                ..old(self)@
            }),
    {
        self.rocks.push(Rock::new(x, y));
        assert(self@.ships =~= old(self)@.ships);
    }

    /// Takes the frame of the arena as it stands.
    pub fn frame(&mut self) -> (frame: CollisionFrame)
        ensures
            final(self)@ == old(self)@,
            frame@ == old(self)@.frame(),
    {
        let ships = CollisionLayer::from(self.ships.as_slice());
        let bullets = self.bullet_pool.collision_layer();
        let rocks = CollisionLayer::from(self.rocks.as_slice());
        let mut layers: Vec<(&'static str, CollisionLayer)> = Vec::new();
        layers.push((SHIP_LAYER, ships));
        layers.push((BULLET_LAYER, bullets));
        layers.push((ROCK_LAYER, rocks));
        proof {
            assert(ships@ =~= ship_shapes(old(self)@.ships));
            assert(self@.ships =~= old(self)@.ships);
            let all = layers@;
            let two = all.drop_last();
            let one = two.drop_last();
            assert(one.drop_last() =~= Seq::empty());
            assert(layer_map(one.drop_last()) =~= Map::empty());
            assert(layer_map(one) == layer_map(one.drop_last()).insert(one.last().0@, one.last().1@));
            assert(layer_map(two) == layer_map(one).insert(two.last().0@, two.last().1@));
            assert(layer_map(all) == layer_map(two).insert(all.last().0@, all.last().1@));
        }
        CollisionFrame::within(layers, self.width, self.height)
    }

    /// Gives ship `ship` its tick of `dt` milliseconds against
    /// `collision_frame`, with its link: see [`crate::ship::ShipView::tick`].
    /// Fails where the ship shoots and the pool is empty. A number that
    /// stands for no ship changes nothing.
    pub fn update_ship(
        &mut self,
        ship: usize,
        dt: u32,
        collision_frame: &CollisionFrame,
        link: &mut Context,
    ) -> (res: Result<(), PoolExhausted>)
        ensures
            ship >= old(self)@.ships.len() ==> res.is_ok() && final(self)@ == old(self)@
                && final(link)@ == old(link)@,
            ship < old(self)@.ships.len() ==> {
                let tick = old(self)@.ships[ship as int].tick(
                    dt,
                    collision_frame@,
                    old(link).channel@,
                    old(link).handle@,
                    old(self)@.pool,
                );
                &&& final(self)@ == old(self)@.ship_ticked(
                    dt,
                    collision_frame@,
                    ship as int,
                    old(link)@,
                )
                &&& final(link).channel@ == tick.channel
                &&& final(link).handle@ == tick.handle
                &&& res.is_err() == tick.exhausted
            },
    {
        if ship >= self.ships.len() {
            Ok(())
        } else {
            let res = self.ships[ship].update(dt, collision_frame, link, &mut self.bullet_pool);
            assert(self@.ships =~= old(self)@.ships.update(ship as int, self.ships@[ship as int]@));
            res
        }
    }

    /// Carries out the part of a tick that follows the ticks of the ships:
    /// see [`ArenaView::rest`].
    pub fn update_rest(&mut self, dt: u32, collision_frame: &CollisionFrame)
        ensures
            final(self)@ == old(self)@.rest(dt, collision_frame@),
    {
        let ghost start = self@;
        let rocks = self.rocks.len();
        let mut j: usize = 0;
        while j < rocks
            invariant
                j <= rocks,
                rocks == start.rocks.len(),
                self@.rocks.len() == rocks,
                forall|k: int| 0 <= k < j ==> self@.rocks[k] == start.rocks[k].stepped(collision_frame@),
                forall|k: int| j <= k < rocks ==> self@.rocks[k] == start.rocks[k],
                self@ == (ArenaView { rocks: self@.rocks, ..start }),
            decreases rocks - j,
        {
            self.rocks[j].update(collision_frame);
            assert(self@.ships =~= start.ships);
            j += 1;
        }
        self.bullet_pool.update(dt, collision_frame);
        let living = self.count_alive();
        if living == 1 && !self.ship_did_win {
            self.ship_did_win = true;
        }
        proof {
            assert(self@.ships =~= start.ships);
            assert(self@.rocks =~= start.rest(dt, collision_frame@).rocks);
        }
    }

    /// Advances the arena and the links of its ships by one tick of `dt`
    /// milliseconds: see [`Round::step`]. The link of ship `i` is
    /// `links[i]`; a ship whose link is missing has no tick. Gives the
    /// numbers of the ships whose shot found the pool empty.
    pub fn update(&mut self, dt: u32, links: &mut Vec<Option<Context>>) -> (failed: Vec<usize>)
        ensures
            final(self)@.with(links_view(final(links)@)) == old(self)@.with(
                links_view(old(links)@),
            ).step(dt),
            failed@ == old(self)@.with(links_view(old(links)@)).failures(
                dt,
                old(self)@.frame(),
                old(self)@.ships.len() as int,
            ),
            old(self)@.with(links_view(old(links)@)).wf() ==> final(self)@.with(
                links_view(final(links)@),
            ).wf(),
    {
        let frame = self.frame();
        let ghost start = self@.with(links_view(links@));
        let count = self.ships.len();
        let mut failed: Vec<usize> = Vec::new();
        let mut i: usize = 0;
        while i < count
            invariant
                i <= count,
                count == start.ships.len(),
                frame@ == start.arena().frame(),
                self@.with(links_view(links@)) == start.ships_after(dt, frame@, i as int),
                failed@ == start.failures(dt, frame@, i as int),
            decreases count - i,
        {
            let ghost before = self@.with(links_view(links@));
            proof {
                lemma_ships_after(start, dt, frame@, i as int);
            }
            if i < links.len() {
                match &mut links[i] {
                    Some(link) => {
                        if self.update_ship(i, dt, &frame, link).is_err() {
                            failed.push(i);
                        }
                    },
                    None => {},
                }
            }
            proof {
                let after = before.ship_ticked(dt, frame@, i as int);
                assert(links_view(links@) =~= after.links);
                assert(self@.ships =~= after.ships);
            }
            i += 1;
        }
        self.update_rest(dt, &frame);
        proof {
            lemma_ships_after(start, dt, frame@, count as int);
            lemma_step_keeps_the_round(start, dt);
        }
        failed
    }

    /// Counts the ships that have not been destroyed.
    pub fn count_alive(&self) -> (living: usize)
        ensures
            living == alive(self@.ships),
    {
        let mut living: usize = 0;
        let mut i: usize = 0;
        while i < self.ships.len()
            invariant
                i <= self.ships@.len(),
                living <= i,
                living == alive(self@.ships.take(i as int)),
            decreases self.ships@.len() - i,
        {
            assert(self@.ships.take(i as int + 1).drop_last() =~= self@.ships.take(i as int));
            if !self.ships[i].is_destroyed() {
                living += 1;
            }
            i += 1;
        }
        assert(self@.ships.take(i as int) =~= self@.ships);
        living
    }

    /// Tells whether at the end of some tick exactly one ship was left.
    pub fn ship_did_win(&self) -> (won: bool)
        ensures
            won == self@.won,
    {
        self.ship_did_win
    }

    /// Finds the first ship that has not been destroyed.
    pub fn survivor(&self) -> (found: Option<usize>)
        ensures
            match found {
                Some(i) => {
                    &&& i < self@.ships.len()
                    &&& !(self@.ships[i as int].state is Destroyed)
                    &&& forall|j: int| 0 <= j < i ==> (#[trigger] self@.ships[j]).state is Destroyed
                },
                None => forall|j: int|
                    0 <= j < self@.ships.len() ==> (#[trigger] self@.ships[j]).state is Destroyed,
            },
    {
        let mut i: usize = 0;
        while i < self.ships.len()
            invariant
                i <= self.ships@.len(),
                forall|j: int| 0 <= j < i ==> (#[trigger] self@.ships[j]).state is Destroyed,
            decreases self.ships@.len() - i,
        {
            if !self.ships[i].is_destroyed() {
                return Some(i);
            }
            i += 1;
        }
        None
    }

    /// The number of ships, destroyed or not.
    pub fn ship_count(&self) -> (count: usize)
        ensures
            count == self@.ships.len(),
    {
        self.ships.len()
    }

    /// The ship with the number `index`, if the arena holds so many.
    pub fn ship(&self, index: usize) -> (ship: Option<&Ship>)
        ensures
            index >= self@.ships.len() ==> ship.is_none(),
            index < self@.ships.len() ==> (ship matches Some(found) && found@
                == self@.ships[index as int]),
    {
        if index < self.ships.len() {
            Some(&self.ships[index])
        } else {
            None
        }
    }

    /// The rocks of the arena.
    pub fn rocks(&self) -> (rocks: &Vec<Rock>)
        ensures
            rocks@ == self@.rocks,
    {
        &self.rocks
    }

    /// The pool of the arena.
    pub fn bullet_pool(&self) -> (pool: &BulletPool)
        ensures
            pool@ == self@.pool,
    {
        &self.bullet_pool
    }
}

} // verus!
