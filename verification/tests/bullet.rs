use robot_arena::bullet::{Bullet, BulletPool, PoolExhausted};
use robot_arena::collision::{Circle, CollisionFrame, CollisionLayer};
use robot_arena::math::Vector2;
use robot_arena::object::Object;
use robot_arena::rock::Rock;

fn empty_frame() -> CollisionFrame {
    CollisionFrame::new(Vec::new())
}

fn frame_with(ships: &[Circle], rocks: &[Rock]) -> CollisionFrame {
    CollisionFrame::new(vec![
        ("ship", CollisionLayer::from(ships)),
        ("rock", CollisionLayer::from(rocks)),
    ])
}

#[test]
fn new_bullet_has_its_full_lifetime() {
    let b = Bullet::new();
    assert_eq!(b, Bullet { pos: Vector2::zero(), rotation: 0, lifetime: 3000, sleep_queued: false });
    assert_eq!(b.get_shape(), Circle::new(Vector2::zero(), 10_000));
}

#[test]
fn bullet_flies_four_hundred_units_a_second() {
    let mut b = Bullet::new();
    b.update(100, &empty_frame());
    assert_eq!(b.pos, Vector2::new(40_000, 0));
    assert_eq!(b.lifetime, 2900);
    assert!(!b.sleep_queued);
    b.rotation = 90_000;
    b.update(16, &empty_frame());
    assert_eq!(b.pos, Vector2::new(40_000, 6_400));
    assert_eq!(b.lifetime, 2884);
}

#[test]
fn bullet_is_due_when_its_lifetime_runs_out() {
    let mut b = Bullet::new();
    b.update(2999, &empty_frame());
    assert_eq!(b.lifetime, 1);
    assert!(!b.sleep_queued);
    b.update(1, &empty_frame());
    assert_eq!(b.lifetime, 0);
    assert!(b.sleep_queued);
    let mut c = Bullet::new();
    c.update(u32::MAX, &empty_frame());
    assert_eq!(c.lifetime, 0);
    assert!(c.sleep_queued);
}

#[test]
fn bullet_is_due_when_it_collides_where_it_arrives() {
    let mut b = Bullet::new();
    b.pos = Vector2::new(100_000, 100_000);
    let reached = frame_with(&[], &[Rock::new(195_000, 100_000)]);
    b.update(100, &reached);
    assert_eq!(b.pos, Vector2::new(140_000, 100_000));
    assert!(b.sleep_queued);
    let mut c = Bullet::new();
    c.pos = Vector2::new(100_000, 100_000);
    let ahead = frame_with(&[], &[Rock::new(195_001, 100_000)]);
    c.update(100, &ahead);
    assert_eq!(c.pos, Vector2::new(140_000, 100_000));
    assert!(!c.sleep_queued);
    c.update(1, &ahead);
    assert!(c.sleep_queued);
}

#[test]
fn bullet_that_ends_inside_a_rock_is_due() {
    let mut b = Bullet::new();
    b.pos = Vector2::new(100_000, 100_000);
    b.update(125, &frame_with(&[], &[Rock::new(200_000, 100_000)]));
    assert_eq!(b.pos, Vector2::new(150_000, 100_000));
    assert_eq!(b.lifetime, 2875);
    assert!(b.sleep_queued);
}

#[test]
fn bullet_that_leaves_what_it_stood_in_is_not_due() {
    let mut b = Bullet::new();
    b.pos = Vector2::new(100_000, 100_000);
    let ships = [Circle::new(Vector2::new(100_000, 100_000), 20_000)];
    b.update(100, &frame_with(&ships, &[]));
    assert_eq!(b.pos, Vector2::new(140_000, 100_000));
    assert!(!b.sleep_queued);
    let mut c = Bullet::new();
    c.pos = Vector2::new(100_000, 100_000);
    c.update(75, &frame_with(&ships, &[]));
    assert_eq!(c.pos, Vector2::new(130_000, 100_000));
    assert!(c.sleep_queued);
}

#[test]
fn bullet_ignores_bullets() {
    let mut b = Bullet::new();
    let others = [Circle::new(Vector2::new(1, 1), 10_000)];
    let frame = CollisionFrame::new(vec![("bullet", CollisionLayer::from(&others))]);
    b.update(10, &frame);
    assert!(!b.sleep_queued);
}

#[test]
fn pool_serves_exactly_its_capacity() {
    let mut pool = BulletPool::new(3);
    assert_eq!(pool.available(), 3);
    assert_eq!(pool.shoot(Vector2::new(1, 1), 0), Ok(()));
    assert_eq!(pool.shoot(Vector2::new(2, 2), 0), Ok(()));
    assert_eq!(pool.shoot(Vector2::new(3, 3), 0), Ok(()));
    assert_eq!(pool.available(), 0);
    assert_eq!(pool.awake().len(), 3);
    assert_eq!(pool.shoot(Vector2::new(4, 4), 0), Err(PoolExhausted));
    assert_eq!(pool.awake().len(), 3);
    assert_eq!(pool.available(), 0);
}

#[test]
fn empty_pool_serves_nothing() {
    let mut pool = BulletPool::new(0);
    assert_eq!(pool.shoot(Vector2::zero(), 0), Err(PoolExhausted));
    assert_eq!(pool.awake().len(), 0);
    pool.update(100, &empty_frame());
    assert_eq!(pool.available(), 0);
}

#[test]
fn exhaustion_is_reported_in_words() {
    assert_eq!(PoolExhausted.message(), "Ran out of bullets.");
}

#[test]
fn latest_shot_stands_first() {
    let mut pool = BulletPool::new(2);
    pool.shoot(Vector2::new(1, 1), 10).unwrap();
    pool.shoot(Vector2::new(2, 2), 20).unwrap();
    assert_eq!(pool.awake()[0].pos, Vector2::new(2, 2));
    assert_eq!(pool.awake()[0].rotation, 20);
    assert_eq!(pool.awake()[1].pos, Vector2::new(1, 1));
    assert_eq!(pool.awake()[1].rotation, 10);
}

#[test]
fn collision_layer_holds_the_bullets_in_flight() {
    let mut pool = BulletPool::new(3);
    pool.shoot(Vector2::new(100_000, 100_000), 0).unwrap();
    pool.shoot(Vector2::new(500_000, 500_000), 0).unwrap();
    let layer = pool.collision_layer();
    assert!(layer.check_collision(Circle::new(Vector2::new(100_000, 115_000), 5_000)));
    assert!(layer.check_collision(Circle::new(Vector2::new(500_000, 485_000), 5_000)));
    assert!(!layer.check_collision(Circle::new(Vector2::new(0, 0), 5_000)));
    assert!(!layer.check_collision(Circle::new(Vector2::new(100_000, 115_001), 5_000)));
    assert_eq!(pool.awake().len(), 2);
    assert_eq!(pool.available(), 1);
    assert_eq!(pool.get_shape(), Circle::empty());
}

#[test]
fn recycling_resets_the_lifetime_exactly() {
    let mut pool = BulletPool::new(1);
    pool.shoot(Vector2::new(100_000, 100_000), 0).unwrap();
    pool.update(1234, &empty_frame());
    assert_eq!(pool.awake()[0].lifetime, 1766);
    pool.update(1766, &empty_frame());
    assert_eq!(pool.awake().len(), 0);
    assert_eq!(pool.available(), 1);
    pool.shoot(Vector2::new(500_000, 500_000), 180_000).unwrap();
    assert_eq!(
        pool.awake()[0],
        Bullet {
            pos: Vector2::new(500_000, 500_000),
            rotation: 180_000,
            lifetime: 3000,
            sleep_queued: false,
        }
    );
}

#[test]
fn recycled_bullet_flies_a_full_lifetime_again() {
    let mut pool = BulletPool::new(1);
    pool.shoot(Vector2::new(100_000, 100_000), 0).unwrap();
    pool.update(3000, &empty_frame());
    assert_eq!(pool.available(), 1);
    pool.shoot(Vector2::new(100_000, 100_000), 90_000).unwrap();
    pool.update(100, &empty_frame());
    assert_eq!(pool.awake().len(), 1);
    assert_eq!(pool.awake()[0].lifetime, 2900);
    assert!(!pool.awake()[0].sleep_queued);
    pool.update(2899, &empty_frame());
    assert_eq!(pool.awake().len(), 1);
    assert_eq!(pool.awake()[0].lifetime, 1);
    pool.update(1, &empty_frame());
    assert_eq!(pool.awake().len(), 0);
    assert_eq!(pool.available(), 1);
}

#[test]
fn bullet_hit_by_many_is_recycled_once() {
    let mut pool = BulletPool::new(2);
    pool.shoot(Vector2::new(500_000, 500_000), 0).unwrap();
    let ships = [
        Circle::new(Vector2::new(490_000, 500_000), 20_000),
        Circle::new(Vector2::new(510_000, 500_000), 20_000),
    ];
    let rocks = [Rock::new(500_000, 520_000)];
    let frame = frame_with(&ships, &rocks);
    assert!(frame.check_collision(vec!["ship"], pool.awake()[0].get_shape()));
    assert!(frame.check_collision(vec!["rock"], pool.awake()[0].get_shape()));
    pool.update(16, &frame);
    assert_eq!(pool.awake().len(), 0);
    assert_eq!(pool.available(), 2);
    assert_eq!(pool.shoot(Vector2::zero(), 0), Ok(()));
    assert_eq!(pool.shoot(Vector2::zero(), 0), Ok(()));
    assert_eq!(pool.shoot(Vector2::zero(), 0), Err(PoolExhausted));
}

#[test]
fn update_keeps_the_order_of_those_in_flight() {
    let mut pool = BulletPool::new(4);
    pool.shoot(Vector2::new(100_000, 100_000), 0).unwrap();
    pool.shoot(Vector2::new(500_000, 500_000), 0).unwrap();
    pool.shoot(Vector2::new(100_000, 300_000), 0).unwrap();
    pool.shoot(Vector2::new(500_000, 700_000), 0).unwrap();
    let rocks = [Rock::new(500_000, 500_000), Rock::new(500_000, 700_000)];
    pool.update(10, &frame_with(&[], &rocks));
    assert_eq!(pool.awake().len(), 2);
    assert_eq!(pool.available(), 2);
    assert_eq!(pool.awake()[0].pos, Vector2::new(104_000, 300_000));
    assert_eq!(pool.awake()[1].pos, Vector2::new(104_000, 100_000));
    assert_eq!(pool.awake()[0].lifetime, 2990);
}

#[test]
fn recycled_bullets_are_served_again_last_recycled_first() {
    let mut pool = BulletPool::new(2);
    pool.shoot(Vector2::new(100_000, 100_000), 0).unwrap();
    pool.shoot(Vector2::new(100_000, 300_000), 0).unwrap();
    pool.update(3000, &empty_frame());
    assert_eq!(pool.available(), 2);
    assert_eq!(pool.awake().len(), 0);
    pool.shoot(Vector2::new(7, 7), 0).unwrap();
    assert_eq!(pool.awake()[0].pos, Vector2::new(7, 7));
    assert_eq!(pool.awake()[0].lifetime, 3000);
    assert_eq!(pool.available(), 1);
}

#[test]
fn tick_of_no_time_changes_nothing_in_flight() {
    let mut pool = BulletPool::new(1);
    pool.shoot(Vector2::new(100_000, 100_000), 45_000).unwrap();
    pool.update(0, &empty_frame());
    assert_eq!(pool.awake().len(), 1);
    assert_eq!(pool.awake()[0].pos, Vector2::new(100_000, 100_000));
    assert_eq!(pool.awake()[0].lifetime, 3000);
}
