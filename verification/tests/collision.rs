use robot_arena::collision::{
    check_collision_circles, circles_touching, Circle, CollisionFrame, CollisionLayer,
};
use robot_arena::math::Vector2;
use robot_arena::object::{any_colliding, is_colliding, Object};
use robot_arena::rock::Rock;

fn circle(x: i32, y: i32, radius: u32) -> Circle {
    Circle::new(Vector2::new(x, y), radius)
}

fn frame_of(ships: &[Circle], rocks: &[Circle]) -> CollisionFrame {
    CollisionFrame::new(vec![
        ("ship", CollisionLayer::from(ships)),
        ("rock", CollisionLayer::from(rocks)),
    ])
}

#[test]
fn circles_that_touch_collide() {
    assert!(check_collision_circles(circle(0, 0, 10), circle(15, 0, 5)));
    assert!(!check_collision_circles(circle(0, 0, 10), circle(16, 0, 5)));
    assert!(check_collision_circles(circle(0, 0, 10), circle(9, 12, 5)));
    assert!(!check_collision_circles(circle(0, 0, 10), circle(9, 13, 5)));
}

#[test]
fn empty_circles_never_collide() {
    assert!(!check_collision_circles(circle(0, 0, 0), circle(0, 0, 5)));
    assert!(!check_collision_circles(circle(0, 0, 5), circle(1, 1, 0)));
    assert!(!check_collision_circles(circle(0, 0, 0), circle(0, 0, 0)));
    assert!(!check_collision_circles(Circle::empty(), circle(0, 0, 1_000_000)));
}

#[test]
fn a_circle_never_collides_with_itself() {
    let c = circle(70_000, -3, 20_000);
    assert!(!check_collision_circles(c, c));
    assert!(check_collision_circles(c, circle(70_000, -3, 20_001)));
}

#[test]
fn collision_at_the_limits_of_the_coordinates() {
    let a = circle(i32::MIN, i32::MIN, u32::MAX);
    let b = circle(i32::MAX, i32::MAX, u32::MAX);
    assert!(check_collision_circles(a, b));
    let c = circle(i32::MIN, i32::MIN, 1);
    let d = circle(i32::MAX, i32::MAX, 1);
    assert!(!check_collision_circles(c, d));
}

#[test]
fn touching_makes_no_exception() {
    let c = circle(5, 5, 3);
    assert!(circles_touching(c, c));
    assert!(circles_touching(circle(0, 0, 0), circle(0, 0, 0)));
    assert!(circles_touching(circle(0, 0, 0), circle(0, 0, 10)));
    assert!(!circles_touching(circle(0, 0, 0), circle(1, 0, 0)));
}

#[test]
fn bodies_collide_as_their_circles_do() {
    assert!(is_colliding(&Rock::new(0, 0), &Rock::new(90_000, 0)));
    assert!(!is_colliding(&Rock::new(0, 0), &Rock::new(90_001, 0)));
    assert!(is_colliding(&circle(0, 0, 10), &circle(15, 0, 5)));
    assert!(!is_colliding(&circle(0, 0, 10), &circle(16, 0, 5)));
}

#[test]
fn body_that_occupies_nothing_collides_with_nothing() {
    let point = circle(0, 0, 0);
    let disc = circle(0, 0, 10);
    assert!(!is_colliding(&point, &disc));
    assert!(!is_colliding(&disc, &point));
    assert!(!is_colliding(&point, &point));
    let mut worn = Rock::new(0, 0);
    worn.hp = 0;
    assert!(!is_colliding(&worn, &Rock::new(10_000, 0)));
    assert!(!is_colliding(&Rock::new(10_000, 0), &worn));
    let rocks = vec![Rock::new(0, 0)];
    assert!(!is_colliding(&rocks, &Rock::new(0, 10)));
    assert!(!any_colliding(&rocks, &point));
    assert!(!any_colliding(&[point, point], &disc));
}

#[test]
fn body_does_not_collide_with_its_own_circle() {
    let c = circle(5, 5, 3);
    assert!(!is_colliding(&c, &c));
    assert!(!is_colliding(&Rock::new(7, 7), &Rock::new(7, 7)));
    assert!(!any_colliding(&[c], &c));
    assert!(any_colliding(&[c, circle(5, 5, 4)], &c));
}

#[test]
fn any_colliding_looks_at_every_body() {
    let rocks = [Rock::new(0, 0), Rock::new(500_000, 0)];
    assert!(any_colliding(&rocks, &circle(540_000, 0, 1)));
    assert!(!any_colliding(&rocks, &circle(250_000, 0, 1)));
    let none: [Rock; 0] = [];
    assert!(!any_colliding(&none, &circle(0, 0, 1)));
}

#[test]
fn layer_collects_shapes() {
    let rocks = [Rock::new(0, 0), Rock::new(500_000, 0)];
    let layer = CollisionLayer::from(&rocks);
    assert!(layer.check_collision(circle(50_000, 0, 10_000)));
    assert!(layer.check_collision(circle(500_000, 50_000, 10_000)));
    assert!(!layer.check_collision(circle(250_000, 0, 10_000)));
    assert!(!layer.check_collision(rocks[0].get_shape()));
    let empty: [Rock; 0] = [];
    assert!(!CollisionLayer::from(&empty).check_collision(circle(0, 0, 10_000)));
}

#[test]
fn frame_checks_only_the_named_layers() {
    let frame = frame_of(&[circle(0, 0, 20_000)], &[circle(500_000, 0, 45_000)]);
    let probe = circle(10_000, 0, 10_000);
    assert!(frame.check_collision(vec!["ship"], probe));
    assert!(!frame.check_collision(vec!["rock"], probe));
    assert!(frame.check_collision(vec!["rock", "ship"], probe));
    assert!(frame.check_collision(vec!["ship", "rock"], probe));
    assert!(!frame.check_collision(vec![], probe));
}

#[test]
fn absent_layer_contributes_nothing() {
    let frame = frame_of(&[circle(0, 0, 20_000)], &[]);
    let probe = circle(10_000, 0, 10_000);
    assert!(!frame.check_collision(vec!["bullet"], probe));
    assert!(!frame.check_collision(vec!["Ship"], probe));
    assert!(frame.check_collision(vec!["bullet", "ship", "nothing"], probe));
}

#[test]
fn last_layer_of_a_name_counts() {
    let first = [circle(0, 0, 20_000)];
    let second = [circle(500_000, 0, 20_000)];
    let frame = CollisionFrame::new(vec![
        ("rock", CollisionLayer::from(&first)),
        ("rock", CollisionLayer::from(&second)),
    ]);
    assert!(!frame.check_collision(vec!["rock"], circle(10_000, 0, 10_000)));
    assert!(frame.check_collision(vec!["rock"], circle(510_000, 0, 10_000)));
}

#[test]
fn degenerate_shape_hits_no_frame() {
    let frame = frame_of(&[circle(0, 0, 20_000)], &[circle(0, 0, 45_000)]);
    assert!(!frame.check_collision(vec!["ship", "rock"], Circle::empty()));
    assert!(!frame.check_collision(vec!["ship", "rock"], circle(0, 0, 0)));
    assert!(!frame.check_collision(vec!["ship"], circle(0, 0, 20_000)));
    assert!(frame.check_collision(vec!["ship", "rock"], circle(0, 0, 20_000)));
}

#[test]
fn ray_reports_the_surface_of_what_it_hits() {
    let frame = frame_of(&[], &[Rock::new(300_000, 100_000).get_shape()]);
    let hit = frame.raycast(vec!["ship", "rock"], Vector2::new(100_000, 100_000), 0, 20_000);
    assert_eq!(hit, (String::from("rock"), 160_000));
}

#[test]
fn ray_hits_at_its_origin() {
    let frame = frame_of(&[], &[Rock::new(100_000, 100_000).get_shape()]);
    let hit = frame.raycast(vec!["rock"], Vector2::new(100_000, 100_000), 0, 20_000);
    assert_eq!(hit, (String::from("rock"), 20_000));
}

#[test]
fn ray_gives_up_after_the_maximum_length() {
    let frame = frame_of(&[], &[]);
    let hit = frame.raycast(vec!["ship", "rock"], Vector2::new(100_000, 100_000), 0, 20_000);
    assert_eq!(hit, (String::from("none"), 1_020_000));
    let fine = frame.raycast(vec!["ship", "rock"], Vector2::new(100_000, 100_000), 0, 1);
    assert_eq!(fine, (String::from("none"), 1_000_001));
}

#[test]
fn ray_stops_at_the_wall() {
    let frame = frame_of(&[], &[]);
    let hit = frame.raycast(vec!["ship", "rock"], Vector2::new(1_200_000, 100_000), 0, 20_000);
    assert_eq!(hit, (String::from("wall"), 80_000));
    let up = frame.raycast(vec!["ship", "rock"], Vector2::new(100_000, 50_000), 270_000, 20_000);
    assert_eq!(up, (String::from("wall"), 60_000));
    let down = frame.raycast(vec!["rock"], Vector2::new(100_000, 900_000), 90_000, 20_000);
    assert_eq!(down, (String::from("wall"), 60_000));
}

#[test]
fn ray_from_outside_the_arena_is_at_the_wall() {
    let frame = frame_of(&[], &[]);
    let hit = frame.raycast(vec!["rock"], Vector2::new(-5, 0), 0, 20_000);
    assert_eq!(hit, (String::from("wall"), 0));
    let edge = frame.raycast(vec!["rock"], Vector2::new(1_280_000, 0), 180_000, 20_000);
    assert_eq!(edge, (String::from("wall"), 0));
}

#[test]
fn maximum_length_is_tested_before_the_wall() {
    let frame = frame_of(&[], &[]);
    let long = frame.raycast(vec!["rock"], Vector2::new(0, 0), 0, 2_000_000);
    assert_eq!(long, (String::from("none"), 2_000_000));
    let short = frame.raycast(vec!["rock"], Vector2::new(400_000, 0), 0, 1_000_000);
    assert_eq!(short, (String::from("wall"), 1_000_000));
}

#[test]
fn ray_tests_the_probe_before_the_wall() {
    let frame = frame_of(&[], &[circle(1_290_000, 100_000, 45_000)]);
    let hit = frame.raycast(vec!["rock"], Vector2::new(1_285_000, 100_000), 0, 20_000);
    assert_eq!(hit, (String::from("rock"), 20_000));
}

#[test]
fn ray_in_a_wider_arena() {
    let frame = CollisionFrame::within(Vec::new(), 2_000_000, 2_000_000);
    let hit = frame.raycast(vec!["rock"], Vector2::new(1_900_000, 100_000), 0, 20_000);
    assert_eq!(hit, (String::from("wall"), 100_000));
    let small = CollisionFrame::within(Vec::new(), 0, 0);
    let out = small.raycast(vec!["rock"], Vector2::new(0, 0), 0, 20_000);
    assert_eq!(out, (String::from("wall"), 0));
}

#[test]
fn later_name_wins_a_tie() {
    let both = circle(300_000, 100_000, 45_000);
    let frame = frame_of(&[both], &[both]);
    let origin = Vector2::new(100_000, 100_000);
    let one = frame.raycast(vec!["ship", "rock"], origin, 0, 20_000);
    assert_eq!(one, (String::from("rock"), 160_000));
    let other = frame.raycast(vec!["rock", "ship"], origin, 0, 20_000);
    assert_eq!(other, (String::from("ship"), 160_000));
}

#[test]
fn nearer_layer_beats_later_name() {
    let frame = frame_of(&[circle(200_000, 100_000, 20_000)], &[circle(400_000, 100_000, 45_000)]);
    let hit = frame.raycast(vec!["ship", "rock"], Vector2::new(100_000, 100_000), 0, 20_000);
    assert_eq!(hit, (String::from("ship"), 80_000));
}

#[test]
fn ray_skips_a_probe_sized_twin() {
    let frame = frame_of(&[], &[circle(140_000, 100_000, 20_000)]);
    let hit = frame.raycast(vec!["rock"], Vector2::new(100_000, 100_000), 0, 20_000);
    assert_eq!(hit, (String::from("rock"), 20_000));
    let alone = frame_of(&[], &[circle(100_000, 100_000, 20_000)]);
    let next = alone.raycast(vec!["rock"], Vector2::new(100_000, 100_000), 0, 20_000);
    assert_eq!(next, (String::from("rock"), 40_000));
}

#[test]
fn wider_steps_stay_within_one_step_on_the_axis() {
    let frame = frame_of(&[], &[Rock::new(300_000, 100_000).get_shape()]);
    let origin = Vector2::new(100_000, 100_000);
    let fine = frame.raycast(vec!["rock"], origin, 0, 10_000);
    let coarse = frame.raycast(vec!["rock"], origin, 0, 20_000);
    let coarser = frame.raycast(vec!["rock"], origin, 0, 70_000);
    assert_eq!(fine, (String::from("rock"), 160_000));
    assert_eq!(coarse, (String::from("rock"), 160_000));
    assert_eq!(coarser, (String::from("rock"), 210_000));
    assert!(coarse.1 >= fine.1 - 10_000);
    assert!(coarser.1 >= coarse.1 - 20_000);
}

#[test]
fn ray_takes_a_bounded_number_of_steps() {
    let frame = CollisionFrame::within(Vec::new(), i32::MAX, i32::MAX);
    for radius in [1u32, 7, 999, 20_000, 333_333, 1_000_000, 1_000_001, u32::MAX] {
        let hit = frame.raycast(vec!["rock"], Vector2::new(0, 0), 45_000, radius);
        let steps = hit.1 / radius as i64;
        assert_eq!(hit.1 % radius as i64, 0);
        assert!(steps <= 1_000_000 / radius as i64 + 1);
    }
}

#[test]
fn ray_along_a_diagonal() {
    let frame = frame_of(&[], &[circle(400_000, 400_000, 45_000)]);
    let hit = frame.raycast(vec!["rock"], Vector2::new(100_000, 100_000), 45_000, 20_000);
    assert_eq!(hit, (String::from("rock"), 380_000));
}

#[test]
fn wider_probe_can_meet_a_body_beside_the_ray_sooner() {
    let frame = frame_of(&[], &[circle(300_000, 146_000, 45_000)]);
    let origin = Vector2::new(100_000, 100_000);
    let narrow = frame.raycast(vec!["rock"], origin, 0, 1_000);
    let wide = frame.raycast(vec!["rock"], origin, 0, 2_000);
    assert_eq!(narrow, (String::from("rock"), 201_000));
    assert_eq!(wide, (String::from("rock"), 194_000));
}

#[test]
fn collection_occupies_nothing() {
    let rocks = vec![Rock::new(0, 0), Rock::new(500_000, 0)];
    assert_eq!(rocks.get_shape(), Circle::empty());
    assert!(any_colliding(&rocks, &circle(0, 0, 1)));
    let queue: std::collections::VecDeque<Rock> = rocks.into_iter().collect();
    assert_eq!(queue.get_shape(), Circle::empty());
    assert!(!is_colliding(&queue, &circle(0, 0, 1)));
}
