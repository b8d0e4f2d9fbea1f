use robot_arena::arena::Arena;
use robot_arena::math::Vector2;
use robot_arena::object::Object;
use robot_arena::ship::api::{call, Binding, BindingError, Context, Value};
use robot_arena::ship::State;

fn duel() -> (Arena, Vec<Option<Context>>) {
    let mut arena = Arena::new(1_280_000, 960_000, 4);
    assert_eq!(arena.add_ship(String::from("left"), 100_000, 100_000), 0);
    assert_eq!(arena.add_ship(String::from("right"), 500_000, 100_000), 1);
    let links = vec![Some(Context::new(100_000, 100_000)), Some(Context::new(500_000, 100_000))];
    (arena, links)
}

fn parked(links: &[Option<Context>], ship: usize) -> bool {
    links[ship].as_ref().unwrap().channel.is_parked()
}

fn number(reply: Result<Value, BindingError>) -> i64 {
    match reply {
        Ok(Value::Number(n)) => n,
        other => panic!("unexpected reply {:?}", other),
    }
}

fn text(reply: Result<Value, BindingError>) -> String {
    match reply {
        Ok(Value::Text(s)) => s,
        other => panic!("unexpected reply {:?}", other),
    }
}

#[test]
fn new_arena_is_empty() {
    let arena = Arena::new(1_280_000, 960_000, 60);
    assert_eq!(arena.ship_count(), 0);
    assert_eq!(arena.rocks().len(), 0);
    assert_eq!(arena.bullet_pool().available(), 60);
    assert_eq!(arena.bullet_pool().awake().len(), 0);
    assert!(!arena.ship_did_win());
    assert_eq!(arena.survivor(), None);
    assert_eq!(arena.count_alive(), 0);
    assert!(arena.ship(0).is_none());
}

#[test]
fn tick_of_an_empty_arena() {
    let mut arena = Arena::new(1_280_000, 960_000, 1);
    assert_eq!(arena.update(16, &mut Vec::new()), Vec::<usize>::new());
    assert!(!arena.ship_did_win());
}

#[test]
fn ship_carries_out_a_move_through_the_arena() {
    let (mut arena, mut links) = duel();
    assert!(matches!(call(Binding::Move, &vec![Value::Number(50_000)], &mut links[0]), Ok(Value::Nothing)));
    assert!(parked(&links, 0));
    assert!(!parked(&links, 1));
    arena.update(100, &mut links);
    for tick in 1..=5 {
        assert!(parked(&links, 0));
        arena.update(100, &mut links);
        assert_eq!(arena.ship(0).unwrap().get_pos(), Vector2::new(100_000 + 10_000 * tick, 100_000));
    }
    assert!(!parked(&links, 0));
    assert_eq!(arena.ship(0).unwrap().state(), State::Waiting);
    assert_eq!(arena.ship(1).unwrap().get_pos(), Vector2::new(500_000, 100_000));
    assert_eq!(arena.ship(1).unwrap().name(), "right");
    assert_eq!(number(call(Binding::X, &Vec::new(), &mut links[0])), 150_000);
    assert!(!arena.ship_did_win());
}

#[test]
fn ships_sense_each_other() {
    let (mut arena, mut links) = duel();
    arena.update(16, &mut links);
    assert_eq!(number(call(Binding::RaycastDist, &Vec::new(), &mut links[0])), 340_000);
    assert_eq!(text(call(Binding::Raycast, &Vec::new(), &mut links[0])), "ship");
    assert_eq!(text(call(Binding::Raycast, &Vec::new(), &mut links[1])), "wall");
}

#[test]
fn ship_without_a_link_has_no_tick() {
    let (mut arena, mut links) = duel();
    links[1] = None;
    links.truncate(2);
    arena.add_ship(String::from("late"), 100_000, 500_000);
    call(Binding::Move, &vec![Value::Number(10_000)], &mut links[0]).unwrap();
    assert_eq!(arena.update(100, &mut links), Vec::<usize>::new());
    assert_eq!(arena.update(100, &mut links), Vec::<usize>::new());
    assert_eq!(arena.ship(0).unwrap().get_pos(), Vector2::new(110_000, 100_000));
    assert_eq!(arena.ship(1).unwrap().state(), State::Waiting);
    assert_eq!(arena.ship(2).unwrap().state(), State::Waiting);
    assert!(links[1].is_none());
    assert_eq!(links.len(), 2);
    let error = call(Binding::Shoot, &Vec::new(), &mut links[1]).unwrap_err();
    assert_eq!(error, BindingError::NoContext(Binding::Shoot));
}

#[test]
fn tick_of_a_ship_that_is_not_there_changes_nothing() {
    let (mut arena, mut links) = duel();
    let frame = arena.frame();
    let link = links[0].as_mut().unwrap();
    link.channel.send(robot_arena::ship::api::APIRequest::Shoot).unwrap();
    assert_eq!(arena.update_ship(2, 100, &frame, link), Ok(()));
    assert_eq!(arena.update_ship(usize::MAX, 100, &frame, link), Ok(()));
    assert!(link.channel.is_parked());
    assert_eq!(arena.bullet_pool().available(), 4);
    assert_eq!(link.handle.raycast_dist(), -1000);
    assert_eq!(arena.ship(0).unwrap().state(), State::Waiting);
}

#[test]
fn shot_goes_back_when_it_reaches_a_ship_that_stands() {
    let (mut arena, mut links) = duel();
    call(Binding::Shoot, &Vec::new(), &mut links[0]).unwrap();
    assert_eq!(arena.update(100, &mut links), Vec::<usize>::new());
    assert_eq!(arena.bullet_pool().awake().len(), 1);
    assert_eq!(arena.bullet_pool().awake()[0].pos, Vector2::new(180_100, 100_000));
    assert_eq!(arena.bullet_pool().available(), 3);
    for _ in 2..=8 {
        arena.update(100, &mut links);
        assert_eq!(arena.bullet_pool().awake().len(), 1);
    }
    assert_eq!(arena.bullet_pool().awake()[0].pos, Vector2::new(460_100, 100_000));
    arena.update(100, &mut links);
    assert_eq!(arena.bullet_pool().awake().len(), 0);
    assert_eq!(arena.bullet_pool().available(), 4);
    arena.update(100, &mut links);
    assert!(!arena.ship(0).unwrap().is_destroyed());
    assert!(!arena.ship(1).unwrap().is_destroyed());
    assert!(!arena.ship_did_win());
    assert_eq!(arena.count_alive(), 2);
}

#[test]
fn shot_destroys_a_ship_that_moves_into_it() {
    let mut arena = Arena::new(1_280_000, 960_000, 4);
    arena.add_ship(String::from("left"), 100_000, 100_000);
    arena.add_ship(String::from("right"), 515_000, 100_000);
    let mut links = vec![Some(Context::new(100_000, 100_000)), Some(Context::new(515_000, 100_000))];
    call(Binding::Shoot, &Vec::new(), &mut links[0]).unwrap();
    call(Binding::Move, &vec![Value::Number(-300_000)], &mut links[1]).unwrap();
    let mut ticks = 0;
    while !arena.ship(1).unwrap().is_destroyed() {
        arena.update(100, &mut links);
        ticks += 1;
        assert!(ticks < 20);
    }
    assert_eq!(ticks, 8);
    assert_eq!(arena.ship(1).unwrap().get_pos(), Vector2::new(445_000, 100_000));
    assert_eq!(arena.bullet_pool().awake().len(), 0);
    assert_eq!(arena.bullet_pool().available(), 4);
    assert!(parked(&links, 1));
    assert!(!arena.ship(0).unwrap().is_destroyed());
    assert!(arena.ship_did_win());
    assert_eq!(arena.survivor(), Some(0));
    assert_eq!(arena.count_alive(), 1);
    assert_eq!(arena.ship_count(), 2);
    assert_eq!(arena.ship(1).unwrap().get_shape().radius, 0);
}

#[test]
fn shot_goes_back_when_it_reaches_a_rock() {
    let mut arena = Arena::new(1_280_000, 960_000, 1);
    arena.add_ship(String::from("gunner"), 100_000, 100_000);
    arena.add_rock(300_000, 100_000);
    let mut links = vec![Some(Context::new(100_000, 100_000))];
    call(Binding::Shoot, &Vec::new(), &mut links[0]).unwrap();
    arena.update(100, &mut links);
    arena.update(100, &mut links);
    assert_eq!(arena.bullet_pool().awake()[0].pos, Vector2::new(220_100, 100_000));
    arena.update(100, &mut links);
    assert_eq!(arena.bullet_pool().awake().len(), 0);
    assert_eq!(arena.bullet_pool().available(), 1);
    arena.update(100, &mut links);
    assert_eq!(arena.rocks()[0].hp, 2);
    assert!(!arena.ship(0).unwrap().is_destroyed());
}

#[test]
fn shots_beyond_the_pool_are_reported() {
    let mut arena = Arena::new(1_280_000, 960_000, 1);
    arena.add_ship(String::from("one"), 100_000, 100_000);
    arena.add_ship(String::from("two"), 100_000, 500_000);
    arena.add_ship(String::from("three"), 100_000, 900_000);
    let mut links = vec![
        Some(Context::new(100_000, 100_000)),
        Some(Context::new(100_000, 500_000)),
        Some(Context::new(100_000, 900_000)),
    ];
    for link in links.iter_mut() {
        call(Binding::Shoot, &Vec::new(), link).unwrap();
    }
    assert_eq!(arena.update(16, &mut links), vec![1, 2]);
    assert_eq!(arena.bullet_pool().awake().len(), 1);
    assert_eq!(arena.ship(1).unwrap().state(), State::Shooting(1000));
    assert_eq!(arena.ship(2).unwrap().state(), State::Shooting(1000));
    assert_eq!(arena.update(1000, &mut links), Vec::<usize>::new());
    assert!(!parked(&links, 0));
    assert!(!parked(&links, 1));
    assert!(!parked(&links, 2));
}

#[test]
fn rock_destroys_a_ship_that_moves_into_it() {
    let mut arena = Arena::new(1_280_000, 960_000, 1);
    arena.add_ship(String::from("bold"), 100_000, 100_000);
    arena.add_ship(String::from("shy"), 100_000, 800_000);
    arena.add_rock(200_000, 100_000);
    let mut links = vec![Some(Context::new(100_000, 100_000)), Some(Context::new(100_000, 800_000))];
    call(Binding::Move, &vec![Value::Number(100_000)], &mut links[0]).unwrap();
    let mut ticks = 0;
    while !arena.ship(0).unwrap().is_destroyed() {
        assert!(!arena.ship_did_win());
        arena.update(100, &mut links);
        ticks += 1;
        assert!(ticks < 20);
    }
    assert_eq!(ticks, 5);
    assert_eq!(arena.ship(0).unwrap().get_pos(), Vector2::new(140_000, 100_000));
    assert!(parked(&links, 0));
    assert!(arena.ship_did_win());
    assert_eq!(arena.survivor(), Some(1));
    assert_eq!(arena.rocks()[0].hp, 2);
}

#[test]
fn round_once_won_stays_won() {
    let mut arena = Arena::new(1_280_000, 960_000, 1);
    arena.add_ship(String::from("doomed"), 100_000, 100_000);
    arena.add_ship(String::from("lucky"), 100_000, 800_000);
    arena.add_rock(100_000, 100_000);
    let mut links = vec![Some(Context::new(100_000, 100_000)), Some(Context::new(100_000, 800_000))];
    arena.update(16, &mut links);
    assert!(arena.ship_did_win());
    assert_eq!(arena.survivor(), Some(1));
    arena.add_rock(100_000, 800_000);
    arena.update(16, &mut links);
    assert!(arena.ship_did_win());
    assert_eq!(arena.survivor(), None);
    assert_eq!(arena.count_alive(), 0);
}

#[test]
fn single_ship_wins_at_once() {
    let mut arena = Arena::new(1_280_000, 960_000, 1);
    arena.add_ship(String::from("alone"), 100_000, 100_000);
    let mut links = vec![Some(Context::new(100_000, 100_000))];
    assert!(!arena.ship_did_win());
    arena.update(16, &mut links);
    assert!(arena.ship_did_win());
}

#[test]
fn frame_is_taken_before_anything_moves() {
    let (mut arena, mut links) = duel();
    call(Binding::Move, &vec![Value::Number(1_000_000)], &mut links[0]).unwrap();
    arena.update(100, &mut links);
    let frame = arena.frame();
    let at_start = arena.ship(0).unwrap().get_shape();
    arena.update(100, &mut links);
    let moved = arena.ship(0).unwrap().get_shape();
    assert!(!frame.check_collision(vec!["ship"], at_start));
    assert!(frame.check_collision(vec!["ship"], moved));
    assert_eq!(moved.center, Vector2::new(110_000, 100_000));
}

#[test]
fn arena_bounds_decide_the_wall() {
    let mut arena = Arena::new(200_000, 200_000, 1);
    arena.add_ship(String::from("boxed"), 100_000, 100_000);
    let mut links = vec![Some(Context::new(100_000, 100_000))];
    arena.update(16, &mut links);
    assert_eq!(number(call(Binding::RaycastDist, &Vec::new(), &mut links[0])), 60_000);
    assert_eq!(text(call(Binding::Raycast, &Vec::new(), &mut links[0])), "wall");
}

#[test]
fn tick_ship_by_ship_is_the_tick_in_one_piece() {
    let (mut whole, mut whole_links) = duel();
    let (mut parts, mut part_links) = duel();
    whole.add_rock(300_000, 300_000);
    parts.add_rock(300_000, 300_000);
    for links in [&mut whole_links, &mut part_links] {
        call(Binding::Shoot, &Vec::new(), &mut links[0]).unwrap();
        call(Binding::Turn, &vec![Value::Number(-45_000)], &mut links[1]).unwrap();
    }
    for dt in [16, 100, 0, 250, 1000, 33] {
        let failed = whole.update(dt, &mut whole_links);
        let frame = parts.frame();
        let mut failed_parts = Vec::new();
        for (ship, slot) in part_links.iter_mut().enumerate() {
            if let Some(link) = slot.as_mut() {
                if parts.update_ship(ship, dt, &frame, link).is_err() {
                    failed_parts.push(ship);
                }
            }
        }
        parts.update_rest(dt, &frame);
        assert_eq!(failed, failed_parts);
        for ship in 0..2 {
            let a = whole.ship(ship).unwrap();
            let b = parts.ship(ship).unwrap();
            assert_eq!(a.get_pos(), b.get_pos());
            assert_eq!(a.rotation(), b.rotation());
            assert_eq!(a.state(), b.state());
            let x = whole_links[ship].as_ref().unwrap();
            let y = part_links[ship].as_ref().unwrap();
            assert_eq!(x.channel.is_parked(), y.channel.is_parked());
            assert_eq!(x.handle.raycast(), y.handle.raycast());
            assert_eq!(x.handle.raycast_dist(), y.handle.raycast_dist());
            assert_eq!(x.handle.pos(), y.handle.pos());
        }
        assert_eq!(whole.rocks(), parts.rocks());
        assert_eq!(whole.bullet_pool().awake(), parts.bullet_pool().awake());
        assert_eq!(whole.bullet_pool().available(), parts.bullet_pool().available());
        assert_eq!(whole.ship_did_win(), parts.ship_did_win());
    }
    assert_eq!(whole.ship(1).unwrap().rotation(), -45_000);
}
