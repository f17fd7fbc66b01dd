use asteroids::actors::GameObject;
use asteroids::astroid::{
    close_loop, start_range, Astroid, ASTROID_LARGE, MAX_SIZE, SPIN_DEVIATION,
};
use asteroids::config::Config;
use asteroids::trig::TAU;
use rand::rngs::StdRng;
use rand::SeedableRng;

fn fx(v: f64) -> i64 {
    (v * 4294967296.0).round() as i64
}

fn as_float(v: i64) -> f64 {
    v as f64 / 4294967296.0
}

fn square(half: f64) -> Vec<[i64; 4]> {
    let h = fx(half);
    vec![[-h, -h, h, -h], [h, -h, h, h], [h, h, -h, h], [-h, h, -h, -h]]
}

fn check_border(border: &Vec<[i64; 4]>, radius: f64) {
    let n = border.len();
    assert!(8 <= n && n < 12, "{} corners", n);
    let mut angles = Vec::new();
    for k in 0..n {
        // The line is closed: each segment begins where the last one ended.
        assert_eq!(border[k][2], border[(k + 1) % n][0]);
        assert_eq!(border[k][3], border[(k + 1) % n][1]);
        let (x, y) = (as_float(border[k][0]), as_float(border[k][1]));
        let distance = (x * x + y * y).sqrt();
        assert!(radius * 0.8 - 0.001 <= distance && distance < radius * 1.2 + 0.001);
        angles.push(x.atan2(-y));
    }
    // The corners are spread evenly over the circle.
    let step = 2.0 * std::f64::consts::PI / n as f64;
    for k in 0..n {
        let turn = (angles[(k + 1) % n] - angles[k]).rem_euclid(2.0 * std::f64::consts::PI);
        assert!((turn - step).abs() < 0.001, "step {} of {}", turn, step);
    }
}

#[test]
fn a_border_is_a_rough_circle() {
    for seed in 0..50 {
        let mut rng = StdRng::seed_from_u64(seed);
        check_border(&Astroid::create_border(&mut rng, fx(15.0)), 15.0);
        check_border(&Astroid::create_border(&mut rng, fx(5.0)), 5.0);
    }
}

#[test]
fn borders_differ_from_draw_to_draw() {
    let mut rng = StdRng::seed_from_u64(11);
    let first = Astroid::create_border(&mut rng, fx(15.0));
    let second = Astroid::create_border(&mut rng, fx(15.0));
    assert_ne!(first, second);
}

#[test]
fn the_smallest_border_that_can_be_drawn() {
    let mut rng = StdRng::seed_from_u64(3);
    let border = Astroid::create_border(&mut rng, 5);
    assert!(8 <= border.len() && border.len() < 12);
    for edge in border.iter() {
        for k in 0..4 {
            assert!(edge[k].abs() <= 5);
        }
    }
}

#[test]
fn a_closed_line_ends_where_it_begins() {
    let points = vec![(fx(1.0), fx(2.0)), (fx(3.0), fx(4.0)), (fx(5.0), fx(6.0))];
    assert_eq!(
        close_loop(&points),
        vec![
            [fx(1.0), fx(2.0), fx(3.0), fx(4.0)],
            [fx(3.0), fx(4.0), fx(5.0), fx(6.0)],
            [fx(5.0), fx(6.0), fx(1.0), fx(2.0)],
        ]
    );
    assert_eq!(close_loop(&vec![(7, 8)]), vec![[7, 8, 7, 8]]);
    assert_eq!(close_loop(&Vec::new()), Vec::<[i64; 4]>::new());
}

#[test]
fn a_new_asteroid_keeps_clear_of_the_middle() {
    let config = Config::new();
    for seed in 0..200 {
        let mut rng = StdRng::seed_from_u64(seed);
        let astroid = Astroid::large_new(&config, &mut rng);
        assert_eq!(astroid.size(), ASTROID_LARGE);
        assert_eq!(astroid.size(), 3);
        let obj = astroid.obj();
        for at in [obj.x, obj.y] {
            assert!((0 <= at && at < fx(75.0)) || (fx(125.0) <= at && at < fx(200.0)));
        }
        assert!(fx(40.0) <= obj.v && obj.v < fx(60.0));
        assert!(0 <= obj.theta && obj.theta < TAU);
        check_border(astroid.border(), 15.0);
    }
}

#[test]
fn new_asteroids_begin_on_both_sides_of_the_middle() {
    let config = Config::new();
    let mut rng = StdRng::seed_from_u64(5);
    let (mut low, mut high) = (0, 0);
    for _ in 0..200 {
        let obj = Astroid::new(1, &config, &mut rng).obj();
        if obj.x < fx(100.0) {
            low += 1;
        } else {
            high += 1;
        }
    }
    assert!(low > 50 && high > 50, "{} below and {} above", low, high);
}

#[test]
fn an_asteroid_of_any_size_has_five_times_its_size_in_radius() {
    let config = Config::new();
    let mut rng = StdRng::seed_from_u64(8);
    check_border(Astroid::new(1, &config, &mut rng).border(), 5.0);
    check_border(Astroid::new(2, &config, &mut rng).border(), 10.0);
    check_border(Astroid::new(40, &config, &mut rng).border(), 200.0);
    let largest = Astroid::new(MAX_SIZE, &config, &mut rng);
    assert_eq!(largest.size(), MAX_SIZE);
    assert!(8 <= largest.border().len() && largest.border().len() < 12);
}

#[test]
fn the_smallest_asteroid_leaves_nothing() {
    let mut rng = StdRng::seed_from_u64(1);
    let astroid = Astroid::assemble(GameObject::new(fx(10.0), fx(20.0), fx(50.0), 0), 1, square(5.0));
    assert!(astroid.explode(&mut rng, &|| 0).is_empty());
    let drawn = Astroid::new(1, &Config::new(), &mut rng);
    assert!(drawn.explode(&mut rng, &|| fx(1.0)).is_empty());
}

#[test]
fn a_larger_asteroid_breaks_into_two_that_are_one_size_smaller() {
    let config = Config::new();
    for seed in 0..50 {
        let mut rng = StdRng::seed_from_u64(seed);
        let parent = Astroid::large_new(&config, &mut rng);
        let pieces = parent.explode(&mut rng, &|| fx(0.25));
        assert_eq!(pieces.len(), 2);
        for piece in pieces.iter() {
            assert_eq!(piece.size(), 2);
            let (from, to) = (parent.obj(), piece.obj());
            assert!(from.x - fx(5.0) <= to.x && to.x < from.x + fx(5.0));
            assert!(from.y - fx(5.0) <= to.y && to.y < from.y + fx(5.0));
            assert!(fx(40.0) <= to.v && to.v < fx(60.0));
            assert_eq!(to.theta, from.theta + fx(0.25));
            check_border(piece.border(), 10.0);
            let smaller = piece.explode(&mut rng, &|| fx(-0.5));
            assert_eq!(smaller.len(), 2);
            for last in smaller.iter() {
                assert_eq!(last.size(), 1);
                assert_eq!(last.obj().theta, to.theta - fx(0.5));
                check_border(last.border(), 5.0);
                assert!(last.explode(&mut rng, &|| 0).is_empty());
            }
        }
        assert_ne!(pieces[0].border(), pieces[1].border());
    }
}

#[test]
fn each_piece_takes_a_heading_of_its_own() {
    let mut rng = StdRng::seed_from_u64(2);
    let parent = Astroid::assemble(GameObject::new(0, 0, fx(50.0), fx(1.0)), 2, square(10.0));
    let turns = std::cell::Cell::new(0);
    let spin = || {
        turns.set(turns.get() + 1);
        fx(turns.get() as f64)
    };
    let pieces = parent.explode(&mut rng, &spin);
    assert_eq!(turns.get(), 2);
    assert_eq!(pieces[0].obj().theta, fx(2.0));
    assert_eq!(pieces[1].obj().theta, fx(3.0));
    let piece = parent.exploded(&mut rng, fx(-4.0));
    assert_eq!(piece.obj().theta, fx(-3.0));
    assert_eq!(piece.size(), 1);
}

#[test]
fn a_piece_near_the_end_of_the_range_stays_in_it() {
    let mut rng = StdRng::seed_from_u64(4);
    let parent = Astroid::assemble(GameObject::new(i64::MAX, i64::MIN, 0, i64::MAX), 2, square(10.0));
    let piece = parent.exploded(&mut rng, i64::MAX);
    assert!(piece.obj().x > i64::MAX - fx(5.0));
    assert!(piece.obj().y < i64::MIN + fx(5.0));
    assert_eq!(piece.obj().theta, i64::MAX);
}

#[test]
fn the_edges_of_an_asteroid_follow_it() {
    let mut astroid = Astroid::assemble(GameObject::new(fx(10.0), fx(20.0), fx(4.0), 0), 1, square(5.0));
    assert_eq!(
        astroid.edges(),
        vec![
            [fx(5.0), fx(15.0), fx(15.0), fx(15.0)],
            [fx(15.0), fx(15.0), fx(15.0), fx(25.0)],
            [fx(15.0), fx(25.0), fx(5.0), fx(25.0)],
            [fx(5.0), fx(25.0), fx(5.0), fx(15.0)],
        ]
    );
    astroid.go(fx(0.5), fx(200.0), fx(200.0));
    assert_eq!(astroid.obj(), GameObject::new(fx(10.0), fx(18.0), fx(4.0), 0));
    assert_eq!(astroid.border(), &square(5.0));
    assert_eq!(astroid.edges()[0], [fx(5.0), fx(13.0), fx(15.0), fx(13.0)]);
    let later = astroid.after_go(fx(5.0), fx(200.0), fx(200.0));
    assert_eq!(later.obj(), GameObject::new(fx(10.0), fx(198.0), fx(4.0), 0));
    assert_eq!(astroid.obj().y, fx(18.0));
}

#[test]
fn the_deviation_of_a_change_of_heading_is_a_quarter_turn() {
    assert_eq!(SPIN_DEVIATION, fx(std::f64::consts::PI / 2.0));
}

#[test]
fn a_twin_is_like_the_asteroid() {
    let mut rng = StdRng::seed_from_u64(9);
    let astroid = Astroid::large_new(&Config::new(), &mut rng);
    let twin = astroid.clone();
    assert_eq!(twin.obj(), astroid.obj());
    assert_eq!(twin.size(), astroid.size());
    assert_eq!(twin.border(), astroid.border());
}

#[test]
fn the_coin_picks_the_side_of_the_middle() {
    assert_eq!(start_range(fx(200.0), fx(25.0), 0), (0, fx(75.0)));
    assert_eq!(start_range(fx(200.0), fx(25.0), 1), (fx(125.0), fx(200.0)));
    assert_eq!(start_range(fx(200.0), 0, 0), (0, fx(100.0)));
    assert_eq!(start_range(fx(200.0), 0, 1), (fx(100.0), fx(200.0)));
    assert_eq!(start_range(3, 0, 0), (0, 1));
    assert_eq!(start_range(3, 0, 1), (1, 3));
    assert_eq!(start_range(i64::MAX, 5, 0), (0, i64::MAX / 2 - 5));
    assert_eq!(start_range(i64::MAX, 5, 7), (i64::MAX / 2 + 5, i64::MAX));
}
