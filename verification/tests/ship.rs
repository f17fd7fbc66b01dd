use asteroids::actors::GameObject;
use asteroids::bullet::Bullet;
use asteroids::config::Config;
use asteroids::ship::{rotate, Key, Spaceship};
use asteroids::trig::HALF_PI;
use rand::rngs::StdRng;
use rand::{Rng, SeedableRng};

fn fx(v: f64) -> i64 {
    (v * 4294967296.0).round() as i64
}

fn as_float(v: i64) -> f64 {
    v as f64 / 4294967296.0
}

fn expect_close_to(value: i64, expected: f64) {
    assert!(
        (as_float(value) - expected).abs() < 0.001,
        "{} is not close to {}",
        as_float(value),
        expected
    );
}

fn ship() -> Spaceship {
    Spaceship::new(&Config::new())
}

#[test]
fn a_new_ship_rests_in_the_middle_of_the_field() {
    let ship = ship();
    assert_eq!(ship.obj(), GameObject::new(fx(100.0), fx(100.0), 0, 0));
    assert_eq!(ship.sprite_theta(), 0);
    assert!(!ship.is_firing());
    assert!(ship.ready_to_fire());
}

#[test]
fn the_fire_key_sets_and_clears_firing() {
    let mut ship = ship();
    ship.handle_press(Key::Space);
    assert!(ship.is_firing());
    ship.handle_press(Key::Other);
    assert!(ship.is_firing());
    ship.handle_release(Key::Space);
    assert!(!ship.is_firing());
}

#[test]
fn a_ship_at_rest_stays_where_it_is() {
    let mut ship = ship();
    ship.accelerate(fx(0.5));
    ship.turn(fx(0.5));
    ship.go(fx(0.5), fx(200.0), fx(200.0));
    assert_eq!(ship.obj(), GameObject::new(fx(100.0), fx(100.0), 0, 0));
    assert_eq!(ship.sprite_theta(), 0);
}

#[test]
fn thrust_speeds_the_ship_up_to_its_limit() {
    let mut ship = ship();
    ship.handle_press(Key::Up);
    ship.accelerate(fx(1.0));
    assert_eq!(ship.obj(), GameObject::new(fx(100.0), fx(100.0), fx(100.0), 0));
    ship.accelerate(fx(0.5));
    assert_eq!(ship.obj().v, fx(150.0));
    ship.accelerate(fx(1.0));
    assert_eq!(ship.obj().v, fx(200.0));
    ship.handle_release(Key::Up);
    ship.accelerate(fx(1.0));
    assert_eq!(ship.obj().v, fx(200.0));
    ship.go(fx(0.25), fx(200.0), fx(200.0));
    assert_eq!(ship.obj(), GameObject::new(fx(100.0), fx(50.0), fx(200.0), 0));
}

#[test]
fn opposite_keys_cancel() {
    let mut ship = ship();
    ship.handle_press(Key::Up);
    ship.handle_press(Key::Down);
    ship.handle_press(Key::Left);
    ship.handle_press(Key::Right);
    ship.accelerate(fx(1.0));
    ship.turn(fx(1.0));
    assert_eq!(ship.obj().v, 0);
    assert_eq!(ship.sprite_theta(), 0);
}

#[test]
fn reverse_thrust_turns_the_velocity_around() {
    let mut ship = ship();
    ship.handle_press(Key::Down);
    ship.accelerate(fx(0.5));
    assert_eq!(ship.obj().v, fx(50.0));
    expect_close_to(ship.obj().theta.abs(), std::f64::consts::PI);
}

#[test]
fn thrust_bends_the_way_of_a_drifting_ship() {
    let mut ship = ship();
    ship.handle_press(Key::Up);
    ship.accelerate(fx(1.0));
    ship.handle_release(Key::Up);
    // A quarter turn to the right takes 2 pi / 4 / 5 seconds.
    ship.handle_press(Key::Right);
    ship.turn(fx(std::f64::consts::PI / 10.0));
    ship.handle_release(Key::Right);
    expect_close_to(ship.sprite_theta(), std::f64::consts::PI / 2.0);
    assert_eq!(ship.obj().theta, 0);
    ship.handle_press(Key::Up);
    ship.accelerate(fx(1.0));
    expect_close_to(ship.obj().theta, std::f64::consts::PI / 4.0);
    expect_close_to(ship.obj().v, 100.0 * 2.0_f64.sqrt());
}

#[test]
fn turning_adds_up_and_is_never_wrapped() {
    let mut ship = ship();
    ship.handle_press(Key::Right);
    ship.turn(fx(1.0));
    assert_eq!(ship.sprite_theta(), 21474836500);
    ship.turn(fx(1.0));
    assert_eq!(ship.sprite_theta(), 42949673000);
    ship.handle_release(Key::Right);
    ship.handle_press(Key::Left);
    ship.turn(fx(3.0));
    assert_eq!(ship.sprite_theta(), -21474836500);
}

#[test]
fn the_ship_waits_half_a_second_between_shots() {
    let mut ship = ship();
    let mut bullets: Vec<Bullet> = Vec::new();
    assert!(ship.ready_to_fire());
    ship.fire(&mut bullets);
    assert_eq!(bullets.len(), 1);
    assert!(!ship.ready_to_fire());
    ship.cooldown(fx(0.25));
    assert!(!ship.ready_to_fire());
    ship.cooldown(fx(0.125));
    assert!(!ship.ready_to_fire());
    ship.cooldown(fx(0.125));
    assert!(ship.ready_to_fire());
    ship.cooldown(fx(10.0));
    assert!(ship.ready_to_fire());
}

#[test]
fn a_ship_that_waits_does_not_fire() {
    let mut ship = ship();
    let mut bullets: Vec<Bullet> = Vec::new();
    ship.fire(&mut bullets);
    ship.cooldown(fx(0.375));
    ship.fire(&mut bullets);
    assert_eq!(bullets.len(), 1);
    // Had the second call begun a new wait, the ship would not be ready.
    ship.cooldown(fx(0.125));
    assert!(ship.ready_to_fire());
    ship.fire(&mut bullets);
    assert_eq!(bullets.len(), 2);
}

#[test]
fn a_bullet_leaves_the_ship_the_way_the_ship_points() {
    let mut ship = ship();
    ship.handle_press(Key::Right);
    ship.turn(fx(0.5));
    let mut bullets: Vec<Bullet> = Vec::new();
    ship.fire(&mut bullets);
    assert_eq!(
        bullets[0],
        Bullet {
            obj: GameObject::new(fx(100.0), fx(100.0), fx(100.0), ship.sprite_theta()),
            distance: 0
        }
    );
}

#[test]
fn the_hull_is_a_triangle_about_the_ship() {
    assert_eq!(
        Spaceship::hull(),
        [[fx(5.0), fx(7.0)], [fx(-5.0), fx(7.0)], [fx(0.0), fx(-13.0)]]
    );
    let ship = ship();
    assert_eq!(
        ship.edges(),
        vec![
            [fx(105.0), fx(107.0), fx(95.0), fx(107.0)],
            [fx(95.0), fx(107.0), fx(100.0), fx(87.0)],
            [fx(100.0), fx(87.0), fx(105.0), fx(107.0)],
        ]
    );
}

#[test]
fn the_hull_turns_with_the_ship_and_not_with_its_way() {
    let mut ship = ship();
    ship.handle_press(Key::Right);
    ship.turn(fx(std::f64::consts::PI / 10.0));
    let edges = ship.edges();
    assert_eq!(edges.len(), 3);
    // A quarter turn clockwise takes (x, y) to (-y, x).
    let expected = [[93.0, 105.0, 93.0, 95.0], [93.0, 95.0, 113.0, 100.0], [113.0, 100.0, 93.0, 105.0]];
    for (edge, want) in edges.iter().zip(expected.iter()) {
        for k in 0..4 {
            expect_close_to(edge[k], want[k]);
        }
    }
    for k in 0..3 {
        assert_eq!(edges[k][2], edges[(k + 1) % 3][0]);
        assert_eq!(edges[k][3], edges[(k + 1) % 3][1]);
    }
}

#[test]
fn rotation_by_given_sine_and_cosine() {
    assert_eq!(rotate(0, fx(1.0), fx(5.0), fx(7.0)), (fx(5.0), fx(7.0)));
    assert_eq!(rotate(fx(1.0), 0, fx(5.0), fx(7.0)), (fx(-7.0), fx(5.0)));
    assert_eq!(rotate(fx(0.5), fx(0.5), fx(4.0), fx(2.0)), (fx(1.0), fx(3.0)));
    assert_eq!(rotate(i64::MIN, i64::MIN, i64::MIN, i64::MAX), (i64::MAX, 1 << 31));
    let _ = HALF_PI;
}

#[test]
fn the_ship_collides_with_what_crosses_its_hull() {
    let ship = ship();
    let across = vec![[fx(90.0), fx(100.0), fx(110.0), fx(100.0)]];
    let away = vec![[fx(90.0), fx(80.0), fx(110.0), fx(80.0)]];
    let inside = vec![[fx(99.0), fx(100.0), fx(101.0), fx(100.0)]];
    let touching = vec![away[0], [fx(100.0), fx(87.0), fx(100.0), fx(50.0)]];
    assert!(ship.collides(&across));
    assert!(!ship.collides(&away));
    assert!(!ship.collides(&inside));
    assert!(ship.collides(&touching));
    assert!(!ship.collides(&Vec::new()));
}

/// The ship in floating point, step for step.
struct Model {
    x: f64,
    y: f64,
    v: f64,
    theta: f64,
    sprite_theta: f64,
    accel: f64,
    reverse: f64,
    left: f64,
    right: f64,
}

impl Model {
    fn step(&mut self, dt: f64) {
        let cartesian = |theta: f64, r: f64| (theta.sin() * r, -theta.cos() * r);
        let net_accel = (self.accel - self.reverse) * dt * 100.0;
        let (dx, dy) = cartesian(self.theta, self.v);
        let (ddx, ddy) = cartesian(self.sprite_theta, net_accel);
        let (new_dx, new_dy) = (dx + ddx, dy + ddy);
        self.v = (new_dx * new_dx + new_dy * new_dy).sqrt().min(200.0).max(-200.0);
        self.theta = new_dx.atan2(-new_dy);
        self.sprite_theta += (self.right - self.left) * dt * 100.0;
        let (sx, sy) = cartesian(self.theta, self.v * dt);
        self.x = (self.x + sx).rem_euclid(200.0);
        self.y = (self.y + sy).rem_euclid(200.0);
    }
}

fn apart_on_the_circle(a: f64, b: f64) -> f64 {
    let d = (a - b).rem_euclid(200.0);
    d.min(200.0 - d)
}

#[test]
fn the_ship_flies_as_it_does_in_floating_point() {
    for seed in 0..20 {
        let mut rng = StdRng::seed_from_u64(seed);
        let mut ship = ship();
        let mut model = Model {
            x: 100.0,
            y: 100.0,
            v: 0.0,
            theta: 0.0,
            sprite_theta: 0.0,
            accel: 0.0,
            reverse: 0.0,
            left: 0.0,
            right: 0.0,
        };
        let dt = 1.0 / 64.0;
        for _ in 0..400 {
            let down = rng.gen_range(0..2) == 0;
            match rng.gen_range(0..8) {
                0 => {
                    model.accel = if down { 1.0 } else { 0.0 };
                    if down { ship.handle_press(Key::Up) } else { ship.handle_release(Key::Up) }
                }
                1 => {
                    model.reverse = if down { 1.0 } else { 0.0 };
                    if down { ship.handle_press(Key::Down) } else { ship.handle_release(Key::Down) }
                }
                2 => {
                    model.left = if down { 0.05 } else { 0.0 };
                    if down { ship.handle_press(Key::Left) } else { ship.handle_release(Key::Left) }
                }
                3 => {
                    model.right = if down { 0.05 } else { 0.0 };
                    if down { ship.handle_press(Key::Right) } else { ship.handle_release(Key::Right) }
                }
                _ => {}
            }
            model.step(dt);
            ship.accelerate(fx(dt));
            ship.turn(fx(dt));
            ship.go(fx(dt), fx(200.0), fx(200.0));
            let obj = ship.obj();
            assert!(apart_on_the_circle(as_float(obj.x), model.x) < 0.001);
            assert!(apart_on_the_circle(as_float(obj.y), model.y) < 0.001);
            expect_close_to(obj.v, model.v);
            expect_close_to(ship.sprite_theta(), model.sprite_theta);
            if model.v > 0.01 {
                let turn = (as_float(obj.theta) - model.theta).rem_euclid(2.0 * std::f64::consts::PI);
                assert!(turn < 0.001 || turn > 2.0 * std::f64::consts::PI - 0.001);
            }
        }
    }
}
