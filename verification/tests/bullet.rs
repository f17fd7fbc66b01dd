use asteroids::actors::GameObject;
use asteroids::astroid::Astroid;
use asteroids::bullet::{Bullet, BULLET_RANGE, BULLET_SPEED};
use asteroids::point::Point;

fn fx(v: f64) -> i64 {
    (v * 4294967296.0).round() as i64
}

fn square(half: f64) -> Vec<[i64; 4]> {
    let h = fx(half);
    vec![[-h, -h, h, -h], [h, -h, h, h], [h, h, -h, h], [-h, h, -h, -h]]
}

#[test]
fn a_new_bullet_flies_at_full_speed() {
    let bullet = Bullet::new(fx(1.0), fx(2.0), fx(3.0));
    assert_eq!(bullet.obj, GameObject::new(fx(1.0), fx(2.0), fx(100.0), fx(3.0)));
    assert_eq!(bullet.distance, 0);
    assert_eq!(BULLET_SPEED, fx(100.0));
    assert_eq!(BULLET_RANGE, fx(100.0));
    assert!(bullet.is_alive());
    assert_eq!(bullet.coords(), Point::new(fx(1.0), fx(2.0)));
}

#[test]
fn a_bullet_lives_for_a_hundred_units_of_way() {
    let mut bullet = Bullet::new(fx(100.0), fx(100.0), 0);
    bullet.go(fx(0.5), fx(200.0), fx(200.0));
    assert_eq!(bullet.obj, GameObject::new(fx(100.0), fx(50.0), fx(100.0), 0));
    assert_eq!(bullet.distance, fx(50.0));
    assert!(bullet.is_alive());
    bullet.go(fx(0.25), fx(200.0), fx(200.0));
    assert_eq!(bullet.distance, fx(75.0));
    assert!(bullet.is_alive());
    bullet.go(fx(0.25), fx(200.0), fx(200.0));
    assert_eq!(bullet.obj.y, 0);
    assert_eq!(bullet.distance, fx(100.0));
    assert!(!bullet.is_alive());
}

#[test]
fn the_way_of_a_bullet_does_not_depend_on_the_frames() {
    let mut one = Bullet::new(0, 0, fx(1.0));
    let mut many = Bullet::new(0, 0, fx(1.0));
    one.go(fx(0.75), fx(200.0), fx(200.0));
    for _ in 0..6 {
        many.go(fx(0.125), fx(200.0), fx(200.0));
    }
    assert_eq!(one.distance, many.distance);
    assert_eq!(one.distance, fx(75.0));
}

#[test]
fn the_way_of_a_bullet_saturates() {
    let mut bullet = Bullet { obj: GameObject::new(0, 0, i64::MAX, 0), distance: i64::MAX - 5 };
    bullet.go(i64::MAX, fx(200.0), fx(200.0));
    assert_eq!(bullet.distance, i64::MAX);
    assert!(!bullet.is_alive());
}

#[test]
fn a_bullet_collides_with_the_asteroid_it_is_inside() {
    let astroid = Astroid::assemble(GameObject::new(fx(100.0), fx(60.0), 0, 0), 1, square(5.0));
    assert!(Bullet::new(fx(100.0), fx(60.0), 0).collides(&astroid));
    assert!(Bullet::new(fx(104.0), fx(56.0), 0).collides(&astroid));
    assert!(!Bullet::new(fx(100.0), fx(70.0), 0).collides(&astroid));
    assert!(!Bullet::new(fx(94.0), fx(60.0), 0).collides(&astroid));
    assert!(!Bullet::new(fx(106.0), fx(60.0), 0).collides(&astroid));
}
