//! A game in progress: the ship, its bullets and the asteroids, and what a
//! frame and a key do to them.

use vstd::prelude::*;
use rand::rngs::StdRng;
use crate::actors::GameObject;
use crate::astroid::{
    clear_of_middle, is_outline, radius_of, Astroid, AstroidView, ASTROID_LARGE, MIN_SPEED,
    TOP_SPEED,
};
use crate::bullet::{Bullet, BULLET_RANGE};
use crate::config::{Config, ASTROID_GAP, FIELD_SIZE};
use crate::intersect::{crossings, ray_of};
use crate::point::Point;
use crate::ship::{Key, ShipView, Spaceship};
use crate::trig::TAU;

verus! {

/// A game in progress.
#[derive(Debug)]
pub struct MainScene {
    difficulty: usize,
    spaceship: Spaceship,
    bullets: Vec<Bullet>,
    astroids: Vec<Astroid>,
}

/// What a game in progress is, to a contract.
pub struct SceneView {
    pub difficulty: nat,
    pub spaceship: ShipView,
    pub bullets: Seq<Bullet>,
    pub astroids: Seq<AstroidView>,
}

/// The asteroids as contracts see them.
pub open spec fn views_of(astroids: Seq<Astroid>) -> Seq<AstroidView> {
    Seq::new(astroids.len(), |i: int| astroids[i]@)
}

impl View for MainScene {
    type V = SceneView;

    closed spec fn view(&self) -> SceneView {
        SceneView {
            difficulty: self.difficulty as nat,
            spaceship: self.spaceship@,
            bullets: self.bullets@,
            astroids: views_of(self.astroids@),
        }
    }
}

/// What the game is told of: time that has passed, and what the player and
/// the window do.
#[derive(Clone, Copy, Debug, PartialEq, Eq, Structural)]
pub enum Event {
    /// The time `dt` has passed.
    Update { dt: i64 },
    /// The window is to be drawn.
    Render,
    /// A key went down.
    Press { key: Key },
    /// A key came up.
    Release { key: Key },
    /// The window was closed.
    Closed,
    /// Anything else.
    Other,
}

/// What the player sees: a game in progress, or the game that has ended as
/// it was when the ship was hit.
#[derive(Debug)]
pub enum Scene {
    Main(MainScene),
    GameOver(MainScene),
}

/// What a frame has come to.
#[derive(Clone, Copy, Debug, PartialEq, Eq, Structural)]
pub enum Outcome {
    /// The game goes on.
    Running,
    /// The ship has touched an asteroid.
    Crashed,
    /// No asteroid is left.
    Cleared,
}

/// The ship as a new game has it.
pub open spec fn fresh_ship() -> ShipView {
    ShipView {
        obj: GameObject {
            x: (FIELD_SIZE / 2) as i64,
            y: (FIELD_SIZE / 2) as i64,
            v: 0,
            theta: 0,
        },
        sprite_theta: 0,
        accel: 0,
        reverse: 0,
        left: 0,
        right: 0,
        firing: false,
        cooldown: 0,
    }
}

/// Whether `a` may be an asteroid of a new game: large, clear of the middle
/// of the field, with a speed, a heading and a border as they are drawn.
pub open spec fn is_newcomer(a: AstroidView) -> bool {
    &&& a.size == ASTROID_LARGE
    &&& clear_of_middle(a.obj.x as int, FIELD_SIZE as int, ASTROID_GAP as int)
    &&& clear_of_middle(a.obj.y as int, FIELD_SIZE as int, ASTROID_GAP as int)
    &&& MIN_SPEED <= a.obj.v < TOP_SPEED
    &&& 0 <= a.obj.theta < TAU
    &&& is_outline(a.border, radius_of(ASTROID_LARGE as int))
}

/// Whether the bullet is inside the asteroid.
pub open spec fn hits(bullet: Bullet, a: AstroidView) -> bool {
    crossings(ray_of(Point { x: bullet.obj.x, y: bullet.obj.y }), a.edges()) % 2 == 1
}

/// Whether the bullet is inside one of the asteroids.
pub open spec fn hits_any(bullet: Bullet, astroids: Seq<AstroidView>) -> bool {
    exists|i: int| 0 <= i < astroids.len() && hits(bullet, #[trigger] astroids[i])
}

/// Whether `pieces` may be what a hit leaves of `a`: nothing of the
/// smallest size, two pieces of any other, each with a change of heading
/// that `spin` gives.
pub open spec fn remains_of<N: Fn() -> i64>(
    a: AstroidView,
    pieces: Seq<AstroidView>,
    spin: &N,
) -> bool {
    &&& pieces.len() == if a.size > 1 { 2int } else { 0int }
    &&& forall|i: int| 0 <= i < pieces.len() ==> a.may_spin_off(#[trigger] pieces[i], spin)
}

/// Whether `after` may be what the bullet leaves of the asteroids `before`:
/// in their order, each asteroid that the bullet is inside gives way to its
/// pieces, and each other one stays.
pub open spec fn struck<N: Fn() -> i64>(
    bullet: Bullet,
    before: Seq<AstroidView>,
    after: Seq<AstroidView>,
    spin: &N,
) -> bool
    decreases before.len(),
{
    if before.len() == 0 {
        after.len() == 0
    } else if hits(bullet, before.last()) {
        exists|rest: Seq<AstroidView>, pieces: Seq<AstroidView>|
            #![trigger rest.add(pieces)]
            struck(bullet, before.drop_last(), rest, spin) && remains_of(
                before.last(),
                pieces,
                spin,
            ) && after == rest.add(pieces)
    } else {
        after.len() > 0 && after.last() == before.last() && struck(
            bullet,
            before.drop_last(),
            after.drop_last(),
            spin,
        )
    }
}

/// The bullets that are kept, once `bullet` has met the asteroids `mid`: it
/// joins those kept before it if it is inside no asteroid and has not made
/// its full way.
pub open spec fn kept_after(kept_before: Seq<Bullet>, bullet: Bullet, mid: Seq<AstroidView>) -> Seq<
    Bullet,
> {
    if hits_any(bullet, mid) || bullet.distance >= BULLET_RANGE {
        kept_before
    } else {
        kept_before.push(bullet)
    }
}

/// Whether the bullets, one after the other, may leave `after` of the
/// asteroids `before`, and `kept` of themselves. A bullet meets what the
/// bullets before it have left. It is kept if it was inside no asteroid and
/// has not made its full way.
pub open spec fn swept<N: Fn() -> i64>(
    bullets: Seq<Bullet>,
    before: Seq<AstroidView>,
    after: Seq<AstroidView>,
    kept: Seq<Bullet>,
    spin: &N,
) -> bool
    decreases bullets.len(),
{
    if bullets.len() == 0 {
        after == before && kept.len() == 0
    } else {
        exists|mid: Seq<AstroidView>, kept_before: Seq<Bullet>|
            #![trigger kept_after(kept_before, bullets.last(), mid)]
            swept(bullets.drop_last(), before, mid, kept_before, spin) && struck(
                bullets.last(),
                mid,
                after,
                spin,
            ) && kept == kept_after(kept_before, bullets.last(), mid)
    }
}

impl SceneView {
    /// Whether this may be a new game of the given difficulty: a ship at
    /// rest in the middle, no bullet, and as many large asteroids as the
    /// difficulty says.
    pub open spec fn is_fresh(self, difficulty: nat) -> bool {
        &&& self.difficulty == difficulty
        &&& self.spaceship == fresh_ship()
        &&& self.bullets.len() == 0
        &&& self.astroids.len() == difficulty
        &&& forall|i: int| 0 <= i < self.astroids.len() ==> is_newcomer(#[trigger] self.astroids[i])
    }

    /// The game after the ship and the asteroids have moved for the time
    /// `dt`: the ship thrusts, turns, moves and waits, in this order.
    pub open spec fn drifted(self, dt: int) -> SceneView {
        let turned = self.spaceship.accelerated(dt).turned(dt);
        let moved = ShipView {
            obj: turned.obj.moved(dt, FIELD_SIZE as int, FIELD_SIZE as int),
            ..turned
        };
        SceneView {
            spaceship: moved.cooled(dt),
            astroids: Seq::new(
                self.astroids.len(),
                |i: int|
                    AstroidView {
                        obj: self.astroids[i].obj.moved(dt, FIELD_SIZE as int, FIELD_SIZE as int),
                        ..self.astroids[i]
                    },
            ),
            ..self
        }
    }

    /// Whether the ship touches an asteroid.
    pub open spec fn crashed(self) -> bool {
        exists|i: int|
            0 <= i < self.astroids.len() && self.spaceship.touches(
                (#[trigger] self.astroids[i]).edges(),
            )
    }

    /// The game after the ship has fired, if its fire key is down and it is
    /// ready.
    pub open spec fn with_shot(self) -> SceneView {
        if self.spaceship.firing && self.spaceship.ready() {
            SceneView {
                spaceship: self.spaceship.fired(),
                bullets: self.bullets.push(
                    Bullet::fired(
                        self.spaceship.obj.x,
                        self.spaceship.obj.y,
                        self.spaceship.sprite_theta as i64,
                    ),
                ),
                ..self
            }
        } else {
            self
        }
    }

    /// The bullets after the time `dt`.
    pub open spec fn flown(self, dt: int) -> Seq<Bullet> {
        Seq::new(
            self.bullets.len(),
            |i: int| self.bullets[i].moved(dt, FIELD_SIZE as int, FIELD_SIZE as int),
        )
    }
}

/// The difficulty that follows `difficulty`.
pub open spec fn next_level(difficulty: nat) -> nat {
    if difficulty < usize::MAX {
        difficulty + 1
    } else {
        difficulty
    }
}

/// Whether `next` may follow the game `before` on an update of the time
/// `dt`: the game that has ended, if the ship touches an asteroid; a new
/// game that is one harder, once no asteroid is left; else the game as the
/// frame leaves it.
pub open spec fn follows_update<N: Fn() -> i64>(
    before: SceneView,
    dt: int,
    next: Scene,
    spin: &N,
) -> bool {
    let drifted = before.drifted(dt);
    let shot = drifted.with_shot();
    if drifted.crashed() {
        next matches Scene::GameOver(ended) && ended@ == drifted
    } else {
        next matches Scene::Main(game) && exists|left: Seq<AstroidView>, kept: Seq<Bullet>|
            #![trigger swept(shot.flown(dt), shot.astroids, left, kept, spin)]
            swept(shot.flown(dt), shot.astroids, left, kept, spin) && if left.len() == 0 {
                game@.is_fresh(next_level(before.difficulty))
            } else {
                game@ == (SceneView { bullets: kept, astroids: left, ..shot })
            }
    }
}

/// Whether `next` may follow `before` on `event`; `None` stands for the end
/// of the program.
///
/// A game in progress takes each key for the ship, begins anew on `R` and
/// ends the program on `Q`. A game that has ended begins anew on `Space` or
/// `R`, ends the program on `Q`, and waits on anything else. Closing the
/// window ends the program.
pub open spec fn follows<N: Fn() -> i64>(
    before: Scene,
    event: Event,
    next: Option<Scene>,
    spin: &N,
) -> bool {
    match (before, event) {
        (_, Event::Closed) => next is None,
        (Scene::Main(game), Event::Update { dt }) => next matches Some(scene) && follows_update(
            game@,
            dt as int,
            scene,
            spin,
        ),
        (Scene::Main(_), Event::Press { key: Key::R }) => next matches Some(Scene::Main(game))
            && game@.is_fresh(1),
        (Scene::Main(_), Event::Press { key: Key::Q }) => next is None,
        (Scene::Main(game), Event::Press { key }) => next matches Some(Scene::Main(same)) && same@
            == (SceneView { spaceship: game@.spaceship.pressed(key), ..game@ }),
        (Scene::Main(game), Event::Release { key }) => next matches Some(Scene::Main(same))
            && same@ == (SceneView { spaceship: game@.spaceship.released(key), ..game@ }),
        (Scene::Main(game), _) => next matches Some(Scene::Main(same)) && same@ == game@,
        (Scene::GameOver(_), Event::Press { key: Key::Space })
        | (Scene::GameOver(_), Event::Press { key: Key::R }) => next matches Some(
            Scene::Main(game),
        ) && game@.is_fresh(1),
        (Scene::GameOver(_), Event::Press { key: Key::Q }) => next is None,
        (Scene::GameOver(ended), _) => next matches Some(Scene::GameOver(same)) && same@
            == ended@,
    }
}

impl Scene {
    /// What follows this scene on `event`; `None` stands for the end of the
    /// program.
    pub fn handle<N: Fn() -> i64>(
        self,
        event: Event,
        rng: &mut StdRng,
        config: &Config,
        spin: &N,
    ) -> (next: Option<Scene>)
        requires
            spin.requires(()),
        ensures
            follows(self, event, next, spin),
    {
        match (self, event) {
            (_, Event::Closed) => None,
            (Scene::Main(mut game), Event::Update { dt }) => {
                let ghost before = game@;
                let ghost shot = before.drifted(dt as int).with_shot();
                let outcome = game.update(dt, rng, config, spin);
                proof {
                    if !before.drifted(dt as int).crashed() {
                        assert(swept(
                            shot.flown(dt as int),
                            shot.astroids,
                            game@.astroids,
                            game@.bullets,
                            spin,
                        ));
                        assert(game@ == (SceneView {
                            bullets: game@.bullets,
                            astroids: game@.astroids,
                            ..shot
                        }));
                    }
                }
                match outcome {
                    Outcome::Running => Some(Scene::Main(game)),
                    Outcome::Crashed => Some(Scene::GameOver(game)),
                    Outcome::Cleared => {
                        let difficulty: usize = game.difficulty();
                        let harder: usize = if difficulty < usize::MAX {
                            difficulty + 1
                        } else {
                            difficulty
                        };
                        Some(Scene::Main(MainScene::new(harder, config, rng)))
                    },
                }
            },
            (Scene::Main(_), Event::Press { key: Key::R }) => Some(
                Scene::Main(MainScene::new(1, config, rng)),
            ),
            (Scene::Main(_), Event::Press { key: Key::Q }) => None,
            (Scene::Main(mut game), Event::Press { key }) => {
                game.press(key);
                Some(Scene::Main(game))
            },
            (Scene::Main(mut game), Event::Release { key }) => {
                game.release(key);
                Some(Scene::Main(game))
            },
            (Scene::Main(game), _) => Some(Scene::Main(game)),
            (Scene::GameOver(_), Event::Press { key: Key::Space })
            | (Scene::GameOver(_), Event::Press { key: Key::R }) => Some(
                Scene::Main(MainScene::new(1, config, rng)),
            ),
            (Scene::GameOver(_), Event::Press { key: Key::Q }) => None,
            (Scene::GameOver(ended), _) => Some(Scene::GameOver(ended)),
        }
    }
}

impl MainScene {
    /// A key went down.
    pub fn press(&mut self, key: Key)
        ensures
            final(self)@ == (SceneView {
                spaceship: old(self)@.spaceship.pressed(key),
                ..old(self)@
            }),
    {
        self.spaceship.handle_press(key);
    }

    /// A key came up.
    pub fn release(&mut self, key: Key)
        ensures
            final(self)@ == (SceneView {
                spaceship: old(self)@.spaceship.released(key),
                ..old(self)@
            }),
    {
        self.spaceship.handle_release(key);
    }

    /// A new game of the given difficulty.
    pub fn new(difficulty: usize, config: &Config, rng: &mut StdRng) -> (scene: MainScene)
        ensures
            scene@.is_fresh(difficulty as nat),
    {
        let mut astroids: Vec<Astroid> = Vec::new();
        let mut i: usize = 0;
        while i < difficulty
            invariant
                i <= difficulty,
                astroids.len() == i,
                forall|k: int| 0 <= k < i ==> is_newcomer(#[trigger] astroids@[k]@),
            decreases difficulty - i,
        {
            astroids.push(Astroid::large_new(config, rng));
            i += 1;
        }
        MainScene { difficulty, spaceship: Spaceship::new(config), bullets: Vec::new(), astroids }
    }

    /// A game that is put together from its parts.
    pub fn assemble(
        difficulty: usize,
        spaceship: Spaceship,
        bullets: Vec<Bullet>,
        astroids: Vec<Astroid>,
    ) -> (scene: MainScene)
        ensures
            scene@ == (SceneView {
                difficulty: difficulty as nat,
                spaceship: spaceship@,
                bullets: bullets@,
                astroids: views_of(astroids@),
            }),
    {
        MainScene { difficulty, spaceship, bullets, astroids }
    }

    /// How many asteroids a new game of this kind begins with.
    pub fn difficulty(&self) -> (difficulty: usize)
        ensures
            difficulty == self@.difficulty,
    {
        self.difficulty
    }

    /// The ship.
    pub fn spaceship(&self) -> (ship: &Spaceship)
        ensures
            ship@ == self@.spaceship,
    {
        &self.spaceship
    }

    /// The bullets in flight.
    pub fn bullets(&self) -> (bullets: &Vec<Bullet>)
        ensures
            bullets@ == self@.bullets,
    {
        &self.bullets
    }

    /// The asteroids.
    pub fn astroids(&self) -> (astroids: &Vec<Astroid>)
        ensures
            views_of(astroids@) == self@.astroids,
    {
        &self.astroids
    }
}

/// What the bullet leaves of the asteroids, and whether it was inside one.
fn strike<N: Fn() -> i64>(
    bullet: &Bullet,
    astroids: &Vec<Astroid>,
    rng: &mut StdRng,
    spin: &N,
) -> (r: (Vec<Astroid>, bool))
    requires
        spin.requires(()),
    ensures
        struck(*bullet, views_of(astroids@), views_of(r.0@), spin),
        r.1 == hits_any(*bullet, views_of(astroids@)),
{
    let mut left: Vec<Astroid> = Vec::new();
    let mut collided = false;
    let mut i: usize = 0;
    while i < astroids.len()
        invariant
            i <= astroids.len(),
            spin.requires(()),
            struck(*bullet, views_of(astroids@.take(i as int)), views_of(left@), spin),
            collided == hits_any(*bullet, views_of(astroids@.take(i as int))),
        decreases astroids.len() - i,
    {
        let astroid = &astroids[i];
        let ghost before = views_of(astroids@.take(i as int));
        let ghost now = views_of(astroids@.take(i + 1));
        let ghost rest = views_of(left@);
        proof {
            assert(now.last() == astroid@);
            assert(now.drop_last() =~= before);
        }
        if bullet.collides(astroid) {
            let mut pieces = astroid.explode(rng, spin);
            let ghost parts = views_of(pieces@);
            proof {
                assert forall|k: int| 0 <= k < parts.len() implies astroid@.may_spin_off(
                    #[trigger] parts[k],
                    spin,
                ) by {
                    assert(astroid@.may_spin_off(pieces@[k]@, spin));
                }
                assert(remains_of(astroid@, parts, spin));
            }
            left.append(&mut pieces);
            collided = true;
            proof {
                assert(views_of(left@) =~= rest.add(parts));
                assert(hits(*bullet, now[i as int]));
            }
        } else {
            left.push(astroid.clone());
            proof {
                assert(views_of(left@).last() == astroid@);
                assert(views_of(left@).drop_last() =~= rest);
                if hits_any(*bullet, now) {
                    let k = choose|k: int| 0 <= k < now.len() && hits(*bullet, #[trigger] now[k]);
                    assert(now[k] == before[k]);
                }
                if hits_any(*bullet, before) {
                    let k = choose|k: int|
                        0 <= k < before.len() && hits(*bullet, #[trigger] before[k]);
                    assert(now[k] == before[k]);
                }
            }
        }
        i += 1;
    }
    proof {
        assert(astroids@.take(i as int) == astroids@);
    }
    (left, collided)
}

impl MainScene {
    /// Moves the ship and the asteroids for the time `dt`.
    fn drift(&mut self, dt: i64, config: &Config)
        ensures
            final(self)@ == old(self)@.drifted(dt as int),
    {
        let width: i64 = config.width();
        let height: i64 = config.height();
        self.spaceship.accelerate(dt);
        self.spaceship.turn(dt);
        self.spaceship.go(dt, width, height);
        self.spaceship.cooldown(dt);
        let mut moved: Vec<Astroid> = Vec::new();
        let mut i: usize = 0;
        while i < self.astroids.len()
            invariant
                i <= self.astroids.len(),
                width == FIELD_SIZE,
                height == FIELD_SIZE,
                moved.len() == i,
                forall|k: int|
                    0 <= k < i ==> (#[trigger] moved@[k])@ == (AstroidView {
                        obj: self.astroids@[k]@.obj.moved(
                            dt as int,
                            FIELD_SIZE as int,
                            FIELD_SIZE as int,
                        ),
                        ..self.astroids@[k]@
                    }),
            decreases self.astroids.len() - i,
        {
            moved.push(self.astroids[i].after_go(dt, width, height));
            i += 1;
        }
        proof {
            assert(views_of(moved@) =~= old(self)@.drifted(dt as int).astroids);
        }
        self.astroids = moved;
    }

    /// Whether the ship touches an asteroid.
    fn crashed(&self) -> (hit: bool)
        ensures
            hit == self@.crashed(),
    {
        let mut i: usize = 0;
        while i < self.astroids.len()
            invariant
                i <= self.astroids.len(),
                forall|k: int|
                    0 <= k < i ==> !self@.spaceship.touches(
                        (#[trigger] self@.astroids[k]).edges(),
                    ),
            decreases self.astroids.len() - i,
        {
            let edges = self.astroids[i].edges();
            if self.spaceship.collides(&edges) {
                proof {
                    assert(self@.spaceship.touches(self@.astroids[i as int].edges()));
                }
                return true;
            }
            i += 1;
        }
        false
    }

    /// Fires, if the fire key is down and the ship is ready.
    fn shoot(&mut self)
        ensures
            final(self)@ == old(self)@.with_shot(),
    {
        if self.spaceship.is_firing() && self.spaceship.ready_to_fire() {
            self.spaceship.fire(&mut self.bullets);
        }
    }

    /// One frame of the time `dt`.
    ///
    /// The ship thrusts, turns, moves and waits, and the asteroids move. If
    /// the ship then touches an asteroid, the frame ends there. Else the
    /// ship fires, if it is to, and the bullets move, one after the other:
    /// an asteroid that a bullet is inside breaks, and the bullet is spent.
    /// Each piece takes a change of heading of its own from `spin`.
    pub fn update<N: Fn() -> i64>(
        &mut self,
        dt: i64,
        rng: &mut StdRng,
        config: &Config,
        spin: &N,
    ) -> (outcome: Outcome)
        requires
            spin.requires(()),
        ensures
            old(self)@.drifted(dt as int).crashed() ==> outcome == Outcome::Crashed && final(self)@
                == old(self)@.drifted(dt as int),
            !old(self)@.drifted(dt as int).crashed() ==> {
                let shot = old(self)@.drifted(dt as int).with_shot();
                &&& final(self)@.difficulty == shot.difficulty
                &&& final(self)@.spaceship == shot.spaceship
                &&& swept(
                    shot.flown(dt as int),
                    shot.astroids,
                    final(self)@.astroids,
                    final(self)@.bullets,
                    spin,
                )
                &&& outcome == if final(self)@.astroids.len() == 0 {
                    Outcome::Cleared
                } else {
                    Outcome::Running
                }
            },
    {
        self.drift(dt, config);
        if self.crashed() {
            return Outcome::Crashed;
        }
        self.shoot();
        let width: i64 = config.width();
        let height: i64 = config.height();
        let ghost shot = self@;
        let ghost flown = shot.flown(dt as int);
        let mut kept: Vec<Bullet> = Vec::new();
        let mut j: usize = 0;
        while j < self.bullets.len()
            invariant
                j <= self.bullets.len(),
                spin.requires(()),
                width == FIELD_SIZE,
                height == FIELD_SIZE,
                self.bullets@ == shot.bullets,
                self.spaceship@ == shot.spaceship,
                self.difficulty == shot.difficulty,
                flown == shot.flown(dt as int),
                swept(flown.take(j as int), shot.astroids, views_of(self.astroids@), kept@, spin),
            decreases self.bullets.len() - j,
        {
            let mut bullet: Bullet = self.bullets[j];
            bullet.go(dt, width, height);
            let ghost mid = views_of(self.astroids@);
            let ghost kept_before = kept@;
            let (next, collided) = strike(&bullet, &self.astroids, rng, spin);
            self.astroids = next;
            if !collided && bullet.is_alive() {
                kept.push(bullet);
            }
            proof {
                assert(flown.take(j + 1).last() == bullet);
                assert(flown.take(j + 1).drop_last() =~= flown.take(j as int));
                assert(kept@ == kept_after(kept_before, bullet, mid));
            }
            j += 1;
        }
        proof {
            assert(flown.take(j as int) == flown);
        }
        self.bullets = kept;
        if self.astroids.len() == 0 {
            Outcome::Cleared
        } else {
            Outcome::Running
        }
    }
}

} // verus!
