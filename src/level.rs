//! Bullets and enemies, both driven by the scripted-entity engine, and the
//! level that owns them together with the player.
use vstd::prelude::*;
use crate::math::{
    Point, Vector, UNIT, COORD_MAX, MDEG, within, rotated, aimed, div_to_zero, lemma_rotated_bound,
    lemma_aimed_bound,
};
use crate::collision::{in_field, point_in_field, circles_overlap};
use crate::script::{
    ScriptedEvent, Script, valid_schedule, ticks_of, run_cursor, lemma_run_cursor,
    lemma_event_fires_once,
};
use crate::player::{
    Player, PlayerEvent, PLAYER_RADIUS, transition_spec, player_stepped, keys_velocity,
    machine_commands,
};
use crate::engine::{KeyState, DrawCommand, Color};

verus! {

/// Speed of each bullet of a fan shot, per tick.
pub const NWAY_SPEED: i64 = 2 * UNIT;

/// Speed of an aimed bullet, per tick.
pub const AIM_SPEED: i64 = UNIT;

/// Radius of a bullet's body.
pub const BULLET_RADIUS: i64 = 10 * UNIT;

/// Radius of an enemy's body.
pub const ENEMY_RADIUS: i64 = 20 * UNIT;

/// A change to a bullet's motion.
#[derive(Clone, Copy, PartialEq, Eq, Structural, Debug)]
pub enum BulletEventType {
    /// Rotates the velocity by this many thousandths of a degree.
    RotateVel(i64),
    SetVel(Vector),
    SetAcc(Vector),
}

pub type BulletEvent = ScriptedEvent<BulletEventType>;

/// A projectile: a script, a position, a velocity and an acceleration.
#[derive(Clone, Debug)]
pub struct Bullet {
    pub script: Script<BulletEventType>,
    pub pos: Point,
    pub vel: Vector,
    pub acc: Vector,
}

/// Velocity and acceleration `(vx, vy, ax, ay)` once `ev` has applied to
/// velocity `(vx, vy)` and acceleration `acc`.
pub open spec fn after_bullet_event(vx: int, vy: int, acc: Vector, ev: Option<BulletEvent>) -> (
    int,
    int,
    int,
    int,
) {
    match ev {
        None => (vx, vy, acc.x as int, acc.y as int),
        Some(e) => match e.event_ty {
            BulletEventType::RotateVel(deg) => {
                let r = rotated(vx, vy, deg as int);
                (r.0, r.1, acc.x as int, acc.y as int)
            },
            BulletEventType::SetVel(v) => (v.x as int, v.y as int, acc.x as int, acc.y as int),
            BulletEventType::SetAcc(a) => (vx, vy, a.x as int, a.y as int),
        },
    }
}

/// `b` is a new bullet at `pos` with velocity `(vx, vy)`, no acceleration
/// and no events.
pub open spec fn is_shot(b: Bullet, pos: Point, vx: int, vy: int) -> bool {
    &&& b.script.wf()
    &&& b.script.frame == 0
    &&& b.script.events@.len() == 0
    &&& b.pos == pos
    &&& b.vel.x == vx && b.vel.y == vy
    &&& b.acc.x == 0 && b.acc.y == 0
}

impl Bullet {
    /// Coordinates small enough for a tick, and an age that can grow.
    pub open spec fn wf(&self) -> bool {
        &&& self.script.wf()
        &&& self.script.frame < u64::MAX
        &&& within(self.pos.x as int, self.pos.y as int, COORD_MAX as int)
        &&& within(self.vel.x as int, self.vel.y as int, COORD_MAX as int)
        &&& within(self.acc.x as int, self.acc.y as int, COORD_MAX as int)
    }

    /// One tick of `old` leads to `new`: the age grows by one, the
    /// acceleration is added to the velocity and the velocity to the
    /// position, then the event whose trigger equals the new age, if it is
    /// under the cursor, applies and the cursor moves past it.
    pub open spec fn stepped(old: Bullet, new: Bullet) -> bool {
        let vx = old.vel.x + old.acc.x;
        let vy = old.vel.y + old.acc.y;
        let k = after_bullet_event(vx, vy, old.acc, old.script.firing());
        &&& new.script.wf()
        &&& new.script.frame == old.script.frame + 1
        &&& new.script.events@ == old.script.events@
        &&& new.script.cursor() == crate::script::next_cursor(
            old.script.ats(),
            old.script.frame as int,
            old.script.cursor(),
        )
        &&& new.pos.x == old.pos.x + vx
        &&& new.pos.y == old.pos.y + vy
        &&& (new.vel.x as int, new.vel.y as int, new.acc.x as int, new.acc.y as int) == k
    }

    /// A bullet with the given motion and events, age zero.
    pub fn new(pos: Point, vel: Vector, acc: Vector, events: Vec<BulletEvent>) -> (r: Bullet)
        ensures
            r.script.wf(),
            r.script.frame == 0,
            r.script.events@ == events@,
            r.script.cursor() == 0,
            r.pos == pos,
            r.vel == vel,
            r.acc == acc,
    {
        Bullet { script: Script::new(events), pos, vel, acc }
    }

    /// One tick; see `stepped`.
    pub fn update(&mut self)
        requires
            old(self).wf(),
        ensures
            Bullet::stepped(*old(self), *final(self)),
            final(self).script.frame == old(self).script.frame + 1,
            final(self).script.cursor() >= old(self).script.cursor(),
    {
        self.vel.add_assign(self.acc);
        self.pos.add_assign(self.vel);
        let fired = self.script.tick();
        match fired {
            None => {},
            Some(i) => {
                let ev = self.script.events[i].event_ty;
                match ev {
                    BulletEventType::RotateVel(deg) => {
                        self.vel = self.vel.rotate(deg);
                    },
                    BulletEventType::SetVel(vel) => {
                        self.vel = vel;
                    },
                    BulletEventType::SetAcc(acc) => {
                        self.acc = acc;
                    },
                }
            },
        }
    }

    /// Whether the bullet is inside the play field, edges included.
    pub fn in_canvas(&self) -> (r: bool)
        ensures
            r == in_field(self.pos.x as int, self.pos.y as int),
    {
        point_in_field(&self.pos)
    }

    pub fn pos(&self) -> (r: Point)
        ensures
            r == self.pos,
    {
        self.pos
    }
}

/// Largest angle magnitude, in thousandths of a degree, a fan shot may be
/// authored with.
pub const ANGLE_MAX: i64 = 1_000_000_000_000;

/// What an enemy does when one of its events fires.
#[derive(Clone, Copy, PartialEq, Eq, Structural, Debug)]
pub enum EnemyEventType {
    /// Fires `n` bullets fanned evenly over `wide_deg` around `center_deg`
    /// (both in thousandths of a degree); a single bullet goes exactly at
    /// `center_deg`.
    Nways { n: u16, wide_deg: i64, center_deg: i64 },
    /// Fires one bullet from the enemy toward the player.
    AimShot,
}

pub type EnemyEvent = ScriptedEvent<EnemyEventType>;

/// An enemy: a script, a position and a constant velocity.
#[derive(Clone, Debug)]
pub struct Enemy {
    pub script: Script<EnemyEventType>,
    pub pos: Point,
    pub vel: Vector,
}

/// Heading of bullet `k` of an `n`-way fan of total spread `wide` around
/// `center`: offsets of `wide/(n - 1)` apart, from `-wide/2` to `wide/2`,
/// each rounded toward zero so that the fan is symmetric; a single bullet
/// goes at `center` itself.
pub open spec fn nway_heading(n: int, wide: int, center: int, k: int) -> int {
    if n == 1 {
        center
    } else {
        center + div_to_zero((2 * k - (n - 1)) * wide, 2 * (n - 1))
    }
}

/// A fan is symmetric about its centre: the headings of bullets `k` and
/// `n - 1 - k` add up to twice the centre.
pub proof fn lemma_nway_symmetric(n: int, wide: int, center: int, k: int)
    requires
        n >= 1,
        0 <= k < n,
    ensures
        nway_heading(n, wide, center, k) + nway_heading(n, wide, center, n - 1 - k) == 2 * center,
{
    if n > 1 {
        let a = (2 * k - (n - 1)) * wide;
        let b = (2 * (n - 1 - k) - (n - 1)) * wide;
        assert(b == -a) by (nonlinear_arith)
            requires
                a == (2 * k - (n - 1)) * wide,
                b == (2 * (n - 1 - k) - (n - 1)) * wide,
        ;
        assert(0int / (2 * (n - 1)) == 0);
    }
}

/// The event can be carried out without overflow.
pub open spec fn enemy_event_wf(e: EnemyEvent) -> bool {
    match e.event_ty {
        EnemyEventType::Nways { n, wide_deg, center_deg } => {
            &&& 0 <= wide_deg <= ANGLE_MAX
            &&& -ANGLE_MAX <= center_deg <= ANGLE_MAX
        },
        EnemyEventType::AimShot => true,
    }
}

/// Velocities of the bullets `ev` fires from `pos` with the player at
/// `target`, in firing order.
pub open spec fn enemy_shots(ev: Option<EnemyEvent>, pos: Point, target: Point) -> Seq<(int, int)> {
    match ev {
        None => Seq::empty(),
        Some(e) => match e.event_ty {
            EnemyEventType::Nways { n, wide_deg, center_deg } => Seq::new(
                n as nat,
                |k: int|
                    rotated(
                        NWAY_SPEED as int,
                        0,
                        nway_heading(n as int, wide_deg as int, center_deg as int, k),
                    ),
            ),
            EnemyEventType::AimShot => seq![
                aimed(
                    pos.x as int,
                    pos.y as int,
                    target.x as int,
                    target.y as int,
                    AIM_SPEED as int,
                ),
            ],
        },
    }
}

/// No bullet an enemy fires is faster, along either axis, than a fan shot.
pub proof fn lemma_enemy_shots_bound(ev: Option<EnemyEvent>, pos: Point, target: Point)
    ensures
        forall|k: int|
            0 <= k < enemy_shots(ev, pos, target).len() ==> within(
                (#[trigger] enemy_shots(ev, pos, target)[k]).0,
                enemy_shots(ev, pos, target)[k].1,
                NWAY_SPEED as int,
            ),
{
    match ev {
        None => {},
        Some(e) => match e.event_ty {
            EnemyEventType::Nways { n, wide_deg, center_deg } => {
                assert forall|k: int| 0 <= k < n implies within(
                    (#[trigger] enemy_shots(ev, pos, target)[k]).0,
                    enemy_shots(ev, pos, target)[k].1,
                    NWAY_SPEED as int,
                ) by {
                    lemma_rotated_bound(
                        NWAY_SPEED as int,
                        0,
                        nway_heading(n as int, wide_deg as int, center_deg as int, k),
                    );
                }
            },
            EnemyEventType::AimShot => {
                lemma_aimed_bound(
                    pos.x as int,
                    pos.y as int,
                    target.x as int,
                    target.y as int,
                    AIM_SPEED as int,
                );
            },
        },
    }
}

/// Headings of an `n`-way fan, in thousandths of a degree.
pub fn nway_headings(n: u16, wide_deg: i64, center_deg: i64) -> (r: Vec<i64>)
    requires
        0 <= wide_deg <= ANGLE_MAX,
        -ANGLE_MAX <= center_deg <= ANGLE_MAX,
    ensures
        r@.len() == n,
        forall|k: int|
            0 <= k < n ==> r@[k] == nway_heading(n as int, wide_deg as int, center_deg as int, k),
        forall|k: int| 0 <= k < n ==> #[trigger] r@[k] + r@[n - 1 - k] == 2 * center_deg,
{
    let mut r: Vec<i64> = Vec::new();
    let mut k: u16 = 0;
    while k < n
        invariant
            k <= n,
            0 <= wide_deg <= ANGLE_MAX,
            -ANGLE_MAX <= center_deg <= ANGLE_MAX,
            r@.len() == k,
            forall|j: int|
                0 <= j < k ==> r@[j] == nway_heading(n as int, wide_deg as int, center_deg as int, j),
        decreases n - k,
    {
        let h: i64 = if n == 1 {
            center_deg
        } else {
            let m: i64 = 2 * (k as i64) - (n as i64 - 1);
            assert(-ANGLE_MAX * 65535 <= m * wide_deg <= ANGLE_MAX * 65535) by (nonlinear_arith)
                requires
                    0 <= wide_deg <= ANGLE_MAX,
                    -65535 <= m <= 65535,
            ;
            let off = crate::math::div_toward_zero(m * wide_deg, 2 * (n as i64 - 1));
            proof {
                crate::math::lemma_div_to_zero_bound(
                    m * wide_deg,
                    2 * (n - 1),
                    ANGLE_MAX * 65535,
                );
                assert(ANGLE_MAX * 65535 <= ANGLE_MAX * 65535 * (2 * (n - 1))) by (nonlinear_arith)
                    requires
                        n >= 2,
                ;
            }
            center_deg + off
        };
        r.push(h);
        k = k + 1;
    }
    proof {
        assert forall|k: int| 0 <= k < n implies #[trigger] r@[k] + r@[n - 1 - k] == 2 * center_deg by {
            lemma_nway_symmetric(n as int, wide_deg as int, center_deg as int, k);
        }
    }
    r
}

impl Enemy {
    /// Coordinates in range, and events whose angles stay in range.
    pub open spec fn wf(&self) -> bool {
        &&& self.script.wf()
        &&& within(self.pos.x as int, self.pos.y as int, COORD_MAX as int)
        &&& within(self.vel.x as int, self.vel.y as int, COORD_MAX as int)
        &&& forall|i: int| 0 <= i < self.script.events@.len() ==> enemy_event_wf(
            #[trigger] self.script.events@[i],
        )
    }

    /// The next move keeps the position in range, and the age can grow.
    pub open spec fn can_step(&self) -> bool {
        &&& within(self.pos.x + self.vel.x, self.pos.y + self.vel.y, COORD_MAX as int)
        &&& self.script.frame < u64::MAX
    }

    /// One tick of `old` leads to `new`: the age grows by one, the
    /// velocity is added to the position, and the cursor moves past the
    /// event that fires, if any.
    pub open spec fn stepped(old: Enemy, new: Enemy) -> bool {
        &&& new.script.wf()
        &&& new.script.frame == old.script.frame + 1
        &&& new.script.events@ == old.script.events@
        &&& new.script.cursor() == crate::script::next_cursor(
            old.script.ats(),
            old.script.frame as int,
            old.script.cursor(),
        )
        &&& new.pos.x == old.pos.x + old.vel.x
        &&& new.pos.y == old.pos.y + old.vel.y
        &&& new.vel == old.vel
    }

    /// An enemy with the given motion and events, age zero.
    pub fn new(pos: Point, vel: Vector, events: Vec<EnemyEvent>) -> (r: Enemy)
        ensures
            r.script.wf(),
            r.script.frame == 0,
            r.script.events@ == events@,
            r.script.cursor() == 0,
            r.pos == pos,
            r.vel == vel,
    {
        Enemy { script: Script::new(events), pos, vel }
    }

    /// One tick; see `stepped`. Bullets fired by the event that fires are
    /// appended to `bullets`, from the enemy's new position.
    pub fn update(&mut self, bullets: &mut Vec<Bullet>, player: &Player)
        requires
            old(self).wf(),
            old(self).can_step(),
            player.wf(),
        ensures
            Enemy::stepped(*old(self), *final(self)),
            final(self).wf(),
            ({
                let shots = enemy_shots(
                    old(self).script.firing(),
                    final(self).pos,
                    player.ctx().position,
                );
                &&& final(bullets)@.len() == old(bullets)@.len() + shots.len()
                &&& forall|i: int|
                    0 <= i < old(bullets)@.len() ==> final(bullets)@[i] == old(bullets)@[i]
                &&& forall|k: int|
                    0 <= k < shots.len() ==> is_shot(
                        #[trigger] final(bullets)@[old(bullets)@.len() + k],
                        final(self).pos,
                        shots[k].0,
                        shots[k].1,
                    )
            }),
    {
        self.pos.add_assign(self.vel);
        let ghost firing = self.script.firing();
        let fired = self.script.tick();
        match fired {
            None => {},
            Some(i) => {
                let ev = self.script.events[i].event_ty;
                assert(enemy_event_wf(self.script.events@[i as int]));
                match ev {
                    EnemyEventType::Nways { n, wide_deg, center_deg } => {
                        let headings = nway_headings(n, wide_deg, center_deg);
                        let ghost start = bullets@.len();
                        let mut k: usize = 0;
                        while k < headings.len()
                            invariant
                                k <= headings@.len(),
                                headings@.len() == n,
                                forall|j: int|
                                    0 <= j < n ==> headings@[j] == nway_heading(
                                        n as int,
                                        wide_deg as int,
                                        center_deg as int,
                                        j,
                                    ),
                                bullets@.len() == start + k,
                                start == old(bullets)@.len(),
                                forall|j: int|
                                    0 <= j < start ==> bullets@[j] == old(bullets)@[j],
                                forall|j: int|
                                    0 <= j < k ==> is_shot(
                                        #[trigger] bullets@[start + j],
                                        self.pos,
                                        enemy_shots(firing, self.pos, player.ctx().position)[j].0,
                                        enemy_shots(firing, self.pos, player.ctx().position)[j].1,
                                    ),
                                i < self.script.events@.len(),
                                firing == Some(self.script.events@[i as int]),
                                self.script.events@[i as int].event_ty == (EnemyEventType::Nways {
                                    n,
                                    wide_deg,
                                    center_deg,
                                }),
                            decreases headings@.len() - k,
                        {
                            let v = Vector::from_deg_and_mag(headings[k], NWAY_SPEED);
                            let b = Bullet::new(self.pos, v, Vector::zero(), Vec::new());
                            bullets.push(b);
                            k = k + 1;
                        }
                    },
                    EnemyEventType::AimShot => {
                        let target = player.state_machine.context().position;
                        let v = Vector::aimed(&self.pos, &target, AIM_SPEED);
                        bullets.push(Bullet::new(self.pos, v, Vector::zero(), Vec::new()));
                    },
                }
            },
        }
    }
}

impl Bullet {
    /// A black circle of the bullet's radius.
    pub fn draw(&self, out: &mut Vec<DrawCommand>)
        ensures
            final(out)@ == old(out)@ + seq![
                DrawCommand::SetColor(Color::Black),
                DrawCommand::StrokeCircle(self.pos, BULLET_RADIUS),
            ],
    {
        out.push(DrawCommand::SetColor(Color::Black));
        out.push(DrawCommand::StrokeCircle(self.pos, BULLET_RADIUS));
        assert(out@ =~= old(out)@ + seq![
            DrawCommand::SetColor(Color::Black),
            DrawCommand::StrokeCircle(self.pos, BULLET_RADIUS),
        ]);
    }
}

impl Enemy {
    /// A pink circle of the enemy's radius.
    pub fn draw(&self, out: &mut Vec<DrawCommand>)
        ensures
            final(out)@ == old(out)@ + seq![
                DrawCommand::SetColor(Color::Pink),
                DrawCommand::StrokeCircle(self.pos, ENEMY_RADIUS),
            ],
    {
        out.push(DrawCommand::SetColor(Color::Pink));
        out.push(DrawCommand::StrokeCircle(self.pos, ENEMY_RADIUS));
        assert(out@ =~= old(out)@ + seq![
            DrawCommand::SetColor(Color::Pink),
            DrawCommand::StrokeCircle(self.pos, ENEMY_RADIUS),
        ]);
    }
}

/// The player, the enemies and the bullets of one play session.
#[derive(Clone, Debug)]
pub struct Level {
    pub player: Player,
    pub enemies: Vec<Enemy>,
    pub bullets: Vec<Bullet>,
}

/// The bullet lies in the play field.
pub open spec fn bullet_in_field(b: Bullet) -> bool {
    in_field(b.pos.x as int, b.pos.y as int)
}

/// The test that decides which bullets survive a cull.
pub open spec fn keep_bullet() -> spec_fn(Bullet) -> bool {
    |b: Bullet| bullet_in_field(b)
}

/// `b` is what a fresh bullet at `pos` with velocity `(vx, vy)` becomes
/// after its first tick.
pub open spec fn shot_after_tick(b: Bullet, pos: Point, vx: int, vy: int) -> bool {
    &&& b.script.wf()
    &&& b.script.frame == 1
    &&& b.script.events@.len() == 0
    &&& b.pos.x == pos.x + vx && b.pos.y == pos.y + vy
    &&& b.vel.x == vx && b.vel.y == vy
    &&& b.acc.x == 0 && b.acc.y == 0
}

/// Where and with what velocity each bullet fired by the enemies `olds`
/// (which became `news` on this tick) starts, enemy by enemy, with the
/// player at `target`.
pub open spec fn shots_of(olds: Seq<Enemy>, news: Seq<Enemy>, target: Point) -> Seq<(Point, (int, int))>
    decreases olds.len(),
{
    if olds.len() == 0 || news.len() != olds.len() {
        Seq::empty()
    } else {
        let o = olds.last();
        let n = news.last();
        shots_of(olds.drop_last(), news.drop_last(), target) + enemy_shots(
            o.script.firing(),
            n.pos,
            target,
        ).map_values(|v: (int, int)| (n.pos, v))
    }
}

/// The player once the keys of this tick have been applied: a move and a
/// tick, then a bomb if the bomb key is held.
pub open spec fn player_after_input(p: Player, k: KeyState) -> Player {
    let v = keys_velocity(k);
    let p1 = player_stepped(p, v.0 as i64, v.1 as i64);
    if k.pressed().contains("KeyJ"@) {
        Player { state_machine: transition_spec(p1.state_machine, PlayerEvent::Bomb) }
    } else {
        p1
    }
}

/// Some bullet of `bs` overlaps the hitbox of a player at `pos`.
pub open spec fn any_collision(pos: Point, bs: Seq<Bullet>) -> bool {
    exists|i: int|
        0 <= i < bs.len() && circles_overlap(
            pos,
            PLAYER_RADIUS as int,
            (#[trigger] bs[i]).pos,
            BULLET_RADIUS as int,
        )
}

/// The enemy's script in the opening scene: a four-way fan spread over
/// 90 degrees around straight down at tick 120, then aimed shots at ticks
/// 130, 135 and 140.
pub open spec fn opening_enemy_events() -> Seq<EnemyEvent> {
    seq![
        ScriptedEvent {
            at: 120,
            event_ty: EnemyEventType::Nways { n: 4, wide_deg: 90_000, center_deg: 90_000 },
        },
        ScriptedEvent { at: 130, event_ty: EnemyEventType::AimShot },
        ScriptedEvent { at: 135, event_ty: EnemyEventType::AimShot },
        ScriptedEvent { at: 140, event_ty: EnemyEventType::AimShot },
    ]
}

/// The bullet's script in the opening scene: turn by 30 degrees at ticks
/// 20 and 40, accelerate by (50, 20) from tick 60, drift at (-300, 0) from
/// tick 80.
pub open spec fn opening_bullet_events() -> Seq<BulletEvent> {
    seq![
        ScriptedEvent { at: 20, event_ty: BulletEventType::RotateVel(30_000) },
        ScriptedEvent { at: 40, event_ty: BulletEventType::RotateVel(30_000) },
        ScriptedEvent { at: 60, event_ty: BulletEventType::SetAcc(Vector { x: 50, y: 20 }) },
        ScriptedEvent { at: 80, event_ty: BulletEventType::SetVel(Vector { x: -300i64, y: 0 }) },
    ]
}

/// Both opening scripts have valid schedules.
pub proof fn lemma_opening_schedules()
    ensures
        valid_schedule(ticks_of(opening_enemy_events())),
        valid_schedule(ticks_of(opening_bullet_events())),
{
    assert(ticks_of(opening_enemy_events()) =~= seq![120int, 130, 135, 140]);
    assert(ticks_of(opening_bullet_events()) =~= seq![20int, 40, 60, 80]);
}

/// `l` is the opening scene: the fresh player; one enemy at (300, 50) px,
/// standing still; one bullet at (300, 50) px moving down at 4 px per tick
/// without acceleration; both aged zero with the cursor on their first
/// event.
pub open spec fn is_opening_scene(l: Level) -> bool {
    let e = l.enemies@[0];
    let b = l.bullets@[0];
    &&& l.player == Player::new_spec()
    &&& l.enemies@.len() == 1
    &&& l.bullets@.len() == 1
    &&& e.pos == (Point { x: 300_000, y: 50_000 })
    &&& e.vel == (Vector { x: 0, y: 0 })
    &&& e.script.frame == 0
    &&& e.script.next_event == Some(0usize)
    &&& e.script.events@ == opening_enemy_events()
    &&& b.pos == (Point { x: 300_000, y: 50_000 })
    &&& b.vel == (Vector { x: 0, y: 4_000 })
    &&& b.acc == (Vector { x: 0, y: 0 })
    &&& b.script.frame == 0
    &&& b.script.next_event == Some(0usize)
    &&& b.script.events@ == opening_bullet_events()
}

/// Draw commands of each enemy in turn.
pub open spec fn enemies_commands(es: Seq<Enemy>) -> Seq<DrawCommand>
    decreases es.len(),
{
    if es.len() == 0 {
        Seq::empty()
    } else {
        enemies_commands(es.drop_last()) + seq![
            DrawCommand::SetColor(Color::Pink),
            DrawCommand::StrokeCircle(es.last().pos, ENEMY_RADIUS),
        ]
    }
}

/// Draw commands of each bullet in turn.
pub open spec fn bullets_commands(bs: Seq<Bullet>) -> Seq<DrawCommand>
    decreases bs.len(),
{
    if bs.len() == 0 {
        Seq::empty()
    } else {
        bullets_commands(bs.drop_last()) + seq![
            DrawCommand::SetColor(Color::Black),
            DrawCommand::StrokeCircle(bs.last().pos, BULLET_RADIUS),
        ]
    }
}

/// After a tick, every bullet left lies in the play field: one that has
/// left it is gone by the end of the tick that took it out.
pub proof fn lemma_tick_culls(old: Level, new: Level, k: KeyState)
    requires
        Level::ticked(old, new, k),
    ensures
        forall|i: int| 0 <= i < new.bullets@.len() ==> bullet_in_field(#[trigger] new.bullets@[i]),
{
    let p = player_after_input(old.player, k);
    let shots = shots_of(old.enemies@, new.enemies@, p.ctx().position);
    let n = old.bullets@.len();
    let mid = choose|mid: Seq<Bullet>|
        {
            &&& mid.len() == n + shots.len()
            &&& forall|i: int| 0 <= i < n ==> Bullet::stepped(#[trigger] old.bullets@[i], mid[i])
            &&& forall|j: int|
                0 <= j < shots.len() ==> shot_after_tick(
                    #[trigger] mid[n + j],
                    shots[j].0,
                    shots[j].1.0,
                    shots[j].1.1,
                )
            &&& new.bullets@ == mid.filter(keep_bullet())
        };
    assert forall|i: int| 0 <= i < new.bullets@.len() implies bullet_in_field(
        #[trigger] new.bullets@[i],
    ) by {
        mid.lemma_filter_pred(keep_bullet(), i);
    }
}

/// Each bullet there was before a tick has a successor, one tick on, that
/// is still there after the tick if and only if it lies in the play field.
pub proof fn lemma_tick_keeps_bullets_in_field(old: Level, new: Level, k: KeyState, i: int)
    requires
        Level::ticked(old, new, k),
        0 <= i < old.bullets@.len(),
    ensures
        exists|b: Bullet|
            Bullet::stepped(old.bullets@[i], b) && (bullet_in_field(b) <==> new.bullets@.contains(b)),
{
    let p = player_after_input(old.player, k);
    let shots = shots_of(old.enemies@, new.enemies@, p.ctx().position);
    let n = old.bullets@.len();
    let mid = choose|mid: Seq<Bullet>|
        {
            &&& mid.len() == n + shots.len()
            &&& forall|i: int| 0 <= i < n ==> Bullet::stepped(#[trigger] old.bullets@[i], mid[i])
            &&& forall|j: int|
                0 <= j < shots.len() ==> shot_after_tick(
                    #[trigger] mid[n + j],
                    shots[j].0,
                    shots[j].1.0,
                    shots[j].1.1,
                )
            &&& new.bullets@ == mid.filter(keep_bullet())
        };
    let b = mid[i];
    assert(Bullet::stepped(old.bullets@[i], b));
    if bullet_in_field(b) {
        mid.lemma_filter_contains(keep_bullet(), i);
    } else if new.bullets@.contains(b) {
        lemma_tick_culls(old, new, k);
        let j = choose|j: int| 0 <= j < new.bullets@.len() && new.bullets@[j] == b;
        assert(bullet_in_field(new.bullets@[j]));
    }
}

proof fn lemma_bullet_run(bs: Seq<Bullet>, u: int)
    requires
        bs.len() >= 1,
        bs[0].script.frame == 0,
        bs[0].script.cursor() == 0,
        forall|v: int| 0 <= v < bs.len() - 1 ==> Bullet::stepped(#[trigger] bs[v], bs[v + 1]),
        0 <= u < bs.len(),
    ensures
        bs[u].script.frame == u,
        bs[u].script.events@ == bs[0].script.events@,
        bs[u].script.cursor() == run_cursor(bs[0].script.ats(), u as nat),
    decreases u,
{
    if u > 0 {
        lemma_bullet_run(bs, u - 1);
        assert(Bullet::stepped(bs[u - 1], bs[u]));
    }
}

/// A bullet that starts fresh, with a valid schedule, and is ticked again
/// and again (`bs[t]` after `t` ticks): event `j` fires on tick `t`, the
/// one that takes the age from `t - 1` to `t`, exactly when `t` is its
/// trigger; and after `t` ticks it has been applied exactly when its
/// trigger is at most `t`.
pub proof fn lemma_bullet_event_fires_once(bs: Seq<Bullet>, j: int, t: int)
    requires
        bs.len() >= 1,
        bs[0].script.frame == 0,
        bs[0].script.cursor() == 0,
        valid_schedule(bs[0].script.ats()),
        forall|v: int| 0 <= v < bs.len() - 1 ==> Bullet::stepped(#[trigger] bs[v], bs[v + 1]),
        0 <= j < bs[0].script.events@.len(),
        1 <= t < bs.len(),
    ensures
        (bs[t - 1].script.cursor() == j && bs[t - 1].script.firing() is Some)
            <==> t == bs[0].script.events@[j].at,
        bs[t].script.cursor() > j <==> bs[0].script.events@[j].at <= t,
{
    let ats = bs[0].script.ats();
    lemma_bullet_run(bs, t - 1);
    lemma_bullet_run(bs, t);
    lemma_event_fires_once(ats, j, t);
    lemma_run_cursor(ats, t as nat);
    assert(ats[j] == bs[0].script.events@[j].at);
}

/// What holds of every bullet of `s` holds of every bullet that survives
/// a cull of `s`.
proof fn lemma_filter_keeps(s: Seq<Bullet>, q: spec_fn(Bullet) -> bool)
    requires
        forall|i: int| 0 <= i < s.len() ==> q(#[trigger] s[i]),
    ensures
        forall|i: int|
            0 <= i < s.filter(keep_bullet()).len() ==> q(#[trigger] s.filter(keep_bullet())[i]),
    decreases s.len(),
{
    reveal(Seq::filter);
    if s.len() > 0 {
        let d = s.drop_last();
        assert forall|i: int| 0 <= i < d.len() implies q(#[trigger] d[i]) by {
            assert(d[i] == s[i]);
        }
        lemma_filter_keeps(d, q);
        let f = s.filter(keep_bullet());
        assert forall|i: int| 0 <= i < f.len() implies q(#[trigger] f[i]) by {
            if i < d.filter(keep_bullet()).len() {
                assert(f[i] == d.filter(keep_bullet())[i]);
            } else {
                assert(f[i] == s.last());
            }
        }
    }
}

impl Level {
    /// The player and every enemy are in range, every bullet's cursor is
    /// valid.
    pub open spec fn wf(&self) -> bool {
        &&& self.player.wf()
        &&& forall|i: int| 0 <= i < self.enemies@.len() ==> (#[trigger] self.enemies@[i]).wf()
        &&& forall|i: int| 0 <= i < self.bullets@.len() ==> (#[trigger] self.bullets@[i]).script.wf()
    }

    /// Every entity can take its next tick without leaving the range of
    /// the fixed-point coordinates.
    pub open spec fn ready(&self) -> bool {
        &&& forall|i: int| 0 <= i < self.enemies@.len() ==> (#[trigger] self.enemies@[i]).can_step()
        &&& forall|i: int| 0 <= i < self.bullets@.len() ==> (#[trigger] self.bullets@[i]).wf()
    }

    /// The opening scene: the player on the floor, one enemy near the top
    /// that fires a four-way fan and then three aimed shots, and one bullet
    /// that turns twice, then accelerates, then slows to a drift.
    pub fn new() -> (r: Level)
        ensures
            r.wf(),
            r.ready(),
            is_opening_scene(r),
            valid_schedule(ticks_of(r.enemies@[0].script.events@)),
            valid_schedule(ticks_of(r.bullets@[0].script.events@)),
    {
        let enemy_events = vec![
            EnemyEvent {
                at: 120,
                event_ty: EnemyEventType::Nways {
                    n: 4,
                    wide_deg: 90 * MDEG,
                    center_deg: 90 * MDEG,
                },
            },
            EnemyEvent { at: 130, event_ty: EnemyEventType::AimShot },
            EnemyEvent { at: 135, event_ty: EnemyEventType::AimShot },
            EnemyEvent { at: 140, event_ty: EnemyEventType::AimShot },
        ];
        let enemy = Enemy::new(Point { x: 300 * UNIT, y: 50 * UNIT }, Vector::zero(), enemy_events);
        let bullet_events = vec![
            BulletEvent { at: 20, event_ty: BulletEventType::RotateVel(30 * MDEG) },
            BulletEvent { at: 40, event_ty: BulletEventType::RotateVel(30 * MDEG) },
            BulletEvent { at: 60, event_ty: BulletEventType::SetAcc(Vector::new(50, 20)) },
            BulletEvent { at: 80, event_ty: BulletEventType::SetVel(Vector::new(-300, 0)) },
        ];
        let bullet = Bullet::new(
            Point { x: 300 * UNIT, y: 50 * UNIT },
            Vector::new(0, 4 * UNIT),
            Vector::zero(),
            bullet_events,
        );
        let r = Level { player: Player::new(), enemies: vec![enemy], bullets: vec![bullet] };
        proof {
            assert(r.enemies@[0].script.events@ =~= opening_enemy_events());
            assert(r.bullets@[0].script.events@ =~= opening_bullet_events());
            lemma_opening_schedules();
            assert(r.enemies@[0].wf());
            assert(r.enemies@[0].can_step());
            assert(r.bullets@[0].wf());
        }
        r
    }

    /// Draw commands for the player, then each enemy, then each bullet.
    pub fn draw(&self, out: &mut Vec<DrawCommand>)
        requires
            self.wf(),
        ensures
            final(out)@ == old(out)@ + machine_commands(self.player.state_machine)
                + enemies_commands(self.enemies@) + bullets_commands(self.bullets@),
    {
        self.player.draw(out);
        let ghost base = out@;
        let mut i: usize = 0;
        while i < self.enemies.len()
            invariant
                i <= self.enemies@.len(),
                out@ == base + enemies_commands(self.enemies@.take(i as int)),
            decreases self.enemies@.len() - i,
        {
            self.enemies[i].draw(out);
            proof {
                assert(self.enemies@.take(i + 1).drop_last() =~= self.enemies@.take(i as int));
                assert(out@ =~= base + enemies_commands(self.enemies@.take(i + 1)));
            }
            i = i + 1;
        }
        proof {
            assert(self.enemies@.take(self.enemies@.len() as int) =~= self.enemies@);
        }
        let ghost base2 = out@;
        let mut j: usize = 0;
        while j < self.bullets.len()
            invariant
                j <= self.bullets@.len(),
                out@ == base2 + bullets_commands(self.bullets@.take(j as int)),
            decreases self.bullets@.len() - j,
        {
            self.bullets[j].draw(out);
            proof {
                assert(self.bullets@.take(j + 1).drop_last() =~= self.bullets@.take(j as int));
                assert(out@ =~= base2 + bullets_commands(self.bullets@.take(j + 1)));
            }
            j = j + 1;
        }
        proof {
            assert(self.bullets@.take(self.bullets@.len() as int) =~= self.bullets@);
            assert(out@ =~= old(out)@ + machine_commands(self.player.state_machine)
                + enemies_commands(self.enemies@) + bullets_commands(self.bullets@));
        }
    }

    /// Whether the next tick stays within range; see `ready`.
    pub fn can_update(&self) -> (r: bool)
        ensures
            r == self.ready(),
    {
        let mut i: usize = 0;
        while i < self.enemies.len()
            invariant
                i <= self.enemies@.len(),
                forall|k: int| 0 <= k < i ==> (#[trigger] self.enemies@[k]).can_step(),
            decreases self.enemies@.len() - i,
        {
            let e = &self.enemies[i];
            let ok = e.script.frame < u64::MAX && -COORD_MAX as i128 <= e.pos.x as i128
                + e.vel.x as i128 && e.pos.x as i128 + e.vel.x as i128 <= COORD_MAX as i128
                && -COORD_MAX as i128 <= e.pos.y as i128 + e.vel.y as i128 && e.pos.y as i128
                + e.vel.y as i128 <= COORD_MAX as i128;
            if !ok {
                return false;
            }
            i = i + 1;
        }
        let mut j: usize = 0;
        while j < self.bullets.len()
            invariant
                j <= self.bullets@.len(),
                forall|k: int| 0 <= k < self.enemies@.len() ==> (#[trigger] self.enemies@[k]).can_step(),
                forall|k: int| 0 <= k < j ==> (#[trigger] self.bullets@[k]).wf(),
            decreases self.bullets@.len() - j,
        {
            let b = &self.bullets[j];
            let cursor_ok = match b.script.next_event {
                Some(i) => i < b.script.events.len(),
                None => true,
            };
            let ok = cursor_ok && b.script.frame < u64::MAX && -COORD_MAX <= b.pos.x && b.pos.x
                <= COORD_MAX && -COORD_MAX <= b.pos.y && b.pos.y <= COORD_MAX && -COORD_MAX
                <= b.vel.x && b.vel.x <= COORD_MAX && -COORD_MAX <= b.vel.y && b.vel.y
                <= COORD_MAX && -COORD_MAX <= b.acc.x && b.acc.x <= COORD_MAX && -COORD_MAX
                <= b.acc.y && b.acc.y <= COORD_MAX;
            if !ok {
                return false;
            }
            j = j + 1;
        }
        true
    }

    /// Ticks every enemy in order; the bullets they fire are appended to
    /// the bullet list, enemy by enemy, aimed at the player as it stands.
    pub fn update_enemies(&mut self)
        requires
            old(self).wf(),
            old(self).ready(),
        ensures
            final(self).wf(),
            final(self).player == old(self).player,
            final(self).enemies@.len() == old(self).enemies@.len(),
            forall|i: int|
                0 <= i < old(self).enemies@.len() ==> Enemy::stepped(
                    #[trigger] old(self).enemies@[i],
                    final(self).enemies@[i],
                ),
            ({
                let shots = shots_of(
                    old(self).enemies@,
                    final(self).enemies@,
                    old(self).player.ctx().position,
                );
                let n = old(self).bullets@.len();
                &&& final(self).bullets@.len() == n + shots.len()
                &&& forall|i: int| 0 <= i < n ==> final(self).bullets@[i] == old(self).bullets@[i]
                &&& forall|k: int|
                    0 <= k < shots.len() ==> is_shot(
                        #[trigger] final(self).bullets@[n + k],
                        shots[k].0,
                        shots[k].1.0,
                        shots[k].1.1,
                    )
            }),
            forall|i: int| 0 <= i < final(self).bullets@.len() ==> (#[trigger] final(self).bullets@[i]).wf(),
    {
        let ghost olds = self.enemies@;
        let ghost target = self.player.ctx().position;
        let ghost n = self.bullets@.len();
        let mut i: usize = 0;
        while i < self.enemies.len()
            invariant
                i <= self.enemies@.len(),
                self.enemies@.len() == olds.len(),
                self.player == old(self).player,
                self.player.wf(),
                target == self.player.ctx().position,
                olds == old(self).enemies@,
                n == old(self).bullets@.len(),
                forall|k: int| 0 <= k < olds.len() ==> (#[trigger] olds[k]).wf(),
                forall|k: int| 0 <= k < olds.len() ==> (#[trigger] olds[k]).can_step(),
                forall|k: int|
                    0 <= k < i ==> Enemy::stepped(#[trigger] olds[k], self.enemies@[k]),
                forall|k: int| 0 <= k < self.enemies@.len() ==> (#[trigger] self.enemies@[k]).wf(),
                forall|k: int| i <= k < olds.len() ==> self.enemies@[k] == #[trigger] olds[k],
                ({
                    let shots = shots_of(olds.take(i as int), self.enemies@.take(i as int), target);
                    &&& self.bullets@.len() == n + shots.len()
                    &&& forall|t: int| 0 <= t < n ==> self.bullets@[t] == old(self).bullets@[t]
                    &&& forall|k: int|
                        0 <= k < shots.len() ==> is_shot(
                            #[trigger] self.bullets@[n + k],
                            shots[k].0,
                            shots[k].1.0,
                            shots[k].1.1,
                        )
                }),
                forall|t: int| 0 <= t < self.bullets@.len() ==> (#[trigger] self.bullets@[t]).wf(),
            decreases self.enemies@.len() - i,
        {
            let ghost before = self.enemies@;
            let ghost bullets_before = self.bullets@;
            let ghost prev_shots = shots_of(olds.take(i as int), before.take(i as int), target);
            self.enemies[i].update(&mut self.bullets, &self.player);
            proof {
                let e_new = self.enemies@[i as int];
                let es = enemy_shots(olds[i as int].script.firing(), e_new.pos, target);
                lemma_enemy_shots_bound(olds[i as int].script.firing(), e_new.pos, target);
                assert(olds.take(i + 1).drop_last() =~= olds.take(i as int));
                assert(self.enemies@.take(i + 1).drop_last() =~= before.take(i as int));
                assert(olds.take(i + 1).last() == olds[i as int]);
                assert(self.enemies@.take(i + 1).last() == e_new);
                let shots = shots_of(olds.take(i + 1), self.enemies@.take(i + 1), target);
                assert(shots =~= prev_shots + es.map_values(|v: (int, int)| (e_new.pos, v)));
                assert forall|k: int| 0 <= k < shots.len() implies is_shot(
                    #[trigger] self.bullets@[n + k],
                    shots[k].0,
                    shots[k].1.0,
                    shots[k].1.1,
                ) by {
                    if k < prev_shots.len() {
                        assert(self.bullets@[n + k] == bullets_before[n + k]);
                    } else {
                        let q = k - prev_shots.len();
                        assert(self.bullets@[n + k] == self.bullets@[bullets_before.len() + q]);
                    }
                }
                assert forall|t: int| 0 <= t < self.bullets@.len() implies (#[trigger] self.bullets@[t]).wf() by {
                    if t >= bullets_before.len() {
                        let q = t - bullets_before.len();
                        assert(is_shot(self.bullets@[bullets_before.len() + q], e_new.pos, es[q].0, es[q].1));
                        assert(within(es[q].0, es[q].1, NWAY_SPEED as int));
                    } else {
                        assert(self.bullets@[t] == bullets_before[t]);
                    }
                }
            }
            i = i + 1;
        }
        proof {
            assert(olds.take(olds.len() as int) =~= olds);
            assert(self.enemies@.take(olds.len() as int) =~= self.enemies@);
        }
    }

    /// Ticks every bullet.
    pub fn update_bullets(&mut self)
        requires
            forall|i: int| 0 <= i < old(self).bullets@.len() ==> (#[trigger] old(self).bullets@[i]).wf(),
        ensures
            final(self).player == old(self).player,
            final(self).enemies == old(self).enemies,
            final(self).bullets@.len() == old(self).bullets@.len(),
            forall|i: int|
                0 <= i < old(self).bullets@.len() ==> Bullet::stepped(
                    #[trigger] old(self).bullets@[i],
                    final(self).bullets@[i],
                ),
    {
        let ghost olds = self.bullets@;
        let mut j: usize = 0;
        while j < self.bullets.len()
            invariant
                j <= self.bullets@.len(),
                self.bullets@.len() == olds.len(),
                self.player == old(self).player,
                self.enemies == old(self).enemies,
                olds == old(self).bullets@,
                forall|k: int| 0 <= k < olds.len() ==> (#[trigger] olds[k]).wf(),
                forall|k: int| 0 <= k < j ==> Bullet::stepped(#[trigger] olds[k], self.bullets@[k]),
                forall|k: int| j <= k < olds.len() ==> self.bullets@[k] == #[trigger] olds[k],
            decreases self.bullets@.len() - j,
        {
            proof {
                assert(olds[j as int].wf());
            }
            self.bullets[j].update();
            j = j + 1;
        }
    }

    /// Removes the bullets that have left the play field, keeping the
    /// order of the rest.
    pub fn cull(&mut self)
        ensures
            final(self).player == old(self).player,
            final(self).enemies == old(self).enemies,
            final(self).bullets@ == old(self).bullets@.filter(keep_bullet()),
    {
        let ghost all = self.bullets@;
        let mut rest: Vec<Bullet> = Vec::new();
        std::mem::swap(&mut rest, &mut self.bullets);
        let mut rev: Vec<Bullet> = Vec::new();
        while rest.len() > 0
            invariant
                rest@.len() + rev@.len() == all.len(),
                forall|t: int| 0 <= t < rest@.len() ==> rest@[t] == all[t],
                forall|t: int| 0 <= t < rev@.len() ==> rev@[t] == all[all.len() - 1 - t],
                self.player == old(self).player,
                self.enemies == old(self).enemies,
            decreases rest@.len(),
        {
            let b = rest.pop().unwrap();
            rev.push(b);
        }
        let mut kept: Vec<Bullet> = Vec::new();
        let ghost k: int = 0;
        while rev.len() > 0
            invariant
                0 <= k <= all.len(),
                rev@.len() == all.len() - k,
                forall|t: int| 0 <= t < rev@.len() ==> rev@[t] == all[all.len() - 1 - t],
                kept@ == all.take(k).filter(keep_bullet()),
                self.player == old(self).player,
                self.enemies == old(self).enemies,
            decreases rev@.len(),
        {
            let b = rev.pop().unwrap();
            proof {
                assert(b == all[k]);
                assert(all.take(k + 1).drop_last() =~= all.take(k));
                assert(all.take(k + 1).last() == all[k]);
                reveal(Seq::filter);
            }
            if b.in_canvas() {
                kept.push(b);
            }
            proof {
                k = k + 1;
            }
        }
        proof {
            assert(all.take(all.len() as int) =~= all);
        }
        self.bullets = kept;
    }

    /// Feeds `Hit` to the player once for each bullet overlapping it; after
    /// the first, a hit changes nothing.
    pub fn resolve_collisions(&mut self)
        requires
            old(self).player.wf(),
            forall|i: int|
                0 <= i < old(self).bullets@.len() ==> bullet_in_field(#[trigger] old(self).bullets@[i]),
        ensures
            final(self).enemies == old(self).enemies,
            final(self).bullets == old(self).bullets,
            final(self).player.wf(),
            final(self).player == (if any_collision(
                old(self).player.ctx().position,
                old(self).bullets@,
            ) {
                Player {
                    state_machine: transition_spec(old(self).player.state_machine, PlayerEvent::Hit),
                }
            } else {
                old(self).player
            }),
    {
        let ghost p0 = self.player;
        let mut j: usize = 0;
        while j < self.bullets.len()
            invariant
                j <= self.bullets@.len(),
                self.enemies == old(self).enemies,
                self.bullets == old(self).bullets,
                p0 == old(self).player,
                p0.wf(),
                self.player.wf(),
                self.player.ctx().position == p0.ctx().position,
                forall|i: int| 0 <= i < self.bullets@.len() ==> bullet_in_field(#[trigger] self.bullets@[i]),
                self.player == (if any_collision(p0.ctx().position, self.bullets@.take(j as int)) {
                    Player { state_machine: transition_spec(p0.state_machine, PlayerEvent::Hit) }
                } else {
                    p0
                }),
            decreases self.bullets@.len() - j,
        {
            let ghost before = self.player;
            proof {
                assert(bullet_in_field(self.bullets@[j as int]));
            }
            let hit = self.player.is_collided(&self.bullets[j]);
            if hit {
                self.player.hit();
            }
            proof {
                let pre = self.bullets@.take(j as int);
                let post = self.bullets@.take(j + 1);
                assert(post[j as int] == self.bullets@[j as int]);
                if any_collision(p0.ctx().position, pre) {
                    let w = choose|w: int|
                        0 <= w < pre.len() && circles_overlap(
                            p0.ctx().position,
                            PLAYER_RADIUS as int,
                            (#[trigger] pre[w]).pos,
                            BULLET_RADIUS as int,
                        );
                    assert(post[w] == pre[w]);
                }
                if hit {
                    assert(post[j as int] == self.bullets@[j as int]);
                } else if any_collision(p0.ctx().position, post) {
                    let w = choose|w: int|
                        0 <= w < post.len() && circles_overlap(
                            p0.ctx().position,
                            PLAYER_RADIUS as int,
                            (#[trigger] post[w]).pos,
                            BULLET_RADIUS as int,
                        );
                    assert(pre[w] == post[w]);
                }
            }
            j = j + 1;
        }
        proof {
            assert(self.bullets@.take(self.bullets@.len() as int) =~= self.bullets@);
        }
    }

    /// One tick of `old` with keys `k` leads to `new`; see `update`.
    pub open spec fn ticked(old: Level, new: Level, k: KeyState) -> bool {
        let p = player_after_input(old.player, k);
        let shots = shots_of(old.enemies@, new.enemies@, p.ctx().position);
        let n = old.bullets@.len();
        &&& new.wf()
        &&& new.enemies@.len() == old.enemies@.len()
        &&& forall|i: int|
            0 <= i < old.enemies@.len() ==> Enemy::stepped(#[trigger] old.enemies@[i], new.enemies@[i])
        &&& exists|mid: Seq<Bullet>|
            {
                &&& mid.len() == n + shots.len()
                &&& forall|i: int| 0 <= i < n ==> Bullet::stepped(#[trigger] old.bullets@[i], mid[i])
                &&& forall|j: int|
                    0 <= j < shots.len() ==> shot_after_tick(
                        #[trigger] mid[n + j],
                        shots[j].0,
                        shots[j].1.0,
                        shots[j].1.1,
                    )
                &&& new.bullets@ == mid.filter(keep_bullet())
            }
        &&& new.player == (if any_collision(p.ctx().position, new.bullets@) {
            Player { state_machine: transition_spec(p.state_machine, PlayerEvent::Hit) }
        } else {
            p
        })
    }

    /// One logical tick, in order: the player takes the velocity the keys
    /// ask for and ticks, then bombs if the bomb key is held; every enemy
    /// ticks and fires; every bullet, old and new, ticks; bullets out of
    /// the field are removed; a surviving bullet that overlaps the player
    /// hits it.
    pub fn update(&mut self, keystate: &KeyState)
        requires
            old(self).wf(),
            old(self).ready(),
        ensures
            Level::ticked(*old(self), *final(self), *keystate),
    {
        let (vx, vy) = Player::calc_velocity(keystate);
        self.player.update(vx, vy);
        if keystate.is_pressed("KeyJ") {
            self.player.bomb();
        }
        let ghost p = self.player;
        let ghost b0 = self.bullets@;
        self.update_enemies();
        let ghost b1 = self.bullets@;
        self.update_bullets();
        let ghost mid = self.bullets@;
        proof {
            let shots = shots_of(old(self).enemies@, self.enemies@, p.ctx().position);
            let n = b0.len();
            assert forall|i: int| 0 <= i < n implies Bullet::stepped(
                #[trigger] old(self).bullets@[i],
                mid[i],
            ) by {
                assert(b1[i] == b0[i]);
            }
            assert forall|k: int| 0 <= k < shots.len() implies shot_after_tick(
                #[trigger] mid[n + k],
                shots[k].0,
                shots[k].1.0,
                shots[k].1.1,
            ) by {
                assert(is_shot(b1[n + k], shots[k].0, shots[k].1.0, shots[k].1.1));
                assert(Bullet::stepped(b1[n + k], mid[n + k]));
            }
        }
        self.cull();
        proof {
            assert forall|i: int| 0 <= i < self.bullets@.len() implies bullet_in_field(
                #[trigger] self.bullets@[i],
            ) by {
                mid.lemma_filter_pred(keep_bullet(), i);
            }
            let q = |b: Bullet| b.script.wf();
            assert forall|w: int| 0 <= w < mid.len() implies q(#[trigger] mid[w]) by {
                if w < b0.len() {
                    assert(Bullet::stepped(old(self).bullets@[w], mid[w]));
                } else {
                    assert(Bullet::stepped(b1[w], mid[w]));
                }
            }
            lemma_filter_keeps(mid, q);
            assert forall|i: int| 0 <= i < self.bullets@.len() implies (
            #[trigger] self.bullets@[i]).script.wf() by {
                assert(q(self.bullets@[i]));
            }
        }
        self.resolve_collisions();
    }
}

} // verus!
