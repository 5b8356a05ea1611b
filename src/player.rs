//! The player: a state machine over Alive, Bombing and Reloading, each
//! state carrying the same context of animation frame, position and
//! velocity. Which stimuli a state accepts is fixed by the transition
//! table; the rest are dropped without effect.
use vstd::prelude::*;
use crate::math::{Point, Rect, UNIT, COORD_MAX, within};
use crate::engine::{KeyState, DrawCommand, Color};
use crate::level::{Bullet, BULLET_RADIUS};
use crate::collision::{
    clamp, circles_overlap, circles_collide, clamp_to_field, FIELD_LEFT, FIELD_RIGHT,
    FIELD_TOP, FIELD_BOTTOM,
};

verus! {

/// Resting height of the player, in sub-pixel units.
pub const FLOOR: i64 = 475 * UNIT;

/// Length of the animation loop while alive, in ticks.
pub const NORMAL_LOOP: u8 = 30;

/// Ticks of invulnerability after a hit.
pub const RELOAD_TIME: u8 = 120;

/// Ticks a bomb lasts.
pub const BOMB_TIME: u8 = 60;

/// Radius of the player's hitbox.
pub const PLAYER_RADIUS: i64 = 3 * UNIT;

/// Animation frame, position and velocity, shared by every state.
#[derive(Clone, Copy, PartialEq, Eq, Structural, Debug)]
pub struct PlayerContext {
    pub frame: u8,
    pub position: Point,
    pub velocity: Point,
}

/// Marker of the normal state.
#[derive(Clone, Copy, PartialEq, Eq, Structural, Debug)]
pub struct Alive;

/// Marker of the state while a bomb is active.
#[derive(Clone, Copy, PartialEq, Eq, Structural, Debug)]
pub struct Bombing;

/// Marker of the state while recovering from a hit.
#[derive(Clone, Copy, PartialEq, Eq, Structural, Debug)]
pub struct Reloading;

/// The context tagged, in its type, with the state it belongs to.
#[derive(Clone, Copy, PartialEq, Eq, Debug)]
pub struct PlayerState<S> {
    pub context: PlayerContext,
    pub state: S,
}

/// The player's current state.
#[derive(Clone, Copy, PartialEq, Eq, Debug)]
pub enum PlayerStateMachine {
    Alive(PlayerState<Alive>),
    Bombing(PlayerState<Bombing>),
    Reloading(PlayerState<Reloading>),
}

/// A stimulus fed to the state machine.
#[derive(Clone, Copy, PartialEq, Eq, Structural, Debug)]
pub enum PlayerEvent {
    Bomb,
    Hit,
    Update,
    Move(i64, i64),
}

/// What a tick of the bombing state leads to.
#[derive(Clone, Copy, PartialEq, Eq, Debug)]
pub enum BombingEndState {
    Complete(PlayerState<Alive>),
    Bombing(PlayerState<Bombing>),
}

/// What a tick of the reloading state leads to.
#[derive(Clone, Copy, PartialEq, Eq, Debug)]
pub enum ReloadEndState {
    Complete(PlayerState<Alive>),
    Reloading(PlayerState<Reloading>),
}

/// The player.
#[derive(Clone, Copy, PartialEq, Eq, Debug)]
pub struct Player {
    pub state_machine: PlayerStateMachine,
}

/// Coordinates small enough that a tick cannot overflow.
pub open spec fn context_wf(c: PlayerContext) -> bool {
    &&& within(c.position.x as int, c.position.y as int, COORD_MAX as int)
    &&& within(c.velocity.x as int, c.velocity.y as int, COORD_MAX as int)
}

/// One tick of a context: the frame advances, wrapping to zero once it has
/// reached `frame_count`; the position moves by the velocity and is clamped
/// into the play field.
pub open spec fn context_step(c: PlayerContext, frame_count: u8) -> PlayerContext {
    PlayerContext {
        frame: if c.frame < frame_count {
            (c.frame + 1) as u8
        } else {
            0
        },
        position: Point {
            x: clamp(c.position.x + c.velocity.x, FIELD_LEFT as int, FIELD_RIGHT as int) as i64,
            y: clamp(c.position.y + c.velocity.y, FIELD_TOP as int, FIELD_BOTTOM as int) as i64,
        },
        velocity: c.velocity,
    }
}

/// `c` with the frame set back to zero.
pub open spec fn context_reset(c: PlayerContext) -> PlayerContext {
    PlayerContext { frame: 0, ..c }
}

/// `c` with the velocity replaced.
pub open spec fn context_moved(c: PlayerContext, vx: i64, vy: i64) -> PlayerContext {
    PlayerContext { velocity: Point { x: vx, y: vy }, ..c }
}

/// The transition table.
pub open spec fn transition_spec(m: PlayerStateMachine, e: PlayerEvent) -> PlayerStateMachine {
    match (m, e) {
        (PlayerStateMachine::Alive(s), PlayerEvent::Move(vx, vy)) => PlayerStateMachine::Alive(
            PlayerState { context: context_moved(s.context, vx, vy), state: Alive },
        ),
        (PlayerStateMachine::Bombing(s), PlayerEvent::Move(vx, vy)) => PlayerStateMachine::Bombing(
            PlayerState { context: context_moved(s.context, vx, vy), state: Bombing },
        ),
        (PlayerStateMachine::Alive(s), PlayerEvent::Bomb) => PlayerStateMachine::Bombing(
            PlayerState { context: context_reset(s.context), state: Bombing },
        ),
        (PlayerStateMachine::Alive(s), PlayerEvent::Hit) => PlayerStateMachine::Reloading(
            PlayerState { context: context_reset(s.context), state: Reloading },
        ),
        (PlayerStateMachine::Alive(s), PlayerEvent::Update) => PlayerStateMachine::Alive(
            PlayerState { context: context_step(s.context, NORMAL_LOOP), state: Alive },
        ),
        (PlayerStateMachine::Bombing(s), PlayerEvent::Update) => {
            let c = context_step(s.context, BOMB_TIME);
            if c.frame >= BOMB_TIME {
                PlayerStateMachine::Alive(PlayerState { context: context_reset(c), state: Alive })
            } else {
                PlayerStateMachine::Bombing(PlayerState { context: c, state: Bombing })
            }
        },
        (PlayerStateMachine::Reloading(s), PlayerEvent::Update) => {
            let c = context_step(s.context, RELOAD_TIME);
            if c.frame >= RELOAD_TIME {
                PlayerStateMachine::Alive(PlayerState { context: context_reset(c), state: Alive })
            } else {
                PlayerStateMachine::Reloading(PlayerState { context: c, state: Reloading })
            }
        },
        _ => m,
    }
}

/// A stimulus the machine can take without overflow.
pub open spec fn event_wf(e: PlayerEvent) -> bool {
    match e {
        PlayerEvent::Move(vx, vy) => within(vx as int, vy as int, COORD_MAX as int),
        _ => true,
    }
}

impl PlayerContext {
    /// One tick; see `context_step`.
    pub fn update(self, frame_count: u8) -> (r: PlayerContext)
        requires
            context_wf(self),
        ensures
            r == context_step(self, frame_count),
            context_wf(r),
    {
        let mut c = self;
        if c.frame < frame_count {
            c.frame = c.frame + 1;
        } else {
            c.frame = 0;
        }
        let moved = Point { x: c.position.x + c.velocity.x, y: c.position.y + c.velocity.y };
        c.position = clamp_to_field(moved);
        c
    }

    /// The context with its frame set back to zero.
    pub fn reset_frame(self) -> (r: PlayerContext)
        ensures
            r == context_reset(self),
    {
        let mut c = self;
        c.frame = 0;
        c
    }

    /// Whether a circle of `radius` at `point` overlaps the player's hitbox.
    pub fn is_collided(&self, point: &Point, radius: i64) -> (r: bool)
        requires
            context_wf(*self),
            within(point.x as int, point.y as int, COORD_MAX as int),
            0 <= radius <= crate::collision::RADIUS_MAX,
        ensures
            r == circles_overlap(self.position, PLAYER_RADIUS as int, *point, radius as int),
    {
        circles_collide(&self.position, PLAYER_RADIUS, point, radius)
    }
}

impl<S> PlayerState<S> {
    pub fn context(&self) -> (r: &PlayerContext)
        ensures
            *r == self.context,
    {
        &self.context
    }

    /// The same state with the velocity replaced.
    pub fn set_velocity(self, vx: i64, vy: i64) -> (r: PlayerState<S>)
        ensures
            r.context == context_moved(self.context, vx, vy),
            r.state == self.state,
    {
        let mut s = self;
        s.context.velocity.x = vx;
        s.context.velocity.y = vy;
        s
    }
}

impl PlayerState<Alive> {
    /// The player at rest on the floor, centred, frame zero.
    pub fn new() -> (r: PlayerState<Alive>)
        ensures
            r == (PlayerState {
                context: PlayerContext {
                    frame: 0,
                    position: Point { x: 300_000, y: FLOOR },
                    velocity: Point { x: 0, y: 0 },
                },
                state: Alive,
            }),
    {
        PlayerState {
            context: PlayerContext {
                frame: 0,
                position: Point { x: 300 * UNIT, y: FLOOR },
                velocity: Point { x: 0, y: 0 },
            },
            state: Alive,
        }
    }

    pub fn bomb(self) -> (r: PlayerState<Bombing>)
        ensures
            r == (PlayerState { context: context_reset(self.context), state: Bombing }),
    {
        PlayerState { context: self.context.reset_frame(), state: Bombing }
    }

    pub fn hit(self) -> (r: PlayerState<Reloading>)
        ensures
            r == (PlayerState { context: context_reset(self.context), state: Reloading }),
    {
        PlayerState { context: self.context.reset_frame(), state: Reloading }
    }

    pub fn update(self) -> (r: PlayerState<Alive>)
        requires
            context_wf(self.context),
        ensures
            r == (PlayerState { context: context_step(self.context, NORMAL_LOOP), state: Alive }),
    {
        PlayerState { context: self.context.update(NORMAL_LOOP), state: Alive }
    }
}

impl PlayerState<Bombing> {
    /// One tick; once the frame reaches `BOMB_TIME` the bomb ends.
    pub fn update(self) -> (r: BombingEndState)
        requires
            context_wf(self.context),
        ensures
            ({
                let c = context_step(self.context, BOMB_TIME);
                if c.frame >= BOMB_TIME {
                    r == BombingEndState::Complete(
                        PlayerState { context: context_reset(c), state: Alive },
                    )
                } else {
                    r == BombingEndState::Bombing(PlayerState { context: c, state: Bombing })
                }
            }),
    {
        let s = PlayerState { context: self.context.update(BOMB_TIME), state: Bombing };
        if s.context.frame >= BOMB_TIME {
            BombingEndState::Complete(s.end_bomb())
        } else {
            BombingEndState::Bombing(s)
        }
    }

    pub fn end_bomb(self) -> (r: PlayerState<Alive>)
        ensures
            r == (PlayerState { context: context_reset(self.context), state: Alive }),
    {
        PlayerState { context: self.context.reset_frame(), state: Alive }
    }
}

impl PlayerState<Reloading> {
    /// One tick; once the frame reaches `RELOAD_TIME` the player is back.
    pub fn update(self) -> (r: ReloadEndState)
        requires
            context_wf(self.context),
        ensures
            ({
                let c = context_step(self.context, RELOAD_TIME);
                if c.frame >= RELOAD_TIME {
                    r == ReloadEndState::Complete(
                        PlayerState { context: context_reset(c), state: Alive },
                    )
                } else {
                    r == ReloadEndState::Reloading(PlayerState { context: c, state: Reloading })
                }
            }),
    {
        let s = PlayerState { context: self.context.update(RELOAD_TIME), state: Reloading };
        if s.context.frame >= RELOAD_TIME {
            ReloadEndState::Complete(s.end_reload())
        } else {
            ReloadEndState::Reloading(s)
        }
    }

    pub fn end_reload(self) -> (r: PlayerState<Alive>)
        ensures
            r == (PlayerState { context: context_reset(self.context), state: Alive }),
    {
        PlayerState { context: self.context.reset_frame(), state: Alive }
    }
}

impl From<BombingEndState> for PlayerStateMachine {
    fn from(value: BombingEndState) -> (r: PlayerStateMachine) {
        match value {
            BombingEndState::Complete(state) => PlayerStateMachine::Alive(state),
            BombingEndState::Bombing(state) => PlayerStateMachine::Bombing(state),
        }
    }
}

impl vstd::std_specs::convert::FromSpecImpl<BombingEndState> for PlayerStateMachine {
    open spec fn obeys_from_spec() -> bool {
        true
    }

    open spec fn from_spec(value: BombingEndState) -> PlayerStateMachine {
        match value {
            BombingEndState::Complete(state) => PlayerStateMachine::Alive(state),
            BombingEndState::Bombing(state) => PlayerStateMachine::Bombing(state),
        }
    }
}

impl From<ReloadEndState> for PlayerStateMachine {
    fn from(value: ReloadEndState) -> (r: PlayerStateMachine) {
        match value {
            ReloadEndState::Complete(state) => PlayerStateMachine::Alive(state),
            ReloadEndState::Reloading(state) => PlayerStateMachine::Reloading(state),
        }
    }
}

impl vstd::std_specs::convert::FromSpecImpl<ReloadEndState> for PlayerStateMachine {
    open spec fn obeys_from_spec() -> bool {
        true
    }

    open spec fn from_spec(value: ReloadEndState) -> PlayerStateMachine {
        match value {
            ReloadEndState::Complete(state) => PlayerStateMachine::Alive(state),
            ReloadEndState::Reloading(state) => PlayerStateMachine::Reloading(state),
        }
    }
}

impl PlayerStateMachine {
    /// The context of whichever state is active.
    pub open spec fn ctx(self) -> PlayerContext {
        match self {
            PlayerStateMachine::Alive(s) => s.context,
            PlayerStateMachine::Bombing(s) => s.context,
            PlayerStateMachine::Reloading(s) => s.context,
        }
    }

    pub open spec fn wf(self) -> bool {
        context_wf(self.ctx())
    }

    /// Applies one stimulus. A stimulus the active state does not accept
    /// leaves the machine unchanged.
    pub fn transition(self, event: PlayerEvent) -> (r: PlayerStateMachine)
        requires
            self.wf(),
            event_wf(event),
        ensures
            r == transition_spec(self, event),
            r.wf(),
    {
        match (self, event) {
            (PlayerStateMachine::Alive(state), PlayerEvent::Move(vx, vy)) => {
                PlayerStateMachine::Alive(state.set_velocity(vx, vy))
            },
            (PlayerStateMachine::Bombing(state), PlayerEvent::Move(vx, vy)) => {
                PlayerStateMachine::Bombing(state.set_velocity(vx, vy))
            },
            (PlayerStateMachine::Alive(state), PlayerEvent::Bomb) => {
                PlayerStateMachine::Bombing(state.bomb())
            },
            (PlayerStateMachine::Alive(state), PlayerEvent::Hit) => {
                PlayerStateMachine::Reloading(state.hit())
            },
            (PlayerStateMachine::Alive(state), PlayerEvent::Update) => {
                PlayerStateMachine::Alive(state.update())
            },
            (PlayerStateMachine::Bombing(state), PlayerEvent::Update) => PlayerStateMachine::from(
                state.update(),
            ),
            (PlayerStateMachine::Reloading(state), PlayerEvent::Update) => PlayerStateMachine::from(
                state.update(),
            ),
            _ => self,
        }
    }

    pub fn context(&self) -> (r: &PlayerContext)
        ensures
            *r == self.ctx(),
    {
        match self {
            PlayerStateMachine::Alive(state) => state.context(),
            PlayerStateMachine::Bombing(state) => state.context(),
            PlayerStateMachine::Reloading(state) => state.context(),
        }
    }

    pub fn update(self) -> (r: PlayerStateMachine)
        requires
            self.wf(),
        ensures
            r == transition_spec(self, PlayerEvent::Update),
            r.wf(),
    {
        self.transition(PlayerEvent::Update)
    }

    pub fn set_velocity(self, vx: i64, vy: i64) -> (r: PlayerStateMachine)
        requires
            self.wf(),
            within(vx as int, vy as int, COORD_MAX as int),
        ensures
            r == transition_spec(self, PlayerEvent::Move(vx, vy)),
            r.wf(),
    {
        self.transition(PlayerEvent::Move(vx, vy))
    }
}

/// The player after a tick with input velocity `(vx, vy)`: the velocity is
/// offered first, then the tick runs.
pub open spec fn player_stepped(p: Player, vx: i64, vy: i64) -> Player {
    Player {
        state_machine: transition_spec(
            transition_spec(p.state_machine, PlayerEvent::Move(vx, vy)),
            PlayerEvent::Update,
        ),
    }
}

impl Player {
    /// A player alive and at rest on the floor, centred, frame zero.
    pub open spec fn new_spec() -> Player {
        Player {
            state_machine: PlayerStateMachine::Alive(
                PlayerState {
                    context: PlayerContext {
                        frame: 0,
                        position: Point { x: 300_000, y: FLOOR },
                        velocity: Point { x: 0, y: 0 },
                    },
                    state: Alive,
                },
            ),
        }
    }

    pub open spec fn wf(self) -> bool {
        self.state_machine.wf()
    }

    /// The context of the active state.
    pub open spec fn ctx(self) -> PlayerContext {
        self.state_machine.ctx()
    }

    /// A new player, alive, at rest on the floor.
    pub fn new() -> (r: Player)
        ensures
            r == Player::new_spec(),
            r.wf(),
    {
        Player { state_machine: PlayerStateMachine::Alive(PlayerState::<Alive>::new()) }
    }

    /// Feeds `Move(vx, vy)` and then `Update` to the state machine.
    pub fn update(&mut self, vx: i64, vy: i64)
        requires
            old(self).wf(),
            within(vx as int, vy as int, COORD_MAX as int),
        ensures
            *final(self) == player_stepped(*old(self), vx, vy),
            final(self).wf(),
    {
        self.state_machine = self.state_machine.set_velocity(vx, vy).update();
    }

    /// Feeds `Bomb` to the state machine.
    pub fn bomb(&mut self)
        requires
            old(self).wf(),
        ensures
            final(self).state_machine == transition_spec(old(self).state_machine, PlayerEvent::Bomb),
            final(self).wf(),
    {
        self.state_machine = self.state_machine.transition(PlayerEvent::Bomb);
    }

    /// Feeds `Hit` to the state machine.
    pub fn hit(&mut self)
        requires
            old(self).wf(),
        ensures
            final(self).state_machine == transition_spec(old(self).state_machine, PlayerEvent::Hit),
            final(self).wf(),
    {
        self.state_machine = self.state_machine.transition(PlayerEvent::Hit);
    }
}

/// A hit on an alive player starts the reload: the state becomes
/// Reloading, the frame goes back to zero, position and velocity stay.
pub proof fn lemma_hit_starts_reload(s: PlayerState<Alive>)
    ensures
        transition_spec(PlayerStateMachine::Alive(s), PlayerEvent::Hit) == PlayerStateMachine::Reloading(
            PlayerState { context: PlayerContext { frame: 0, ..s.context }, state: Reloading },
        ),
{
}

/// A hit while reloading changes nothing, frame included.
pub proof fn lemma_hit_while_reloading(s: PlayerState<Reloading>)
    ensures
        transition_spec(PlayerStateMachine::Reloading(s), PlayerEvent::Hit)
            == PlayerStateMachine::Reloading(s),
{
}

/// While reloading, a move is dropped: the velocity before and after are
/// equal, and so is the rest of the state.
pub proof fn lemma_reloading_ignores_move(s: PlayerState<Reloading>, vx: i64, vy: i64)
    ensures
        transition_spec(PlayerStateMachine::Reloading(s), PlayerEvent::Move(vx, vy))
            == PlayerStateMachine::Reloading(s),
        transition_spec(PlayerStateMachine::Reloading(s), PlayerEvent::Move(vx, vy)).ctx().velocity
            == s.context.velocity,
{
}

/// A reloading player keeps its velocity through a whole tick, whatever
/// velocity the keys ask for: the move is dropped, and the tick keeps the
/// velocity even when it ends the reload.
pub proof fn lemma_reloading_tick_keeps_velocity(p: Player, vx: i64, vy: i64)
    requires
        p.state_machine is Reloading,
    ensures
        player_stepped(p, vx, vy).ctx().velocity == p.ctx().velocity,
{
}

/// Full speed of the player, per tick.
pub const PLAYER_SPEED: i64 = 6 * UNIT;

/// Direction along one axis from the key for the negative and the key for
/// the positive direction: none, or both, cancel out.
pub open spec fn axis_direction(neg: bool, pos: bool) -> int {
    if neg && !pos {
        -1
    } else if pos && !neg {
        1
    } else {
        0
    }
}

/// Player velocity from the four direction keys and the slow key: full
/// speed along an axis, times 0.71 when moving diagonally, times 0.6 when
/// slowed.
pub open spec fn input_velocity(up: bool, left: bool, down: bool, right: bool, slow: bool) -> (
    int,
    int,
) {
    let xd = axis_direction(left, right);
    let yd = axis_direction(up, down);
    let diag: int = if xd != 0 && yd != 0 {
        71
    } else {
        100
    };
    let slowed: int = if slow {
        60
    } else {
        100
    };
    let speed = PLAYER_SPEED * diag * slowed / 10000;
    (xd * speed, yd * speed)
}

/// The velocity the keys held in `k` ask for.
pub open spec fn keys_velocity(k: KeyState) -> (int, int) {
    input_velocity(
        k.pressed().contains("KeyW"@),
        k.pressed().contains("KeyA"@),
        k.pressed().contains("KeyS"@),
        k.pressed().contains("KeyD"@),
        k.pressed().contains("KeyK"@),
    )
}

fn axis_of(neg: bool, pos: bool) -> (r: i64)
    ensures
        r == axis_direction(neg, pos),
{
    if neg && !pos {
        -1
    } else if pos && !neg {
        1
    } else {
        0
    }
}

/// Draw commands for a player of context `c` in colour `color`: a body
/// whose height grows with the frame and the hitbox circle.
pub open spec fn body_commands(color: Color, c: PlayerContext) -> Seq<DrawCommand> {
    seq![
        DrawCommand::SetColor(color),
        DrawCommand::StrokeRect(
            Rect {
                x: (c.position.x - 10 * UNIT) as i64,
                y: (c.position.y + 10 * UNIT) as i64,
                width: 20_000,
                height: (-20 * UNIT - c.frame * UNIT) as i64,
            },
        ),
        DrawCommand::StrokeCircle(c.position, PLAYER_RADIUS),
    ]
}

/// Draw commands while reloading: a fixed body that rises back to the
/// floor as the frame advances.
pub open spec fn reload_commands(c: PlayerContext) -> Seq<DrawCommand> {
    let center = Point { x: 300_000, y: (FLOOR + (RELOAD_TIME - c.frame) * UNIT) as i64 };
    seq![
        DrawCommand::SetColor(Color::Yellow),
        DrawCommand::StrokeRect(
            Rect {
                x: (center.x - 10 * UNIT) as i64,
                y: (center.y + 10 * UNIT) as i64,
                width: 20_000,
                height: -20_000i64,
            },
        ),
        DrawCommand::StrokeCircle(center, PLAYER_RADIUS),
    ]
}

/// Draw commands of the active state.
pub open spec fn machine_commands(m: PlayerStateMachine) -> Seq<DrawCommand> {
    match m {
        PlayerStateMachine::Alive(s) => body_commands(Color::Red, s.context),
        PlayerStateMachine::Bombing(s) => body_commands(Color::Blue, s.context),
        PlayerStateMachine::Reloading(s) => reload_commands(s.context),
    }
}

fn push_body(out: &mut Vec<DrawCommand>, color: Color, c: &PlayerContext)
    requires
        context_wf(*c),
    ensures
        final(out)@ == old(out)@ + body_commands(color, *c),
{
    out.push(DrawCommand::SetColor(color));
    let h: i64 = -20 * UNIT - (c.frame as i64) * UNIT;
    out.push(
        DrawCommand::StrokeRect(
            Rect {
                x: c.position.x - 10 * UNIT,
                y: c.position.y + 10 * UNIT,
                width: 20 * UNIT,
                height: h,
            },
        ),
    );
    out.push(DrawCommand::StrokeCircle(c.position, PLAYER_RADIUS));
    assert(out@ =~= old(out)@ + body_commands(color, *c));
}

impl PlayerState<Alive> {
    pub fn draw(&self, out: &mut Vec<DrawCommand>)
        requires
            context_wf(self.context),
        ensures
            final(out)@ == old(out)@ + body_commands(Color::Red, self.context),
    {
        push_body(out, Color::Red, &self.context);
    }
}

impl PlayerState<Bombing> {
    pub fn draw(&self, out: &mut Vec<DrawCommand>)
        requires
            context_wf(self.context),
        ensures
            final(out)@ == old(out)@ + body_commands(Color::Blue, self.context),
    {
        push_body(out, Color::Blue, &self.context);
    }
}

impl PlayerState<Reloading> {
    pub fn draw(&self, out: &mut Vec<DrawCommand>)
        ensures
            final(out)@ == old(out)@ + reload_commands(self.context),
    {
        out.push(DrawCommand::SetColor(Color::Yellow));
        let y: i64 = FLOOR + (RELOAD_TIME as i64 - self.context.frame as i64) * UNIT;
        let center = Point { x: 300 * UNIT, y };
        out.push(
            DrawCommand::StrokeRect(
                Rect { x: center.x - 10 * UNIT, y: center.y + 10 * UNIT, width: 20 * UNIT, height: -20 * UNIT },
            ),
        );
        out.push(DrawCommand::StrokeCircle(center, PLAYER_RADIUS));
        assert(out@ =~= old(out)@ + reload_commands(self.context));
    }
}

impl PlayerStateMachine {
    pub fn draw(&self, out: &mut Vec<DrawCommand>)
        requires
            self.wf(),
        ensures
            final(out)@ == old(out)@ + machine_commands(*self),
    {
        match self {
            PlayerStateMachine::Alive(state) => state.draw(out),
            PlayerStateMachine::Bombing(state) => state.draw(out),
            PlayerStateMachine::Reloading(state) => state.draw(out),
        }
    }
}

impl Player {
    pub fn draw(&self, out: &mut Vec<DrawCommand>)
        requires
            self.wf(),
        ensures
            final(out)@ == old(out)@ + machine_commands(self.state_machine),
    {
        self.state_machine.draw(out);
    }

    /// Whether `bullet`'s body overlaps the player's hitbox.
    pub fn is_collided(&self, bullet: &Bullet) -> (r: bool)
        requires
            self.wf(),
            within(bullet.pos.x as int, bullet.pos.y as int, COORD_MAX as int),
        ensures
            r == circles_overlap(
                self.ctx().position,
                PLAYER_RADIUS as int,
                bullet.pos,
                BULLET_RADIUS as int,
            ),
    {
        self.state_machine.context().is_collided(&bullet.pos(), BULLET_RADIUS)
    }

    /// Velocity from the keys held: W, A, S and D move up, left, down and
    /// right, K slows down.
    pub fn calc_velocity(keystate: &KeyState) -> (r: (i64, i64))
        ensures
            (r.0 as int, r.1 as int) == keys_velocity(*keystate),
            within(r.0 as int, r.1 as int, PLAYER_SPEED as int),
    {
        let w = keystate.is_pressed("KeyW");
        let a = keystate.is_pressed("KeyA");
        let s = keystate.is_pressed("KeyS");
        let d = keystate.is_pressed("KeyD");
        let slow = keystate.is_pressed("KeyK");
        let xd = axis_of(a, d);
        let yd = axis_of(w, s);
        let diag: i64 = if xd != 0 && yd != 0 {
            71
        } else {
            100
        };
        let slowed: i64 = if slow {
            60
        } else {
            100
        };
        let speed: i64 = PLAYER_SPEED * diag * slowed / 10000;
        assert(0 <= speed <= PLAYER_SPEED) by (nonlinear_arith)
            requires
                speed == 6000 * diag * slowed / 10000,
                0 <= diag <= 100,
                0 <= slowed <= 100,
        ;
        (xd * speed, yd * speed)
    }
}

} // verus!
