use stg_core::engine::KeyState;
use stg_core::level::Bullet;
use stg_core::math::{Point, Vector};
use stg_core::player::{
    Alive, BombingEndState, Player, PlayerContext, PlayerEvent, PlayerState, PlayerStateMachine,
    ReloadEndState, Reloading,
};

fn context(machine: &PlayerStateMachine) -> PlayerContext {
    *machine.context()
}

fn reloading_at(frame: u8, velocity: Point) -> PlayerStateMachine {
    PlayerStateMachine::Reloading(PlayerState {
        context: PlayerContext { frame, position: Point { x: 300_000, y: 475_000 }, velocity },
        state: Reloading,
    })
}

#[test]
fn hit_while_alive_starts_reload() {
    let mut p = Player::new();
    p.update(1_000, 0);
    p.update(1_000, 0);
    assert_eq!(context(&p.state_machine).frame, 2);
    p.hit();
    match p.state_machine {
        PlayerStateMachine::Reloading(s) => {
            assert_eq!(s.context.frame, 0);
            assert_eq!(s.context.position, Point { x: 302_000, y: 475_000 });
        }
        _ => panic!("expected Reloading"),
    }
}

#[test]
fn hit_while_reloading_changes_nothing() {
    let m = reloading_at(17, Point { x: 5, y: 6 });
    assert_eq!(m.transition(PlayerEvent::Hit), m);
    assert_eq!(m.transition(PlayerEvent::Bomb), m);
}

#[test]
fn reloading_ignores_move() {
    let m = reloading_at(3, Point { x: 4_000, y: 0 });
    let after = m.transition(PlayerEvent::Move(-6_000, 6_000));
    assert_eq!(context(&after).velocity, Point { x: 4_000, y: 0 });
    assert_eq!(after, m);
}

#[test]
fn move_sets_velocity_when_alive_or_bombing() {
    let alive = PlayerStateMachine::Alive(PlayerState::<Alive>::new());
    let moved = alive.transition(PlayerEvent::Move(10, -20));
    assert_eq!(context(&moved).velocity, Point { x: 10, y: -20 });
    let bombing = alive.transition(PlayerEvent::Bomb);
    let moved = bombing.transition(PlayerEvent::Move(7, 8));
    assert!(matches!(moved, PlayerStateMachine::Bombing(_)));
    assert_eq!(context(&moved).velocity, Point { x: 7, y: 8 });
}

#[test]
fn bomb_lasts_sixty_ticks() {
    let mut m = PlayerStateMachine::Alive(PlayerState::<Alive>::new()).transition(PlayerEvent::Bomb);
    assert!(matches!(m, PlayerStateMachine::Bombing(_)));
    assert_eq!(context(&m).frame, 0);
    for _ in 0..59 {
        m = m.update();
    }
    assert!(matches!(m, PlayerStateMachine::Bombing(_)));
    assert_eq!(context(&m).frame, 59);
    m = m.update();
    assert!(matches!(m, PlayerStateMachine::Alive(_)));
    assert_eq!(context(&m).frame, 0);
}

#[test]
fn reload_lasts_one_hundred_twenty_ticks() {
    let mut m = PlayerStateMachine::Alive(PlayerState::<Alive>::new()).transition(PlayerEvent::Hit);
    for _ in 0..119 {
        m = m.update();
    }
    assert!(matches!(m, PlayerStateMachine::Reloading(_)));
    assert_eq!(context(&m).frame, 119);
    m = m.update();
    assert!(matches!(m, PlayerStateMachine::Alive(_)));
    assert_eq!(context(&m).frame, 0);
}

#[test]
fn alive_frame_wraps_after_thirty() {
    let mut m = PlayerStateMachine::Alive(PlayerState::<Alive>::new());
    for _ in 0..30 {
        m = m.update();
    }
    assert_eq!(context(&m).frame, 30);
    m = m.update();
    assert_eq!(context(&m).frame, 0);
}

#[test]
fn state_updates_directly() {
    let s = PlayerState::<Alive>::new().bomb();
    match s.update() {
        BombingEndState::Bombing(b) => assert_eq!(b.context.frame, 1),
        BombingEndState::Complete(_) => panic!("bomb ended early"),
    }
    let r = PlayerState::<Alive>::new().hit();
    match r.update() {
        ReloadEndState::Reloading(b) => assert_eq!(b.context.frame, 1),
        ReloadEndState::Complete(_) => panic!("reload ended early"),
    }
    assert_eq!(r.end_reload().context.frame, 0);
}

#[test]
fn update_moves_then_ticks() {
    let mut p = Player::new();
    p.update(6_000, 0);
    assert_eq!(context(&p.state_machine).position, Point { x: 306_000, y: 475_000 });
    assert_eq!(context(&p.state_machine).frame, 1);
}

#[test]
fn position_is_clamped_to_field() {
    let mut p = Player::new();
    for _ in 0..100 {
        p.update(-6_000, 6_000);
    }
    assert_eq!(context(&p.state_machine).position, Point { x: 50_000, y: 570_000 });
}

#[test]
fn bomb_only_from_alive() {
    let mut p = Player::new();
    p.bomb();
    assert!(matches!(p.state_machine, PlayerStateMachine::Bombing(_)));
    p.hit();
    assert!(matches!(p.state_machine, PlayerStateMachine::Bombing(_)));
}

fn keys(codes: &[&str]) -> KeyState {
    let mut k = KeyState::new();
    for c in codes {
        k.set_pressed(c);
    }
    k
}

#[test]
fn velocity_from_keys() {
    assert_eq!(Player::calc_velocity(&keys(&[])), (0, 0));
    assert_eq!(Player::calc_velocity(&keys(&["KeyA"])), (-6_000, 0));
    assert_eq!(Player::calc_velocity(&keys(&["KeyS"])), (0, 6_000));
    assert_eq!(Player::calc_velocity(&keys(&["KeyA", "KeyD"])), (0, 0));
    assert_eq!(Player::calc_velocity(&keys(&["KeyW", "KeyD"])), (4_260, -4_260));
    assert_eq!(Player::calc_velocity(&keys(&["KeyW", "KeyK"])), (0, -3_600));
    assert_eq!(Player::calc_velocity(&keys(&["KeyS", "KeyA", "KeyK"])), (-2_556, 2_556));
}

fn bullet_at(x: i64, y: i64) -> Bullet {
    Bullet::new(Point { x, y }, Vector::zero(), Vector::zero(), vec![])
}

#[test]
fn player_collides_with_near_bullet_only() {
    let p = Player::new();
    assert!(p.is_collided(&bullet_at(305_000, 475_000)));
    assert!(!p.is_collided(&bullet_at(320_000, 475_000)));
}
