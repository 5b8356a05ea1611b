use stg_core::engine::{Color, DrawCommand, KeyState};
use stg_core::game::{GameError, StgGame};
use stg_core::level::{
    nway_headings, Bullet, BulletEvent, BulletEventType, Enemy, EnemyEvent, EnemyEventType, Level,
};
use stg_core::math::{Point, Rect, Vector};
use stg_core::player::{Player, PlayerStateMachine};
use stg_core::script::check_schedule;

#[test]
fn four_way_fan_headings() {
    assert_eq!(nway_headings(4, 90_000, 90_000), vec![45_000, 75_000, 105_000, 135_000]);
}

#[test]
fn single_bullet_fan_goes_to_center() {
    assert_eq!(nway_headings(1, 90_000, 30_000), vec![30_000]);
    assert_eq!(nway_headings(0, 90_000, 30_000), Vec::<i64>::new());
}

#[test]
fn bullet_age_and_cursor_advance() {
    let mut b = Bullet::new(
        Point { x: 0, y: 0 },
        Vector::new(100, 0),
        Vector::new(0, 10),
        vec![BulletEvent { at: 3, event_ty: BulletEventType::SetVel(Vector::new(-5, -5)) }],
    );
    b.update();
    assert_eq!(b.script.frame, 1);
    assert_eq!(b.pos, Point { x: 100, y: 10 });
    assert_eq!(b.vel, Vector::new(100, 10));
    b.update();
    assert_eq!(b.script.frame, 2);
    assert_eq!(b.script.next_event, Some(0));
    b.update();
    assert_eq!(b.script.frame, 3);
    assert_eq!(b.pos, Point { x: 300, y: 60 });
    assert_eq!(b.vel, Vector::new(-5, -5));
    assert_eq!(b.script.next_event, None);
    b.update();
    assert_eq!(b.script.frame, 4);
    assert_eq!(b.vel, Vector::new(-5, 5));
}

#[test]
fn bullet_events_rotate_and_accelerate() {
    let mut b = Bullet::new(
        Point { x: 300_000, y: 50_000 },
        Vector::new(0, 4_000),
        Vector::zero(),
        vec![
            BulletEvent { at: 1, event_ty: BulletEventType::RotateVel(30_000) },
            BulletEvent { at: 2, event_ty: BulletEventType::SetAcc(Vector::new(50, 20)) },
        ],
    );
    b.update();
    assert_eq!(b.vel, Vector::new(-2_000, 3_459));
    assert_eq!(b.pos, Point { x: 300_000, y: 54_000 });
    b.update();
    assert_eq!(b.acc, Vector::new(50, 20));
    assert_eq!(b.pos, Point { x: 298_000, y: 57_459 });
    b.update();
    assert_eq!(b.vel, Vector::new(-1_950, 3_479));
}

#[test]
fn enemy_fires_fan_on_its_tick() {
    let mut e = Enemy::new(
        Point { x: 300_000, y: 50_000 },
        Vector::zero(),
        vec![EnemyEvent {
            at: 2,
            event_ty: EnemyEventType::Nways { n: 4, wide_deg: 90_000, center_deg: 90_000 },
        }],
    );
    let player = Player::new();
    let mut bullets: Vec<Bullet> = vec![];
    e.update(&mut bullets, &player);
    assert!(bullets.is_empty());
    e.update(&mut bullets, &player);
    assert_eq!(bullets.len(), 4);
    assert_eq!(bullets[0].vel, Vector::from_deg_and_mag(45_000, 2_000));
    assert_eq!(bullets[3].vel, Vector::from_deg_and_mag(135_000, 2_000));
    assert_eq!(bullets[1].pos, Point { x: 300_000, y: 50_000 });
    e.update(&mut bullets, &player);
    assert_eq!(bullets.len(), 4);
}

#[test]
fn enemy_aims_at_player() {
    let mut e = Enemy::new(
        Point { x: 300_000, y: 75_000 },
        Vector::zero(),
        vec![EnemyEvent { at: 1, event_ty: EnemyEventType::AimShot }],
    );
    let player = Player::new();
    let mut bullets: Vec<Bullet> = vec![];
    e.update(&mut bullets, &player);
    assert_eq!(bullets.len(), 1);
    assert_eq!(bullets[0].vel, Vector::new(0, 1_000));
}

fn bare_level(bullets: Vec<Bullet>) -> Level {
    Level { player: Player::new(), enemies: vec![], bullets }
}

fn still_bullet(x: i64, y: i64) -> Bullet {
    Bullet::new(Point { x, y }, Vector::zero(), Vector::zero(), vec![])
}

#[test]
fn cull_removes_bullet_past_edge() {
    let mut level = bare_level(vec![still_bullet(551_000, 100_000), still_bullet(550_000, 100_000)]);
    level.cull();
    assert_eq!(level.bullets.len(), 1);
    assert_eq!(level.bullets[0].pos, Point { x: 550_000, y: 100_000 });
}

#[test]
fn cull_keeps_order() {
    let mut level = bare_level(vec![
        still_bullet(100_000, 100_000),
        still_bullet(0, 0),
        still_bullet(200_000, 100_000),
        still_bullet(300_000, 600_000),
        still_bullet(300_000, 100_000),
    ]);
    level.cull();
    let xs: Vec<i64> = level.bullets.iter().map(|b| b.pos.x).collect();
    assert_eq!(xs, vec![100_000, 200_000, 300_000]);
}

#[test]
fn collision_hits_player_once() {
    let mut level = bare_level(vec![still_bullet(305_000, 475_000), still_bullet(301_000, 475_000)]);
    level.resolve_collisions();
    assert!(matches!(level.player.state_machine, PlayerStateMachine::Reloading(_)));
    assert_eq!(level.player.state_machine.context().frame, 0);
}

#[test]
fn tick_hits_player_with_bullet_on_top() {
    let mut level = bare_level(vec![still_bullet(300_000, 475_000)]);
    assert!(level.can_update());
    level.update(&KeyState::new());
    assert!(matches!(level.player.state_machine, PlayerStateMachine::Reloading(_)));
}

#[test]
fn bomb_key_bombs() {
    let mut level = bare_level(vec![]);
    let mut k = KeyState::new();
    k.set_pressed("KeyJ");
    level.update(&k);
    assert!(matches!(level.player.state_machine, PlayerStateMachine::Bombing(_)));
}

#[test]
fn opening_scene_fires_fan_at_tick_one_twenty() {
    let mut level = Level::new();
    let keys = KeyState::new();
    for _ in 0..119 {
        assert!(level.can_update());
        level.update(&keys);
    }
    let fresh = |l: &Level| l.bullets.iter().filter(|b| b.script.frame == 1).count();
    assert_eq!(fresh(&level), 0);
    level.update(&keys);
    assert_eq!(fresh(&level), 4);
    assert_eq!(level.enemies[0].script.frame, 120);
    assert_eq!(level.enemies[0].script.next_event, Some(1));
}

#[test]
fn opening_scene_draws_everything() {
    let level = Level::new();
    let mut out = vec![];
    level.draw(&mut out);
    assert_eq!(out.len(), 3 + 2 + 2);
    assert_eq!(out[0], DrawCommand::SetColor(Color::Red));
    assert_eq!(
        out[1],
        DrawCommand::StrokeRect(Rect { x: 290_000, y: 485_000, width: 20_000, height: -20_000 })
    );
    assert_eq!(out[3], DrawCommand::SetColor(Color::Pink));
    assert_eq!(out[4], DrawCommand::StrokeCircle(Point { x: 300_000, y: 50_000 }, 20_000));
    assert_eq!(out[5], DrawCommand::SetColor(Color::Black));
}

#[test]
fn game_initializes_once() {
    let g = StgGame::new();
    let loaded = g.initialize().unwrap();
    assert!(matches!(loaded, StgGame::Loaded(_)));
    assert!(matches!(loaded.initialize(), Err(GameError::AlreadyInitialized)));
}

#[test]
fn game_draw_clears_then_frames() {
    let mut out = vec![];
    StgGame::new().draw(&mut out);
    assert_eq!(out, vec![DrawCommand::Clear(Rect { x: 0, y: 0, width: 600_000, height: 600_000 })]);
    let loaded = StgGame::new().initialize().unwrap();
    let mut out = vec![];
    loaded.draw(&mut out);
    assert_eq!(out[1], DrawCommand::SetColor(Color::Gray));
    assert_eq!(
        out[2],
        DrawCommand::StrokeRect(Rect { x: 50_000, y: 30_000, width: 500_000, height: 540_000 })
    );
}

#[test]
fn color_names() {
    assert_eq!(Color::Gray.name(), "gray");
    assert_eq!(Color::Yellow.name(), "yellow");
}

#[test]
fn fan_is_symmetric_about_center() {
    assert_eq!(nway_headings(3, 1, 0), vec![0, 0, 0]);
    assert_eq!(nway_headings(4, 100_000, 0), vec![-50_000, -16_666, 16_666, 50_000]);
    let h = nway_headings(7, 123_457, 10_000);
    for k in 0..7 {
        assert_eq!(h[k] + h[6 - k], 20_000);
    }
}

#[test]
fn opening_scene_is_laid_out() {
    let level = Level::new();
    assert_eq!(level.enemies.len(), 1);
    assert_eq!(level.bullets.len(), 1);
    let e = &level.enemies[0];
    assert_eq!(e.pos, Point { x: 300_000, y: 50_000 });
    assert_eq!(e.vel, Vector::zero());
    assert_eq!(e.script.frame, 0);
    assert_eq!(e.script.next_event, Some(0));
    let ticks: Vec<u64> = e.script.events.iter().map(|ev| ev.at).collect();
    assert_eq!(ticks, vec![120, 130, 135, 140]);
    let b = &level.bullets[0];
    assert_eq!(b.pos, Point { x: 300_000, y: 50_000 });
    assert_eq!(b.vel, Vector::new(0, 4_000));
    assert_eq!(b.acc, Vector::zero());
    assert_eq!(b.script.frame, 0);
    assert_eq!(b.script.next_event, Some(0));
    let ticks: Vec<u64> = b.script.events.iter().map(|ev| ev.at).collect();
    assert_eq!(ticks, vec![20, 40, 60, 80]);
    assert_eq!(check_schedule(&e.script.events), Ok(()));
    assert_eq!(check_schedule(&b.script.events), Ok(()));
}

#[test]
fn opening_scene_bullet_count_on_tick_one_twenty() {
    let mut level = Level::new();
    let keys = KeyState::new();
    for _ in 0..119 {
        level.update(&keys);
    }
    assert_eq!(level.bullets.len(), 1);
    level.update(&keys);
    assert_eq!(level.bullets.len(), 5);
    assert!(matches!(level.player.state_machine, PlayerStateMachine::Alive(_)));
    assert_eq!(level.player.state_machine.context().position, Point { x: 300_000, y: 475_000 });
}

#[test]
fn initialize_loads_opening_scene() {
    match StgGame::new().initialize() {
        Ok(StgGame::Loaded(level)) => {
            assert_eq!(level.bullets[0].vel, Vector::new(0, 4_000));
            assert_eq!(level.enemies[0].script.events.len(), 4);
        }
        _ => panic!("expected a loaded level"),
    }
}
