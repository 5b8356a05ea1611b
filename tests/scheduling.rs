use stg_core::engine::{GameLoop, KeyState, FRAME_SIZE};
use stg_core::script::{check_schedule, ScheduleError, Script, ScriptedEvent};

#[test]
fn fifty_ms_frame_runs_two_updates() {
    let mut lp = GameLoop::new(1_000_000);
    let steps = lp.advance(1_050_000);
    assert_eq!(steps, 2);
    assert_eq!(lp.accumulated_delta, FRAME_SIZE);
    assert_eq!(lp.last_frame, 1_050_000);
}

#[test]
fn fast_frame_runs_no_update() {
    let mut lp = GameLoop::new(0);
    assert_eq!(lp.advance(10_000), 0);
    assert_eq!(lp.accumulated_delta, 600_000);
    assert_eq!(lp.advance(20_000), 1);
    assert_eq!(lp.accumulated_delta, 200_000);
}

#[test]
fn carried_time_adds_up() {
    let mut lp = GameLoop::new(0);
    assert_eq!(lp.advance(50_000), 2);
    assert_eq!(lp.advance(100_000), 3);
    assert_eq!(lp.accumulated_delta, FRAME_SIZE);
    assert_eq!(lp.advance(100_000), 0);
}

#[test]
fn slow_frame_catches_up() {
    let mut lp = GameLoop::new(0);
    assert_eq!(lp.advance(1_000_000), 59);
    assert_eq!(lp.accumulated_delta, FRAME_SIZE);
}

#[test]
fn keys_press_and_release() {
    let mut k = KeyState::new();
    assert!(!k.is_pressed("KeyW"));
    k.set_pressed("KeyW");
    k.set_pressed("KeyW");
    k.set_pressed("KeyJ");
    assert!(k.is_pressed("KeyW"));
    assert!(k.is_pressed("KeyJ"));
    assert!(!k.is_pressed("KeyA"));
    k.set_released("KeyW");
    assert!(!k.is_pressed("KeyW"));
    assert!(k.is_pressed("KeyJ"));
    k.set_released("KeyA");
    assert!(k.is_pressed("KeyJ"));
}

#[test]
fn script_fires_on_exact_tick_only() {
    let mut s = Script::new(vec![
        ScriptedEvent { at: 2, event_ty: 'a' },
        ScriptedEvent { at: 4, event_ty: 'b' },
    ]);
    assert_eq!(s.next_event, Some(0));
    assert_eq!(s.tick(), None);
    assert_eq!(s.tick(), Some(0));
    assert_eq!(s.next_event, Some(1));
    assert_eq!(s.tick(), None);
    assert_eq!(s.tick(), Some(1));
    assert_eq!(s.next_event, None);
    assert_eq!(s.tick(), None);
    assert_eq!(s.frame, 5);
}

#[test]
fn skipped_event_never_fires_late() {
    let mut s = Script::new(vec![ScriptedEvent { at: 2, event_ty: () }]);
    s.frame = 5;
    for _ in 0..10 {
        assert_eq!(s.tick(), None);
    }
    assert_eq!(s.next_event, Some(0));
}

#[test]
fn empty_script_has_no_cursor() {
    let mut s: Script<u8> = Script::new(vec![]);
    assert_eq!(s.next_event, None);
    assert_eq!(s.tick(), None);
    assert_eq!(s.frame, 1);
}

#[test]
fn schedule_validation() {
    let ok = vec![ScriptedEvent { at: 1, event_ty: 0u8 }, ScriptedEvent { at: 5, event_ty: 1u8 }];
    assert_eq!(check_schedule(&ok), Ok(()));
    let flat = vec![
        ScriptedEvent { at: 3, event_ty: 0u8 },
        ScriptedEvent { at: 7, event_ty: 0u8 },
        ScriptedEvent { at: 7, event_ty: 0u8 },
    ];
    assert_eq!(check_schedule(&flat), Err(ScheduleError::InvalidEventSchedule(2)));
    let zero = vec![ScriptedEvent { at: 0, event_ty: 0u8 }];
    assert_eq!(check_schedule(&zero), Err(ScheduleError::InvalidEventSchedule(0)));
    let empty: Vec<ScriptedEvent<u8>> = vec![];
    assert_eq!(check_schedule(&empty), Ok(()));
}
