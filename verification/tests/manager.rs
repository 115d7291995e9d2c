use planarwm::config::Config;
use planarwm::effect::Effect;
use planarwm::geometry::{Dimension, Position};
use planarwm::manager::{elapsed_since, WindowManager};
use planarwm::task::{Phase, Task};

fn anim(_sq: i32) -> u64 {
    50
}

fn ease(d: Position, e: u64, t: u64) -> Position {
    if t == 0 {
        return d;
    }
    Position {
        x: (d.x as i64 * e as i64 / t as i64) as i32,
        y: (d.y as i64 * e as i64 / t as i64) as i32,
    }
}

fn lookup(name: &str) -> u32 {
    match name {
        "Return" => 0xff0d,
        "q" => 0x71,
        "x" => 0x78,
        _ => 0,
    }
}

fn double(p: Position) -> Position {
    Position { x: p.x.wrapping_mul(2), y: p.y.wrapping_mul(2) }
}

fn tick(wm: &mut WindowManager, phase: Phase, now: u64, effects: &mut Vec<Effect>) -> Result<usize, usize> {
    wm.tick_tasks(phase, now, &anim, &ease, &double, effects)
}

#[test]
fn elapsed_saturates() {
    assert_eq!(elapsed_since(100, 40), 60);
    assert_eq!(elapsed_since(40, 100), 0);
}

#[test]
fn new_manager_is_empty() {
    let wm = WindowManager::new();
    assert_eq!(wm.desktop.workspaces.len(), 1);
    assert_eq!(wm.desktop.active_workspace, "default");
    assert!(wm.windows.is_empty() && wm.outputs.is_empty() && wm.seats.is_empty());
    assert!(wm.queue.is_empty());
    assert_eq!(wm.camera_pos, Position { x: 0, y: 0 });
    assert!(wm.render_camera_pos.is_none());
}

#[test]
fn geometry_move_and_resize_run_as_tasks() {
    let mut wm = WindowManager::new();
    wm.add_window(1, "w1".to_string());
    wm.queue.push(Task::SetWindowGeometry {
        window_id: 1,
        pos: Position { x: 100, y: 0 },
        dim: Dimension { width: 200, height: 100 },
        timer: 0,
    });
    let mut effects = Vec::new();
    assert_eq!(tick(&mut wm, Phase::Render, 0, &mut effects), Ok(1));
    assert_eq!(wm.windows[0].target_position, Position { x: 100, y: 0 });
    assert_eq!(wm.queue.len(), 2);
    assert!(wm.queue.contains(&Task::MoveWindow {
        window_id: 1,
        diff_pos: Position { x: 100, y: 0 },
        timer: 0,
        duration: 50,
    }));
    assert!(wm.queue.contains(&Task::ResizeWindow {
        window_id: 1,
        dim: Dimension { width: 200, height: 100 },
        timer: 0,
        duration: 0,
    }));

    assert_eq!(tick(&mut wm, Phase::Render, 25, &mut effects), Ok(2));
    assert_eq!(wm.windows[0].render_position, Some(Position { x: 50, y: 0 }));
    assert_eq!(wm.windows[0].original_position, Position { x: 0, y: 0 });
    assert_eq!(wm.queue.len(), 2);
    assert!(effects.is_empty());

    assert_eq!(tick(&mut wm, Phase::Manage, 100, &mut effects), Ok(2));
    assert_eq!(wm.windows[0].original_position, Position { x: 100, y: 0 });
    assert_eq!(wm.windows[0].render_position, Some(Position { x: 100, y: 0 }));
    assert_eq!((wm.windows[0].width, wm.windows[0].height), (200, 100));
    assert!(wm.queue.is_empty());
    assert!(matches!(
        effects[..],
        [Effect::ProposeDimensions { window: 1, width: 200, height: 100 }]
    ));
}

#[test]
fn same_geometry_queues_nothing() {
    let mut wm = WindowManager::new();
    wm.add_window(1, "w1".to_string());
    wm.set_window_geometry(1, Position { x: 0, y: 0 }, Dimension { width: 0, height: 0 }, 0, &anim);
    assert!(wm.queue.is_empty());
}

#[test]
fn resize_to_zero_is_retried() {
    let mut wm = WindowManager::new();
    wm.add_window(1, "w1".to_string());
    let mut effects = Vec::new();
    assert!(!wm.resize_window(1, Dimension { width: 0, height: 10 }, &mut effects));
    assert!(effects.is_empty());
    assert!(wm.resize_window(1, Dimension { width: 5, height: 10 }, &mut effects));
    assert!(matches!(effects[..], [Effect::ProposeDimensions { window: 1, width: 5, height: 10 }]));
    assert!(wm.resize_window(99, Dimension { width: 5, height: 10 }, &mut effects));
}

#[test]
fn camera_moves_in_frames() {
    let mut wm = WindowManager::new();
    wm.set_camera(Position { x: 0, y: 600 }, 10, &anim);
    assert_eq!(wm.target_camera_pos, Position { x: 0, y: 600 });
    assert_eq!(wm.queue, vec![Task::MoveCamera { diff_pos: Position { x: 0, y: 600 }, timer: 10, duration: 50 }]);
    let mut effects = Vec::new();
    assert_eq!(tick(&mut wm, Phase::Render, 35, &mut effects), Ok(1));
    assert_eq!(wm.camera_pos, Position { x: 0, y: 0 });
    assert_eq!(wm.render_camera_pos, Some(Position { x: 0, y: 300 }));
    assert_eq!(tick(&mut wm, Phase::Render, 61, &mut effects), Ok(1));
    assert_eq!(wm.camera_pos, Position { x: 0, y: 600 });
    assert_eq!(wm.render_camera_pos, Some(Position { x: 0, y: 600 }));
    assert!(wm.queue.is_empty());
}

#[test]
fn camera_offset_forces_a_redraw() {
    let mut wm = WindowManager::new();
    wm.queue.push(Task::SetCameraOffset { pos: Position { x: 5, y: 6 } });
    let mut effects = Vec::new();
    assert_eq!(tick(&mut wm, Phase::Manage, 0, &mut effects), Ok(1));
    assert_eq!(wm.camera_offset, Position { x: 5, y: 6 });
    assert_eq!(wm.render_camera_pos, Some(Position { x: -1, y: -1 }));
}

#[test]
fn pointer_warp_stops_at_a_near_seat() {
    let mut wm = WindowManager::new();
    wm.add_seat(1, None);
    wm.add_seat(2, None);
    wm.add_seat(3, None);
    wm.seats[1].pointer_position = Position { x: 490, y: 495 };
    let mut effects = Vec::new();
    wm.set_pointer(Position { x: 500, y: 500 }, &double, &mut effects);
    assert!(matches!(effects[..], [Effect::PointerWarp { seat: 1, x: 500, y: 500 }]));
}

#[test]
fn pointer_warp_shifts_a_pan() {
    let mut wm = WindowManager::new();
    wm.add_seat(1, None);
    wm.seats[0].op = planarwm::seat::SeatOp::Pan { start_camera_pos: Position { x: 10, y: 10 } };
    wm.queue.push(Task::SetPointer { pos: Position { x: 300, y: 0 } });
    let mut effects = Vec::new();
    assert_eq!(tick(&mut wm, Phase::Render, 0, &mut effects), Ok(1));
    assert!(matches!(effects[..], [Effect::PointerWarp { seat: 1, x: 300, y: 0 }]));
    assert_eq!(wm.seats[0].op, planarwm::seat::SeatOp::Pan { start_camera_pos: Position { x: 610, y: 10 } });
    assert_eq!(wm.seats[0].op_diff, Position { x: 300, y: 0 });
}

#[test]
fn close_waits_for_the_manage_half() {
    let mut wm = WindowManager::new();
    wm.add_window(1, "w1".to_string());
    wm.queue.push(Task::CloseWindow { window_id: 1 });
    let mut effects = Vec::new();
    assert_eq!(tick(&mut wm, Phase::Render, 0, &mut effects), Ok(1));
    assert_eq!(wm.windows.len(), 1);
    assert_eq!(wm.queue.len(), 1);
    assert_eq!(tick(&mut wm, Phase::Manage, 0, &mut effects), Ok(1));
    assert!(wm.windows.is_empty());
    assert!(wm.queue.is_empty());
    assert!(matches!(effects[..], [Effect::CloseWindow { window: 1 }]));
}

#[test]
fn close_of_a_missing_window_is_refused() {
    let mut wm = WindowManager::new();
    wm.queue.push(Task::CloseWindow { window_id: 1 });
    assert!(!wm.close_window_check(1));
    let mut effects = Vec::new();
    assert_eq!(tick(&mut wm, Phase::Manage, 0, &mut effects), Err(0));
    assert_eq!(wm.queue, vec![Task::CloseWindow { window_id: 1 }]);
}

#[test]
fn new_output_gets_its_layer() {
    let mut wm = WindowManager::new();
    wm.add_output(3, Some(9));
    wm.add_output(4, None);
    wm.queue.push(Task::InitNewOutput { id: 3 });
    wm.queue.push(Task::InitNewOutput { id: 4 });
    let mut effects = Vec::new();
    assert_eq!(tick(&mut wm, Phase::Render, 0, &mut effects), Ok(2));
    assert!(matches!(effects[..], [Effect::SetDefaultLayer { output: 3 }]));
}

#[test]
fn background_renders_in_the_render_half() {
    let mut wm = WindowManager::new();
    wm.add_output(3, None);
    wm.outputs[0].background = true;
    wm.camera_pos = Position { x: 7, y: 8 };
    wm.camera_offset = Position { x: 1, y: 1 };
    wm.queue.push(Task::InitNewBackground { id: 3 });
    let mut effects = Vec::new();
    assert_eq!(tick(&mut wm, Phase::Manage, 0, &mut effects), Ok(1));
    assert_eq!(wm.queue.len(), 1);
    assert!(effects.is_empty());
    wm.render_camera_pos = Some(Position { x: 20, y: 30 });
    let _ = tick(&mut wm, Phase::Render, 0, &mut effects);
    assert!(wm.queue.is_empty());
    assert!(matches!(
        effects[..],
        [Effect::RenderBackground { output: 3, camera: Position { x: 21, y: 31 } }]
    ));
}

#[test]
fn maximize_goes_fullscreen_on_the_last_output() {
    let mut wm = WindowManager::new();
    wm.add_window(1, "w1".to_string());
    wm.add_output(2, None);
    wm.outputs[0].dimensions = Some((1920, 1080));
    let mut effects = Vec::new();
    wm.toggle_maximize(1, 0, &mut effects);
    assert!(wm.windows[0].maximized);
    assert_eq!((wm.windows[0].width, wm.windows[0].height), (1920, 1080));
    assert!(matches!(effects[..], [Effect::Fullscreen { window: 1, output: 2 }]));
    wm.toggle_maximize(1, 0, &mut effects);
    assert!(!wm.windows[0].maximized);
    assert!(matches!(effects[1], Effect::ExitFullscreen { window: 1 }));
}

#[test]
fn manage_cycle_sets_up_seats_and_windows() {
    let mut wm = WindowManager::new();
    wm.add_seat(1, None);
    wm.add_window(10, "w10".to_string());
    let mut config = Config::default();
    config.bindings.push((
        "super".to_string(),
        vec![("Return".to_string(), "spawn foot".to_string()), ("q".to_string(), "close".to_string())],
    ));
    config.bindings.push((
        "alt".to_string(),
        vec![("NoSuchKey".to_string(), "close".to_string()), ("x".to_string(), "bogus".to_string())],
    ));
    let mut effects = Vec::new();
    let r = wm.handle_manage_start(&config, &lookup, false, 0, &anim, &ease, &double, &mut effects);
    assert!(r.is_ok());
    assert!(matches!(effects.last(), Some(Effect::ManageFinish)));
    assert!(!wm.seats[0].new);
    assert!(!wm.windows[0].new);
    assert_eq!(wm.windows[0].location.as_ref().unwrap().workspace_id, "default");
    assert_eq!(wm.desktop.workspaces[0].slides[0].windows, vec![10]);
    assert_eq!(wm.seats[0].focused, Some(10));
    let keys: Vec<u32> = effects
        .iter()
        .filter_map(|e| match e {
            Effect::CreateXkbBinding { seat: 1, keysym, mods, .. } => {
                assert_eq!(mods.bits, 64);
                Some(*keysym)
            }
            _ => None,
        })
        .collect();
    assert_eq!(keys, vec![0xff0d, 0x71]);
    let buttons: Vec<u32> = effects
        .iter()
        .filter_map(|e| match e {
            Effect::CreatePointerBinding { seat: 1, button, .. } => Some(*button),
            _ => None,
        })
        .collect();
    assert_eq!(buttons, vec![0x110, 0x111, 0x112]);
    assert!(effects.iter().any(|e| matches!(e, Effect::InformMaximized { window: 10 })));
    assert!(effects.iter().any(|e| matches!(e, Effect::PlaceTop { window: 10 })));
    assert!(effects.iter().any(|e| matches!(e, Effect::FocusWindow { seat: 1, window: 10 })));
    assert!(!effects.iter().any(|e| matches!(e, Effect::UseSsd { .. })));
}

#[test]
fn render_cycle_runs_tasks_then_draws() {
    let mut wm = WindowManager::new();
    let mut effects = Vec::new();
    assert!(wm.handle_render_start(0, &anim, &ease, &double, &mut effects).is_ok());
    assert!(matches!(effects[..], [Effect::RenderFinish]));
    wm.queue.push(Task::CloseWindow { window_id: 3 });
    let mut effects = Vec::new();
    assert!(wm.handle_render_start(0, &anim, &ease, &double, &mut effects).is_ok());
    assert!(matches!(effects[0], Effect::ManageDirty));
    assert!(matches!(effects.last(), Some(Effect::RenderFinish)));
}

#[test]
fn unready_tasks_still_finish_the_render() {
    let mut wm = WindowManager::new();
    wm.queue.push(Task::MaximizeWindow { window_id: 1 });
    wm.queue.push(Task::FocusWindow { window_id: "w".to_string() });
    let mut effects = Vec::new();
    assert!(wm.handle_render_start(0, &anim, &ease, &double, &mut effects).is_ok());
    assert!(matches!(effects.last(), Some(Effect::RenderFinish)));
}

#[test]
fn closing_keeps_ids_unique() {
    let mut wm = WindowManager::new();
    wm.add_window(1, "a".to_string());
    wm.add_window(2, "b".to_string());
    wm.add_window(1, "c".to_string());
    assert_eq!(wm.windows.iter().map(|w| w.id).collect::<Vec<_>>(), vec![1, 2]);
    let mut effects = Vec::new();
    wm.close_window(1, 0, &mut effects);
    assert_eq!(wm.windows.iter().map(|w| w.id).collect::<Vec<_>>(), vec![2]);
    assert!(!wm.close_window_check(1));
}

#[test]
fn manage_cycle_finishes_after_the_last_window_closes() {
    let mut wm = WindowManager::new();
    wm.add_window(1, "a".to_string());
    let config = Config::default();
    let mut effects = Vec::new();
    assert!(wm.handle_manage_start(&config, &lookup, false, 0, &anim, &ease, &double, &mut effects).is_ok());
    wm.window_closed(1);
    let mut effects = Vec::new();
    assert!(wm.handle_manage_start(&config, &lookup, false, 0, &anim, &ease, &double, &mut effects).is_ok());
    assert!(wm.windows.is_empty());
    assert!(matches!(effects.last(), Some(Effect::ManageFinish)));
}
