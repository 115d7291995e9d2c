use planarwm::actions::Action;
use planarwm::desktop::Desktop;
use planarwm::effect::Effect;
use planarwm::geometry::Position;
use planarwm::seat::{screen_center_of, Seat, SeatOp};
use planarwm::task::Task;
use planarwm::window::{Output, Window};

struct World {
    seat: Seat,
    desktop: Desktop,
    windows: Vec<Window>,
    outputs: Vec<Output>,
    camera: Position,
    queue: Vec<Task>,
    effects: Vec<Effect>,
}

fn world() -> World {
    let mut desktop = Desktop::new();
    desktop.workspaces[0].dimensions = (800, 600);
    World {
        seat: Seat::new(1),
        desktop,
        windows: Vec::new(),
        outputs: Vec::new(),
        camera: Position { x: 0, y: 0 },
        queue: Vec::new(),
        effects: Vec::new(),
    }
}

fn run(w: &mut World, action: Action) {
    w.seat.pending_action = action;
    assert!(w.seat.action_check(&w.seat.pending_action, &w.desktop, &w.windows, &w.outputs));
    w.seat.do_action(
        &mut w.desktop,
        &mut w.windows,
        &w.outputs,
        &mut w.camera,
        &mut w.queue,
        7,
        &mut w.effects,
    );
    assert!(matches!(w.seat.pending_action, Action::Noop));
}

fn add_window(w: &mut World, id: u32) {
    w.windows.push(Window::new(id, format!("w{}", id)));
    w.desktop.attach_window(id, &mut w.windows);
}

#[test]
fn view_sets_the_camera() {
    let mut w = world();
    run(&mut w, Action::View { x: 30, y: -40 });
    assert_eq!(w.camera, Position { x: 30, y: -40 });
    assert!(w.effects.is_empty() && w.queue.is_empty());
}

#[test]
fn spawn_actions_become_effects() {
    let mut w = world();
    run(&mut w, Action::Spawn { program: "foot".to_string(), args: vec!["-e".to_string()] });
    run(&mut w, Action::SpawnShell { command: "echo hi".to_string() });
    match &w.effects[..] {
        [Effect::Spawn { program, args }, Effect::SpawnShell { command }] => {
            assert_eq!(program, "foot");
            assert_eq!(args, &vec!["-e".to_string()]);
            assert_eq!(command, "echo hi");
        }
        _ => panic!("unexpected effects {:?}", w.effects),
    }
}

#[test]
fn close_and_maximize_need_a_focused_window() {
    let mut w = world();
    run(&mut w, Action::Close);
    run(&mut w, Action::ToggleMaximize);
    assert!(w.queue.is_empty());
    w.seat.focused = Some(5);
    run(&mut w, Action::Close);
    run(&mut w, Action::ToggleMaximize);
    assert_eq!(w.queue, vec![Task::CloseWindow { window_id: 5 }, Task::MaximizeWindow { window_id: 5 }]);
}

#[test]
fn pan_starts_a_pointer_operation() {
    let mut w = world();
    w.camera = Position { x: 3, y: 4 };
    run(&mut w, Action::Pan);
    assert_eq!(w.seat.op, SeatOp::Pan { start_camera_pos: Position { x: 3, y: 4 } });
    assert!(matches!(w.effects[..], [Effect::OpStartPointer { seat: 1 }]));
}

#[test]
fn move_and_resize_start_on_the_hovered_window() {
    let mut w = world();
    add_window(&mut w, 9);
    w.windows[0].x = 11;
    w.windows[0].y = 12;
    w.windows[0].width = 300;
    w.windows[0].height = 200;
    run(&mut w, Action::Move);
    assert_eq!(w.seat.op, SeatOp::Idle);
    assert!(w.effects.is_empty());
    w.seat.hovered = Some(9);
    run(&mut w, Action::Move);
    assert_eq!(w.seat.op, SeatOp::Move { window_id: 9, start_x: 11, start_y: 12 });
    assert_eq!(w.seat.interacted, Some(9));

    let mut w2 = world();
    add_window(&mut w2, 9);
    w2.windows[0].width = 300;
    w2.windows[0].height = 200;
    w2.seat.hovered = Some(9);
    run(&mut w2, Action::Resize);
    assert_eq!(
        w2.seat.op,
        SeatOp::Resize { window_id: 9, start_x: 0, start_y: 0, start_width: 300, start_height: 200, edges: 10 }
    );
    assert!(matches!(
        w2.effects[..],
        [
            Effect::OpStartPointer { seat: 1 },
            Effect::InformResizeStart { window: 9 },
            Effect::ProposeDimensions { window: 9, width: 300, height: 200 }
        ]
    ));
}

#[test]
fn released_operation_ends() {
    let mut w = world();
    w.seat.op = SeatOp::Move { window_id: 3, start_x: 0, start_y: 0 };
    w.seat.op_release = true;
    run(&mut w, Action::Noop);
    assert_eq!(w.seat.op, SeatOp::Idle);
    assert!(!w.seat.op_release);
    assert!(matches!(w.effects[..], [Effect::OpEnd { seat: 1 }]));
}

#[test]
fn next_slide_moves_camera_and_focus() {
    let mut w = world();
    add_window(&mut w, 1);
    add_window(&mut w, 2);
    run(&mut w, Action::NextSlide);
    let ws = &w.desktop.workspaces[0];
    assert_eq!(ws.slides.len(), 2);
    assert_eq!(ws.active_slide, 1);
    assert_eq!(w.queue, vec![Task::SetCamera { pos: Position { x: 0, y: 600 }, timer: 7 }]);
    run(&mut w, Action::PrevSlide);
    assert_eq!(w.desktop.workspaces[0].slides.len(), 1);
    assert_eq!(w.seat.focused, Some(2));
    assert!(w.effects.iter().any(|e| matches!(e, Effect::FocusWindow { seat: 1, window: 2 })));
}

#[test]
fn window_cycling_and_tiling() {
    let mut w = world();
    add_window(&mut w, 1);
    add_window(&mut w, 2);
    run(&mut w, Action::PrevWindow);
    assert_eq!(w.desktop.workspaces[0].slides[0].active_window, 0);
    assert_eq!(w.seat.focused, Some(1));
    run(&mut w, Action::NextWindow);
    assert_eq!(w.desktop.workspaces[0].slides[0].active_window, 1);
    assert_eq!(w.seat.focused, Some(2));
    run(&mut w, Action::CycleTiling);
    assert_eq!(
        w.desktop.workspaces[0].slides[0].slide_type,
        planarwm::slide::SlideType::Master
    );
}

#[test]
fn move_to_next_slide_takes_the_window_along() {
    let mut w = world();
    add_window(&mut w, 1);
    add_window(&mut w, 2);
    run(&mut w, Action::MoveToNextSlide);
    let ws = &w.desktop.workspaces[0];
    assert_eq!(ws.active_slide, 1);
    assert_eq!(ws.slides[1].windows, vec![2]);
    assert_eq!(w.windows[1].location.as_ref().unwrap().slide_id, ws.slides[1].id);
    assert!(w.queue.contains(&Task::SetCamera { pos: Position { x: 0, y: 600 }, timer: 7 }));
}

#[test]
fn exit_ends_the_session() {
    let mut w = world();
    run(&mut w, Action::Exit);
    assert!(w.effects.iter().any(|e| matches!(e, Effect::ExitSession)));
}

#[test]
fn centering_uses_the_first_sized_output() {
    let mut outputs = vec![Output::new(1), Output::new(2)];
    assert_eq!(screen_center_of(&outputs), None);
    outputs[1].position = Some((100, 0));
    outputs[1].dimensions = Some((1920, 1080));
    assert_eq!(screen_center_of(&outputs), Some((1060, 540)));

    let mut w = world();
    add_window(&mut w, 4);
    w.windows[0].x = 500;
    w.windows[0].y = 500;
    w.windows[0].width = 200;
    w.windows[0].height = 100;
    w.outputs = outputs;
    w.seat.focused = Some(4);
    run(&mut w, Action::CenterFocused);
    assert_eq!(w.camera, Position { x: 600 - 1060, y: 550 - 540 });
}
