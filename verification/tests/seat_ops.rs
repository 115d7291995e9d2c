use planarwm::actions::{Action, Modifiers};
use planarwm::effect::Effect;
use planarwm::geometry::Position;
use planarwm::seat::{copy_action, copy_strings, focus_window_camera, LayerFocus, Seat, SeatOp};
use planarwm::window::{relocate, place, LibinputDevice, Output, Window};

#[test]
fn new_seat_is_idle() {
    let s = Seat::new(4);
    assert_eq!(s.id, 4);
    assert!(s.new && !s.removed && !s.op_release);
    assert_eq!(s.op, SeatOp::Idle);
    assert_eq!(s.layer_focus, LayerFocus::Unfocused);
    assert!(s.focused.is_none() && s.hovered.is_none() && s.interacted.is_none());
    assert!(matches!(s.pending_action, Action::Noop));
}

#[test]
fn focus_respects_an_exclusive_layer() {
    let windows = vec![Window::new(1, "a".to_string())];
    let mut s = Seat::new(2);
    let mut effects = Vec::new();
    s.focus_window(1, &windows, &mut effects);
    assert_eq!(s.focused, Some(1));
    s.focus_window(9, &windows, &mut effects);
    assert_eq!(s.focused, Some(9));
    s.layer_focus = LayerFocus::Exclusive;
    s.focus_window(1, &windows, &mut effects);
    assert_eq!(s.focused, None);
    assert!(matches!(
        effects[..],
        [Effect::FocusWindow { seat: 2, window: 1 }, Effect::ClearFocus { seat: 2 }]
    ));
}

#[test]
fn pointer_operations_start_and_end() {
    let mut w = Window::new(3, "a".to_string());
    w.x = 5;
    w.y = 6;
    w.width = 100;
    w.height = 80;
    let windows = vec![w];
    let mut s = Seat::new(1);
    let mut effects = Vec::new();
    s.pointer_pan(Position { x: 1, y: 2 }, &mut effects);
    assert_eq!(s.op, SeatOp::Pan { start_camera_pos: Position { x: 1, y: 2 } });
    s.pointer_move(&windows[0], &mut effects);
    assert_eq!(s.op, SeatOp::Move { window_id: 3, start_x: 5, start_y: 6 });
    assert_eq!(s.interacted, Some(3));
    s.pointer_resize(&windows[0], 9, &mut effects);
    assert_eq!(
        s.op,
        SeatOp::Resize { window_id: 3, start_x: 5, start_y: 6, start_width: 100, start_height: 80, edges: 9 }
    );
    s.op_diff = Position { x: 10, y: -4 };
    s.op_manage(&windows, &mut effects);
    s.op_end(&windows, &mut effects);
    assert_eq!(s.op, SeatOp::Idle);
    assert!(matches!(
        effects[..],
        [
            Effect::OpStartPointer { seat: 1 },
            Effect::OpStartPointer { seat: 1 },
            Effect::OpStartPointer { seat: 1 },
            Effect::InformResizeStart { window: 3 },
            Effect::ProposeDimensions { window: 3, width: 110, height: 84 },
            Effect::InformResizeEnd { window: 3 },
            Effect::OpEnd { seat: 1 }
        ]
    ));
}

#[test]
fn resize_from_left_and_right_edges() {
    let mut w = Window::new(3, "a".to_string());
    w.width = 100;
    w.height = 80;
    let windows = vec![w];
    let mut s = Seat::new(1);
    let mut effects = Vec::new();
    s.op = SeatOp::Resize { window_id: 3, start_x: 0, start_y: 0, start_width: 100, start_height: 80, edges: 4 };
    s.op_diff = Position { x: 10, y: 0 };
    s.op_manage(&windows, &mut effects);
    s.op = SeatOp::Resize { window_id: 3, start_x: 0, start_y: 0, start_width: 100, start_height: 80, edges: 8 };
    s.op_manage(&windows, &mut effects);
    s.op = SeatOp::Resize { window_id: 4, start_x: 0, start_y: 0, start_width: 100, start_height: 80, edges: 8 };
    s.op_manage(&windows, &mut effects);
    assert!(matches!(
        effects[..],
        [
            Effect::ProposeDimensions { window: 3, width: 90, height: 80 },
            Effect::ProposeDimensions { window: 3, width: 110, height: 80 }
        ]
    ));
}

#[test]
fn bindings_are_recorded_and_pressed() {
    let mut s = Seat::new(1);
    s.create_xkb_binding(10, Action::Close);
    s.create_pointer_binding(11, Action::Move);
    assert!(s.xkb_pressed(10));
    assert!(matches!(s.pending_action, Action::Close));
    assert!(s.pointer_pressed(11));
    assert!(matches!(s.pending_action, Action::Move));
    assert!(!s.xkb_pressed(11));
    assert!(!s.pointer_pressed(10));
}

#[test]
fn camera_centres_the_window() {
    let mut w = Window::new(1, "a".to_string());
    w.x = 1000;
    w.y = 400;
    w.width = 300;
    w.height = 201;
    let mut o = Output::new(2);
    o.position = Some((0, 0));
    o.dimensions = Some((800, 600));
    let outputs = vec![o];
    let mut camera = Position { x: 5, y: 5 };
    focus_window_camera(&w, &outputs, &mut camera);
    assert_eq!(camera, Position { x: 1150 - 400, y: 500 - 300 });
    let mut camera = Position { x: 5, y: 5 };
    focus_window_camera(&w, &Vec::new(), &mut camera);
    assert_eq!(camera, Position { x: 5, y: 5 });
}

#[test]
fn node_position_is_relative_to_the_camera() {
    let mut w = Window::new(1, "a".to_string());
    w.current_position = Position { x: 10, y: 20 };
    assert_eq!(w.set_node_position(Position { x: 3, y: 4 }), (7, 16));
    w.render_position = Some(Position { x: 100, y: 200 });
    assert_eq!(w.set_node_position(Position { x: 3, y: 4 }), (97, 196));
    w.render_position = Some(Position { x: i32::MIN, y: 0 });
    assert_eq!(w.set_node_position(Position { x: 1, y: 0 }), (i32::MAX, 0));
}

#[test]
fn small_constructors_and_copies() {
    let d = LibinputDevice::new(5);
    assert_eq!((d.id, d.tap_support), (5, None));
    let m = Modifiers { bits: 1 }.union(Modifiers { bits: 64 });
    assert_eq!(m.bits, 65);
    let v = vec!["a".to_string(), "b c".to_string()];
    assert_eq!(copy_strings(&v), v);
    assert!(matches!(copy_action(&Action::View { x: 1, y: 2 }), Action::View { x: 1, y: 2 }));
    match copy_action(&Action::Spawn { program: "p".to_string(), args: v.clone() }) {
        Action::Spawn { program, args } => {
            assert_eq!(program, "p");
            assert_eq!(args, v);
        }
        _ => panic!("wrong variant"),
    }
}

#[test]
fn relocation_changes_only_the_slide() {
    let mut ws = vec![Window::new(1, "a".to_string()), Window::new(2, "b".to_string())];
    place(&mut ws, 1, &"main".to_string(), 0);
    place(&mut ws, 2, &"main".to_string(), 0);
    relocate(&mut ws, 1, 4);
    let l = ws[0].location.as_ref().unwrap();
    assert_eq!((l.workspace_id.as_str(), l.slide_id), ("main", 4));
    assert_eq!(ws[1].location.as_ref().unwrap().slide_id, 0);
}
