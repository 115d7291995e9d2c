use planarwm::actions::Action;
use planarwm::effect::Effect;
use planarwm::events::{find_device, find_seat};
use planarwm::geometry::Position;
use planarwm::lookup::{find_id, find_output, find_window};
use planarwm::manager::WindowManager;
use planarwm::seat::{LayerFocus, SeatOp};
use planarwm::window::{place, Output, Window};

#[test]
fn window_announcement_replaces_by_id() {
    let mut wm = WindowManager::new();
    wm.add_window(1, "a".to_string());
    wm.add_window(2, "b".to_string());
    wm.windows[0].width = 50;
    wm.add_window(1, "c".to_string());
    assert_eq!(wm.windows.len(), 2);
    assert_eq!(wm.windows[0].name, "c");
    assert_eq!(wm.windows[0].width, 0);
    assert!(wm.windows[0].new);
    assert_eq!(wm.windows[0].title, "unknown");
    assert_eq!(find_window(&wm.windows, 2), Some(1));
    assert_eq!(find_window(&wm.windows, 3), None);
}

#[test]
fn window_events() {
    let mut wm = WindowManager::new();
    wm.add_window(1, "a".to_string());
    wm.window_title(1, Some("hello".to_string()));
    assert_eq!(wm.windows[0].title, "hello");
    wm.window_title(1, None);
    assert_eq!(wm.windows[0].title, "hello");
    wm.pointer_move_requested(1, 4);
    assert_eq!(wm.windows[0].pointer_move_requested, Some(4));
    wm.pointer_resize_requested(1, 5, 6);
    assert_eq!(wm.windows[0].pointer_resize_requested, Some(5));
    assert_eq!(wm.windows[0].pointer_resize_requested_edges, 6);
    wm.window_closed(1);
    assert!(wm.windows[0].closed);
    wm.window_closed(9);
}

#[test]
fn window_size_marks_its_slide() {
    let mut wm = WindowManager::new();
    wm.add_window(1, "a".to_string());
    assert!(!wm.window_dimensions(1, 300, 200));
    assert_eq!((wm.windows[0].width, wm.windows[0].height), (300, 200));
    let ws = "default".to_string();
    place(&mut wm.windows, 1, &ws, 0);
    wm.desktop.workspaces[0].slides[0].rearrange_required = false;
    assert!(wm.window_dimensions(1, 310, 210));
    assert!(wm.desktop.workspaces[0].slides[0].rearrange_required);
    place(&mut wm.windows, 1, &ws, 8);
    assert!(!wm.window_dimensions(1, 310, 210));
    assert!(wm.window_dimensions(77, 1, 1));
}

#[test]
fn output_events() {
    let mut wm = WindowManager::new();
    wm.add_output(3, Some(30));
    assert!(wm.output_position(3, 10, 20));
    assert_eq!(wm.outputs[0].position, Some((10, 20)));
    assert!(wm.output_dimensions(3, 1280, 720));
    assert_eq!(wm.outputs[0].dimensions, Some((1280, 720)));
    assert_eq!(wm.desktop.workspaces[0].dimensions, (1280, 720));
    assert_eq!(wm.desktop.workspaces[0].slides[0].dimensions, (1280, 720));
    assert!(!wm.output_dimensions(4, 1, 1));
    assert!(!wm.output_position(4, 1, 1));
    assert!(wm.output_removed(3));
    assert!(wm.outputs[0].removed);
    assert!(!wm.output_removed(4));
    assert_eq!(find_output(&wm.outputs, 3), Some(0));
    let o = Output::new(5);
    assert!(!o.removed && o.layer.is_none() && !o.background);
}

#[test]
fn seat_events() {
    let mut wm = WindowManager::new();
    wm.add_seat(1, Some(11));
    assert_eq!(find_seat(&wm.seats, 1), Some(0));
    assert!(wm.pointer_hover(1, Some(5)));
    assert_eq!(wm.seats[0].hovered, Some(5));
    assert!(wm.window_interaction(1, 6));
    assert_eq!(wm.seats[0].interacted, Some(6));
    assert!(wm.op_delta(1, -3, 4));
    assert_eq!(wm.seats[0].op_diff, Position { x: -3, y: 4 });
    assert!(wm.op_release(1));
    assert!(wm.seats[0].op_release);
    assert!(wm.layer_focus(1, LayerFocus::Exclusive));
    assert_eq!(wm.seats[0].layer_focus, LayerFocus::Exclusive);
    assert!(wm.seat_removed(1));
    assert!(wm.seats[0].removed);
    assert!(!wm.pointer_hover(2, None));
    assert!(!wm.seat_removed(2));
}

#[test]
fn binding_presses_set_the_pending_action() {
    let mut wm = WindowManager::new();
    wm.add_seat(1, None);
    wm.seats[0].create_xkb_binding(40, Action::NextSlide);
    wm.seats[0].create_pointer_binding(41, Action::Pan);
    assert!(wm.xkb_binding_pressed(1, 40));
    assert!(matches!(wm.seats[0].pending_action, Action::NextSlide));
    assert!(wm.pointer_binding_pressed(1, 41));
    assert!(matches!(wm.seats[0].pending_action, Action::Pan));
    assert!(!wm.xkb_binding_pressed(1, 41));
    assert!(matches!(wm.seats[0].pending_action, Action::Pan));
    assert!(!wm.pointer_binding_pressed(2, 41));
}

#[test]
fn libinput_devices() {
    let mut wm = WindowManager::new();
    let mut effects = Vec::new();
    wm.add_libinput_device(7);
    wm.tap_support(7, 3, &mut effects);
    wm.tap_support(8, 0, &mut effects);
    assert_eq!(wm.libinput_devices.len(), 2);
    assert_eq!(wm.libinput_devices[0].tap_support, Some(3));
    assert_eq!(wm.libinput_devices[1].tap_support, Some(0));
    assert!(matches!(effects[..], [Effect::EnableTapping { device: 7 }]));
    assert_eq!(find_device(&wm.libinput_devices, 8), Some(1));
    wm.libinput_removed(7);
    assert_eq!(wm.libinput_devices.len(), 1);
    assert_eq!(find_device(&wm.libinput_devices, 7), None);
}

#[test]
fn removed_outputs_and_seats_are_dropped_in_the_manage_cycle() {
    let mut wm = WindowManager::new();
    wm.add_output(3, Some(30));
    wm.add_output(4, None);
    wm.add_seat(1, None);
    wm.add_seat(2, Some(22));
    wm.output_removed(3);
    wm.seat_removed(2);
    let mut effects = Vec::new();
    wm.remove_outputs(&mut effects);
    wm.remove_seats(&mut effects);
    assert_eq!(wm.outputs.len(), 1);
    assert_eq!(wm.outputs[0].id, 4);
    assert_eq!(wm.seats.len(), 1);
    assert_eq!(wm.seats[0].id, 1);
    assert!(matches!(effects[0], Effect::DestroyOutput { output: 3, layer: Some(30) }));
    assert!(matches!(effects[1], Effect::DestroySeat { .. }));
}

#[test]
fn closed_windows_are_dropped_and_their_slide_relaid() {
    let mut wm = WindowManager::new();
    wm.add_seat(1, None);
    wm.add_window(1, "a".to_string());
    wm.add_window(2, "b".to_string());
    let mut effects = Vec::new();
    assert!(wm.init_new_windows(false, &mut effects).is_ok());
    assert_eq!(wm.desktop.workspaces[0].slides[0].windows, vec![1, 2]);
    wm.seats[0].op = SeatOp::Move { window_id: 2, start_x: 0, start_y: 0 };
    wm.window_closed(2);
    let mut effects = Vec::new();
    assert!(wm.remove_windows(0, &mut effects).is_ok());
    assert_eq!(wm.windows.len(), 1);
    assert_eq!(wm.windows[0].id, 1);
    assert_eq!(wm.desktop.workspaces[0].slides[0].windows, vec![1]);
    assert_eq!(wm.seats[0].op, SeatOp::Idle);
    assert_eq!(find_id(&wm.desktop.workspaces[0].slides[0].windows, 1), Some(0));
    assert!(effects.iter().any(|e| matches!(e, Effect::OpEnd { seat: 1 })));
    let w = Window::new(3, "x".to_string());
    assert!(w.location.is_none());
}

#[test]
fn closing_the_last_window_of_a_slide_empties_it() {
    let mut wm = WindowManager::new();
    wm.add_window(1, "a".to_string());
    let mut effects = Vec::new();
    assert!(wm.init_new_windows(false, &mut effects).is_ok());
    wm.window_closed(1);
    let mut effects = Vec::new();
    assert!(wm.remove_windows(0, &mut effects).is_ok());
    assert!(wm.windows.is_empty());
    assert!(wm.desktop.workspaces[0].slides[0].windows.is_empty());
    assert_eq!(wm.desktop.workspaces[0].slides.len(), 1);
    assert!(wm.queue.is_empty());
}
