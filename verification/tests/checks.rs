use planarwm::checks::{layout_fits_check, stack_fits_check};
use planarwm::geometry::Position;
use planarwm::guards::{centering_check, located_check, op_fits_check};
use planarwm::seat::{Seat, SeatOp};
use planarwm::slide::SlideType;
use planarwm::window::{place, Output, Window};
use planarwm::workspace::Workspace;

#[test]
fn stacking_limits() {
    assert!(stack_fits_check((0, 0), (800, 600), 3));
    assert!(stack_fits_check((0, 0), (800, i32::MAX), 2));
    assert!(!stack_fits_check((0, 0), (800, i32::MAX), 3));
    assert!(!stack_fits_check((0, 1), (800, i32::MAX), 2));
    assert!(stack_fits_check((0, 0), (0, 0), 0));
}

#[test]
fn layout_limits() {
    assert!(layout_fits_check(SlideType::VerticalScroll, (0, 0), (800, 600), 3, 0));
    assert!(!layout_fits_check(SlideType::VerticalScroll, (0, 0), (i32::MIN, 600), 1, 0));
    assert!(!layout_fits_check(SlideType::VerticalScroll, (0, 0), (i32::MAX, 600), 3, 0));
    assert!(layout_fits_check(SlideType::Master, (0, 0), (800, 600), 3, 0));
    assert!(!layout_fits_check(SlideType::Master, (i32::MAX, 0), (800, 600), 3, 0));
    assert!(layout_fits_check(SlideType::Floating, (i32::MAX, 0), (i32::MIN, 600), 3, 7));
}

#[test]
fn slide_change_guards() {
    let mut w = Workspace::new("w");
    assert!(w.next_slide_check() && w.prev_slide_check());
    w.active_slide = 3;
    assert!(!w.next_slide_check());
    let mut w = Workspace::new("w");
    w.active_slide_mut().attach_window(1);
    w.new_slide_id = u16::MAX;
    assert!(!w.next_slide_check());
    assert!(!w.prev_slide_check());
    let mut w = Workspace::new("w");
    assert!(!w.moveto_next_check());
    w.active_slide_mut().attach_window(1);
    w.active_slide_mut().attach_window(2);
    assert!(w.moveto_next_check() && w.moveto_prev_check());
}

#[test]
fn centering_guard() {
    let screen = || {
        let mut o = Output::new(2);
        o.position = Some((0, 0));
        o.dimensions = Some((1920, 1080));
        o
    };
    let mut w = Window::new(1, "a".to_string());
    assert!(centering_check(&w, &vec![screen()]));
    w.x = i32::MAX;
    w.width = 100;
    assert!(!centering_check(&w, &vec![screen()]));
}

#[test]
fn location_guard() {
    let mut ws = vec![Window::new(1, "a".to_string()), Window::new(2, "b".to_string())];
    assert!(!located_check(&ws, 1));
    assert!(located_check(&ws, 3));
    place(&mut ws, 1, &"x".to_string(), 0);
    assert!(located_check(&ws, 1));
    assert!(!located_check(&ws, 2));
}

#[test]
fn resize_guard() {
    let mut s = Seat::new(1);
    assert!(op_fits_check(&s));
    s.op = SeatOp::Resize { window_id: 1, start_x: 0, start_y: 0, start_width: 100, start_height: 100, edges: 4 };
    s.op_diff = Position { x: 50, y: 0 };
    assert!(op_fits_check(&s));
    s.op = SeatOp::Resize { window_id: 1, start_x: 0, start_y: 0, start_width: i32::MIN, start_height: 100, edges: 4 };
    assert!(!op_fits_check(&s));
}
