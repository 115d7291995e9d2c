use planarwm::geometry::{Dimension, Position};
use planarwm::slide::{Slide, SlideType};
use planarwm::task::Task;

fn geometry_of(t: &Task) -> (u32, Position, Dimension, u64) {
    match t {
        Task::SetWindowGeometry { window_id, pos, dim, timer } => (*window_id, *pos, *dim, *timer),
        _ => panic!("not a geometry task"),
    }
}

#[test]
fn new_slide_is_empty_vertical_scroll() {
    let s = Slide::new(3, (800, 600));
    assert_eq!(s.id, 3);
    assert_eq!(s.slide_type, SlideType::VerticalScroll);
    assert_eq!(s.position, (0, 0));
    assert_eq!(s.dimensions, (800, 600));
    assert!(s.windows.is_empty());
    assert_eq!(s.active_window, 0);
    assert!(s.rearrange_required);
}

#[test]
fn attach_focuses_last_and_ignores_duplicates() {
    let mut s = Slide::new(0, (800, 600));
    s.attach_window(7);
    s.attach_window(9);
    assert_eq!(s.windows, vec![7, 9]);
    assert_eq!(s.active_window, 1);
    s.rearrange_required = false;
    s.attach_window(7);
    assert_eq!(s.windows, vec![7, 9]);
    assert_eq!(s.active_window, 1);
    assert!(!s.rearrange_required);
    assert!(s.contains_window(9));
    assert!(!s.contains_window(8));
}

#[test]
fn window_cycling_stops_at_the_ends() {
    let mut s = Slide::new(0, (800, 600));
    s.attach_window(1);
    s.attach_window(2);
    s.attach_window(3);
    s.next_window();
    assert_eq!(s.active_window, 2);
    s.prev_window();
    s.prev_window();
    assert_eq!(s.active_window, 0);
    s.prev_window();
    assert_eq!(s.active_window, 0);
}

#[test]
fn tiling_cycles_through_three_modes() {
    let mut s = Slide::new(0, (800, 600));
    s.cycle_tiling();
    assert_eq!(s.slide_type, SlideType::Master);
    s.cycle_tiling();
    assert_eq!(s.slide_type, SlideType::Floating);
    s.cycle_tiling();
    assert_eq!(s.slide_type, SlideType::VerticalScroll);
}

#[test]
fn vertical_scroll_layout() {
    let mut s = Slide::new(0, (800, 600));
    s.position = (0, 100);
    s.attach_window(1);
    s.attach_window(2);
    s.attach_window(3);
    s.active_window = 1;
    let mut queue = Vec::new();
    s.rearrange(42, &mut queue);
    assert_eq!(queue.len(), 3);
    let dim = Dimension { width: 760, height: 560 };
    assert_eq!(geometry_of(&queue[0]), (1, Position { x: 20 - 770, y: 120 }, dim, 42));
    assert_eq!(geometry_of(&queue[1]), (2, Position { x: 20, y: 120 }, dim, 42));
    assert_eq!(geometry_of(&queue[2]), (3, Position { x: 20 + 770, y: 120 }, dim, 42));
}

#[test]
fn master_layout() {
    let mut s = Slide::new(0, (800, 600));
    s.slide_type = SlideType::Master;
    s.attach_window(1);
    s.attach_window(2);
    s.attach_window(3);
    let mut queue = Vec::new();
    s.rearrange(5, &mut queue);
    assert_eq!(queue.len(), 3);
    assert_eq!(geometry_of(&queue[0]), (1, Position { x: 0, y: 0 }, Dimension { width: 400, height: 600 }, 5));
    assert_eq!(geometry_of(&queue[1]), (2, Position { x: 400, y: 0 }, Dimension { width: 400, height: 300 }, 5));
    assert_eq!(geometry_of(&queue[2]), (3, Position { x: 400, y: 300 }, Dimension { width: 400, height: 300 }, 5));
}

#[test]
fn master_layout_single_window_takes_everything() {
    let mut s = Slide::new(0, (640, 480));
    s.slide_type = SlideType::Master;
    s.attach_window(4);
    let mut queue = Vec::new();
    s.rearrange(0, &mut queue);
    assert_eq!(geometry_of(&queue[0]), (4, Position { x: 0, y: 0 }, Dimension { width: 640, height: 480 }, 0));
}

#[test]
fn floating_layout_queues_nothing_and_clamps_active() {
    let mut s = Slide::new(0, (640, 480));
    s.slide_type = SlideType::Floating;
    s.attach_window(4);
    s.active_window = 5;
    let mut queue = Vec::new();
    s.rearrange(0, &mut queue);
    assert!(queue.is_empty());
    assert_eq!(s.active_window, 0);
}

#[test]
fn empty_slide_lays_out_nothing() {
    for t in [SlideType::VerticalScroll, SlideType::Master, SlideType::Floating] {
        let mut s = Slide::new(0, (800, 600));
        s.slide_type = t;
        let mut queue = vec![Task::SetCameraOffset { pos: Position { x: 1, y: 1 } }];
        s.rearrange(0, &mut queue);
        assert_eq!(queue.len(), 1);
        assert_eq!(s.active_window, usize::MAX);
    }
}
