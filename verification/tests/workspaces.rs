use planarwm::window::{place, Window};
use planarwm::workspace::Workspace;

fn with_windows(ids: &[u32]) -> Workspace {
    let mut w = Workspace::new("main");
    w.dimensions = (800, 600);
    for id in ids {
        w.active_slide_mut().attach_window(*id);
    }
    w
}

fn all_windows(w: &Workspace) -> Vec<u32> {
    let mut v: Vec<u32> = w.slides.iter().flat_map(|s| s.windows.clone()).collect();
    v.sort();
    v
}

#[test]
fn new_workspace_has_one_slide() {
    let w = Workspace::new("main");
    assert_eq!(w.id, "main");
    assert_eq!(w.slides.len(), 1);
    assert_eq!(w.slides[0].id, 0);
    assert_eq!(w.active_slide, 0);
    assert_eq!(w.new_slide_id, 1);
    assert!(w.rearrange_required);
    assert!(w.child_rearrange_required);
    assert!(!w.focus_active_requested);
}

#[test]
fn next_slide_from_last_nonempty_appends_a_slide() {
    let mut w = with_windows(&[1]);
    w.next_slide();
    assert_eq!(w.slides.len(), 2);
    assert_eq!(w.active_slide, 1);
    assert_eq!(w.slides[1].id, 1);
    assert_eq!(w.slides[1].dimensions, (800, 600));
    assert_eq!(w.new_slide_id, 2);
    assert_eq!(w.slides[0].position, (0, 0));
    assert_eq!(w.slides[1].position, (0, 600));
}

#[test]
fn next_slide_from_last_empty_does_nothing() {
    let mut w = Workspace::new("main");
    w.next_slide();
    assert_eq!(w.slides.len(), 1);
    assert_eq!(w.active_slide, 0);
    assert_eq!(w.new_slide_id, 1);
}

#[test]
fn prev_slide_from_first_nonempty_inserts_in_front() {
    let mut w = with_windows(&[1]);
    w.prev_slide();
    assert_eq!(w.slides.len(), 2);
    assert_eq!(w.active_slide, 0);
    assert_eq!(w.slides[0].id, 1);
    assert!(w.slides[0].windows.is_empty());
    assert_eq!(w.slides[1].windows, vec![1]);
    assert_eq!(w.slides[1].position, (0, 600));
}

#[test]
fn prev_slide_drops_an_empty_slide() {
    let mut w = with_windows(&[1]);
    w.next_slide();
    w.prev_slide();
    assert_eq!(w.slides.len(), 1);
    assert_eq!(w.active_slide, 0);
    assert_eq!(w.slides[0].windows, vec![1]);
    assert_eq!(w.slides[0].id, 0);
    assert_eq!(w.slides[0].position, (0, 0));
    assert_eq!(w.new_slide_id, 2);
}

#[test]
fn slide_changes_keep_the_windows() {
    let mut w = with_windows(&[4, 5]);
    w.next_slide();
    w.prev_slide();
    w.prev_slide();
    w.next_slide();
    assert_eq!(all_windows(&w), vec![4, 5]);
}

#[test]
fn rearrange_stacks_slides_downwards() {
    let mut w = with_windows(&[1]);
    w.coord = (10, 20);
    w.next_slide();
    w.rearrange();
    assert_eq!(w.slides[0].position, (10, 20));
    assert_eq!(w.slides[1].position, (10, 620));
}

#[test]
fn moveto_next_slide_moves_the_active_window() {
    let mut w = with_windows(&[1, 2]);
    let mut windows = vec![Window::new(1, "a".to_string()), Window::new(2, "b".to_string())];
    let id = w.id.clone();
    place(&mut windows, 1, &id, 0);
    place(&mut windows, 2, &id, 0);
    w.moveto_next_slide(&mut windows);
    assert_eq!(all_windows(&w), vec![1, 2]);
    assert_eq!(w.active_slide, 1);
    assert_eq!(w.slides[0].windows, vec![1]);
    assert_eq!(w.slides[1].windows, vec![2]);
    assert_eq!(windows[1].location.as_ref().unwrap().slide_id, 1);
    assert_eq!(windows[0].location.as_ref().unwrap().slide_id, 0);
}

#[test]
fn moveto_prev_slide_moves_the_active_window() {
    let mut w = with_windows(&[1, 2]);
    let mut windows = vec![Window::new(1, "a".to_string()), Window::new(2, "b".to_string())];
    let id = w.id.clone();
    place(&mut windows, 1, &id, 0);
    place(&mut windows, 2, &id, 0);
    w.moveto_prev_slide(&mut windows);
    assert_eq!(all_windows(&w), vec![1, 2]);
    assert_eq!(w.active_slide, 0);
    assert_eq!(w.slides[0].windows, vec![2]);
    assert_eq!(w.slides[1].windows, vec![1]);
    assert_eq!(windows[1].location.as_ref().unwrap().slide_id, w.slides[0].id);
}

#[test]
fn find_slide_by_id() {
    let mut w = with_windows(&[1]);
    w.next_slide();
    assert_eq!(w.find_slide(1), Some(1));
    assert_eq!(w.find_slide(0), Some(0));
    assert_eq!(w.find_slide(9), None);
}
