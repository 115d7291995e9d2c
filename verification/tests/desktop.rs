use planarwm::desktop::Desktop;
use planarwm::geometry::Position;
use planarwm::task::Task;
use planarwm::window::{Window, WindowLocation};

fn desktop_with(ids: &[u32]) -> (Desktop, Vec<Window>) {
    let mut d = Desktop::new();
    d.workspaces[0].dimensions = (800, 600);
    let mut windows = Vec::new();
    for id in ids {
        windows.push(Window::new(*id, format!("w{}", id)));
        assert!(d.attach_check());
        d.attach_window(*id, &mut windows);
    }
    (d, windows)
}

fn loc(slide_id: u16) -> WindowLocation {
    WindowLocation { workspace_id: "default".to_string(), slide_id }
}

#[test]
fn new_desktop_has_the_default_workspace() {
    let d = Desktop::new();
    assert_eq!(d.active_workspace, "default");
    assert_eq!(d.find_workspace(&"default".to_string()), Some(0));
    assert_eq!(d.find_workspace(&"other".to_string()), None);
    assert_eq!(d.active_index(), Some(0));
    assert_eq!(d.workspace_pos(&"default".to_string()), Some(0));
}

#[test]
fn attached_windows_are_located() {
    let (d, windows) = desktop_with(&[1, 2]);
    let s = &d.workspaces[0].slides[0];
    assert_eq!(s.windows, vec![1, 2]);
    assert_eq!(s.active_window, 1);
    for w in &windows {
        let l = w.location.as_ref().unwrap();
        assert_eq!((l.workspace_id.as_str(), l.slide_id), ("default", 0));
    }
}

#[test]
fn attach_without_a_slide_makes_one() {
    let mut d = Desktop::new();
    d.workspaces[0].slides.clear();
    let mut windows = vec![Window::new(3, "w3".to_string())];
    assert!(d.attach_check());
    d.attach_window(3, &mut windows);
    assert_eq!(d.workspaces[0].slides.len(), 1);
    assert_eq!(d.workspaces[0].slides[0].windows, vec![3]);
}

#[test]
fn attach_needs_an_active_workspace() {
    let mut d = Desktop::new();
    d.active_workspace = "gone".to_string();
    assert!(!d.attach_check());
}

#[test]
fn closing_focuses_the_neighbour() {
    let (mut d, _) = desktop_with(&[1, 2, 3]);
    let mut queue = Vec::new();
    let target = d.close_window(&loc(0), 3, 9, &mut queue);
    assert_eq!(target, Some(2));
    assert_eq!(d.workspaces[0].slides[0].windows, vec![1, 2]);
    assert_eq!(d.workspaces[0].slides[0].active_window, 1);
    assert_eq!(queue.len(), 2);
    assert!(queue.iter().all(|t| matches!(t, Task::SetWindowGeometry { timer: 9, .. })));
}

#[test]
fn closing_the_last_window_of_the_last_slide_steps_back() {
    let (mut d, mut windows) = desktop_with(&[1]);
    d.workspaces[0].next_slide();
    windows.push(Window::new(2, "w2".to_string()));
    d.attach_window(2, &mut windows);
    assert_eq!(d.workspaces[0].active_slide, 1);
    let mut queue = Vec::new();
    let target = d.close_window(&loc(1), 2, 4, &mut queue);
    assert_eq!(target, Some(1));
    assert_eq!(d.workspaces[0].slides.len(), 1);
    assert_eq!(d.workspaces[0].active_slide, 0);
    assert_eq!(queue, vec![Task::SetCamera { pos: Position { x: 0, y: 0 }, timer: 4 }]);
}

#[test]
fn closing_an_unknown_window_changes_nothing() {
    let (mut d, _) = desktop_with(&[1]);
    let mut queue = Vec::new();
    assert_eq!(d.close_window(&loc(0), 9, 0, &mut queue), None);
    assert_eq!(d.workspaces[0].slides[0].windows, vec![1]);
    assert!(queue.is_empty());
}

#[test]
fn focusing_moves_to_the_slide() {
    let (mut d, mut windows) = desktop_with(&[1]);
    d.workspaces[0].next_slide();
    windows.push(Window::new(2, "w2".to_string()));
    d.attach_window(2, &mut windows);
    let mut queue = Vec::new();
    assert!(d.focus_at(&loc(0), 1, 3, &mut queue));
    assert_eq!(d.workspaces[0].active_slide, 0);
    assert_eq!(queue[0], Task::SetCamera { pos: Position { x: 0, y: 0 }, timer: 3 });
    assert_eq!(queue.len(), 2);
    let bad = WindowLocation { workspace_id: "nowhere".to_string(), slide_id: 0 };
    assert!(!d.focus_at(&bad, 1, 3, &mut queue));
}

#[test]
fn relayout_queues_the_slide() {
    let (mut d, _) = desktop_with(&[1, 2]);
    let mut queue = Vec::new();
    d.relayout_at(&loc(0), 1, &mut queue);
    assert_eq!(queue.len(), 2);
}
