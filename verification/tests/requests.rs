use planarwm::effect::Effect;
use planarwm::geometry::Position;
use planarwm::ipc::{MainRequest, MainResponse};
use planarwm::manager::WindowManager;
use planarwm::requests::{contains, find_window_id};
use planarwm::task::Task;
use planarwm::window::Window;

#[test]
fn substring_search() {
    let s = "firefox".to_string();
    assert!(contains(&s, &"fox".to_string()));
    assert!(contains(&s, &String::new()));
    assert!(contains(&s, &"firefox".to_string()));
    assert!(!contains(&s, &"foxy".to_string()));
    assert!(!contains(&"".to_string(), &"a".to_string()));
}

#[test]
fn window_lookup_by_title() {
    let mut a = Window::new(1, "a".to_string());
    a.app_id = "kitty".to_string();
    a.title = "Kitty Terminal".to_string();
    let mut b = Window::new(2, "b".to_string());
    b.app_id = "firefox".to_string();
    b.title = "Mozilla Firefox".to_string();
    let ws = vec![a, b];
    assert_eq!(find_window_id(&"firefox".to_string(), &ws), Some(1));
    assert_eq!(find_window_id(&"terminal".to_string(), &ws), Some(0));
    assert_eq!(find_window_id(&"mozilla firefox browser".to_string(), &ws), Some(1));
    assert_eq!(find_window_id(&"emacs".to_string(), &ws), None);
}

#[test]
fn watch_answers_with_geometry() {
    let mut wm = WindowManager::new();
    wm.add_window(5, "win-5".to_string());
    wm.windows[0].app_id = "foot".to_string();
    wm.windows[0].title = "shell".to_string();
    wm.windows[0].original_position = Position { x: 100, y: 50 };
    wm.windows[0].width = 200;
    wm.windows[0].height = 100;
    wm.camera_pos = Position { x: 10, y: 10 };
    let mut effects = Vec::new();
    let out = wm.handle_request(
        MainRequest::Watch { client_id: 1, request_id: 7, app_id: "FOOT".to_string() },
        &mut effects,
    );
    assert!(effects.is_empty());
    assert_eq!(out.len(), 2);
    match &out[0] {
        MainResponse::OkWatch { client_id, window_id, request_id } => {
            assert_eq!((*client_id, window_id.as_str(), *request_id), (1, "win-5", 7))
        }
        _ => panic!("expected OkWatch"),
    }
    match &out[1] {
        MainResponse::Geometry { client_id, window_id, center } => {
            assert_eq!((*client_id, window_id.as_str()), (1, "win-5"));
            assert_eq!(*center, Position { x: 190, y: 90 });
        }
        _ => panic!("expected Geometry"),
    }
    assert!(wm.ipc.is_watching(&"win-5".to_string(), 1));
}

#[test]
fn watch_of_an_unknown_window_is_an_error() {
    let mut wm = WindowManager::new();
    let mut effects = Vec::new();
    let out = wm.handle_request(
        MainRequest::Watch { client_id: 2, request_id: 3, app_id: "ghost".to_string() },
        &mut effects,
    );
    assert_eq!(out.len(), 1);
    match &out[0] {
        MainResponse::Error { client_id, request_id, message } => {
            assert_eq!((*client_id, *request_id), (2, 3));
            assert_eq!(message, "couldn't find requested window ghost");
        }
        _ => panic!("expected Error"),
    }
    assert!(wm.ipc.watchers.is_empty());
}

#[test]
fn unwatch_focus_and_disconnect() {
    let mut wm = WindowManager::new();
    let name = "n".to_string();
    wm.ipc.watch(&name, 4);
    let mut effects = Vec::new();
    let out = wm.handle_request(
        MainRequest::Unwatch { client_id: 4, request_id: 1, app_id: "n".to_string() },
        &mut effects,
    );
    assert!(matches!(out[..], [MainResponse::Ack { client_id: 4, request_id: 1 }]));
    assert!(!wm.ipc.is_watching(&name, 4));

    let out = wm.handle_request(
        MainRequest::Focus { client_id: 4, request_id: 2, app_id: "n".to_string() },
        &mut effects,
    );
    assert!(matches!(out[..], [MainResponse::Ack { client_id: 4, request_id: 2 }]));
    assert!(matches!(effects[..], [Effect::ManageDirty]));
    assert!(matches!(&wm.queue[..], [Task::FocusWindow { window_id }] if window_id == "n"));

    wm.ipc.watch(&name, 4);
    let out = wm.handle_request(MainRequest::Disconnected { client_id: 4 }, &mut effects);
    assert!(out.is_empty());
    assert!(wm.ipc.watchers.is_empty());
}
