use planarwm::geometry::Position;
use planarwm::ipc::{
    response_from_result, take_lines, IpcState, MainRequest, MainResponse, SocketRequest,
    SocketResponse,
};

#[test]
fn lines_are_split_and_the_tail_is_kept() {
    let mut buf = b"{\"a\":1}\n\n{\"b\":2}\n{\"c\"".to_vec();
    let lines = take_lines(&mut buf);
    assert_eq!(lines, vec![b"{\"a\":1}".to_vec(), b"{\"b\":2}".to_vec()]);
    assert_eq!(buf, b"{\"c\"".to_vec());
}

#[test]
fn no_newline_means_no_line() {
    let mut buf = b"partial".to_vec();
    let lines = take_lines(&mut buf);
    assert!(lines.is_empty());
    assert_eq!(buf, b"partial".to_vec());
    let mut empty: Vec<u8> = Vec::new();
    assert!(take_lines(&mut empty).is_empty());
    assert!(empty.is_empty());
}

#[test]
fn trailing_newline_leaves_nothing() {
    let mut buf = b"x\ny\n".to_vec();
    let lines = take_lines(&mut buf);
    assert_eq!(lines, vec![b"x".to_vec(), b"y".to_vec()]);
    assert!(buf.is_empty());
}

#[test]
fn socket_request_is_tagged_with_its_client() {
    match (SocketRequest::Watch { request_id: 3, app_id: "foot".to_string() }).into_main(9) {
        MainRequest::Watch { client_id, request_id, app_id } => {
            assert_eq!((client_id, request_id, app_id.as_str()), (9, 3, "foot"));
        }
        _ => panic!("wrong variant"),
    }
    assert!(matches!(
        (SocketRequest::Unwatch { request_id: 1, app_id: String::new() }).into_main(2),
        MainRequest::Unwatch { client_id: 2, request_id: 1, .. }
    ));
    assert!(matches!(
        (SocketRequest::Focus { request_id: 4, app_id: String::new() }).into_main(5),
        MainRequest::Focus { client_id: 5, request_id: 4, .. }
    ));
}

#[test]
fn main_response_is_routed_to_its_client() {
    let (c, r) = (MainResponse::Geometry {
        client_id: 7,
        window_id: "w".to_string(),
        center: Position { x: 1, y: 2 },
    })
    .into_socket();
    assert_eq!(c, 7);
    assert!(matches!(r, SocketResponse::Geometry { center: Position { x: 1, y: 2 }, .. }));
    let (c, r) = (MainResponse::Ack { client_id: 8, request_id: 11 }).into_socket();
    assert_eq!(c, 8);
    assert!(matches!(r, SocketResponse::Ack { request_id: 11 }));
    let (c, r) = (MainResponse::OkWatch { client_id: 1, window_id: "n".to_string(), request_id: 2 }).into_socket();
    assert_eq!(c, 1);
    assert!(matches!(r, SocketResponse::OkWatch { request_id: 2, .. }));
    let (c, r) = (MainResponse::Error { client_id: 3, request_id: 4, message: "bad".to_string() }).into_socket();
    assert_eq!(c, 3);
    match r {
        SocketResponse::Error { request_id, message } => assert_eq!((request_id, message.as_str()), (4, "bad")),
        _ => panic!("wrong variant"),
    }
}

#[test]
fn result_becomes_ack_or_error() {
    assert!(matches!(response_from_result(1, 2, Ok(())), MainResponse::Ack { client_id: 1, request_id: 2 }));
    match response_from_result(1, 2, Err("nope".to_string())) {
        MainResponse::Error { client_id, request_id, message } => {
            assert_eq!((client_id, request_id, message.as_str()), (1, 2, "nope"))
        }
        _ => panic!("wrong variant"),
    }
}

#[test]
fn watch_and_unwatch() {
    let mut s = IpcState::new();
    let a = "win-a".to_string();
    let b = "win-b".to_string();
    s.watch(&a, 1);
    s.watch(&a, 1);
    s.watch(&b, 1);
    s.watch(&a, 2);
    assert_eq!(s.watchers.len(), 3);
    assert!(s.is_watching(&a, 1) && s.is_watching(&b, 1) && s.is_watching(&a, 2));
    s.unwatch(&a, 1);
    assert!(!s.is_watching(&a, 1));
    assert!(s.is_watching(&b, 1) && s.is_watching(&a, 2));
}

#[test]
fn watch_then_unwatch_restores_the_table() {
    let mut s = IpcState::new();
    let a = "a".to_string();
    let b = "b".to_string();
    s.watch(&b, 3);
    s.watch(&a, 4);
    s.unwatch(&a, 4);
    assert_eq!(s.watchers, vec![("b".to_string(), 3)]);
}

#[test]
fn disconnect_forgets_the_client_only() {
    let mut s = IpcState::new();
    let a = "a".to_string();
    let b = "b".to_string();
    s.watch(&a, 1);
    s.watch(&b, 1);
    s.watch(&a, 2);
    s.remove_client_from_watchers(1);
    assert!(!s.is_watching(&a, 1) && !s.is_watching(&b, 1));
    assert!(s.is_watching(&a, 2));
}
