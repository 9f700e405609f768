//! The browser terminal server.

use ferrous::wterm::{
    bridge_action, control_resize, plain_body, response_head, route_of, route_of_head, BridgeAction, HeadError,
    Replay, RequestHead, Route, SocketEvent, TerminalSize, MAX_REQUEST_HEAD,
};

fn size(cols: u16, rows: u16) -> TerminalSize {
    TerminalSize { rows, cols }
}

#[test]
fn route_of_maps_known_paths() {
    assert_eq!(route_of("GET / HTTP/1.1"), Route::Index);
    assert_eq!(route_of("GET /index.html HTTP/1.1"), Route::Index);
    assert_eq!(route_of("GET /wterm.wasm HTTP/1.1"), Route::Wasm);
    assert_eq!(route_of("GET /wterm.css HTTP/1.1"), Route::Css);
    assert_eq!(route_of("GET /ws HTTP/1.1"), Route::Terminal);
    assert_eq!(route_of("GET /favicon.ico HTTP/1.1"), Route::NotFound);
    assert_eq!(route_of("bogus"), Route::NotFound);
}

#[test]
fn request_heads_are_read_as_text() {
    assert_eq!(
        route_of_head(&b"GET /ws HTTP/1.1\r\nHost: x\r\n\r\n".to_vec()),
        Route::Terminal
    );
    // Bytes that are not UTF-8 do not hide the path.
    assert_eq!(
        route_of_head(&b"GET / HTTP/1.1\r\nX: \xff\xfe\r\n\r\n".to_vec()),
        Route::Index
    );
    assert_eq!(route_of_head(&b"GET /w\xff HTTP/1.1".to_vec()), Route::NotFound);
    assert_eq!(route_of_head(&Vec::new()), Route::NotFound);
}

#[test]
fn route_of_accepts_full_requests() {
    assert_eq!(
        route_of("GET /ws HTTP/1.1\r\nHost: x\r\n\r\n"),
        Route::Terminal
    );
    assert_eq!(route_of("GET / HTTP/1.1\r\n\r\n"), Route::Index);
}

#[test]
fn route_of_looks_at_the_first_line_only() {
    assert_eq!(route_of(""), Route::NotFound);
    assert_eq!(route_of("GET\r\n /ws"), Route::NotFound);
    assert_eq!(route_of("GET\t/ws\r\n"), Route::Terminal);
}

#[test]
fn read_request_captures_the_full_head() {
    let stream = b"GET /wterm.wasm HTTP/1.1\r\nHost: x\r\n\r\nbody";
    let mut head = RequestHead::new();
    let mut rest = stream.iter().copied();
    while !head.complete() {
        head.accept(rest.next()).expect("reads");
    }
    assert_eq!(
        head.into_bytes(),
        b"GET /wterm.wasm HTTP/1.1\r\nHost: x\r\n\r\n"
    );
    // The body after the head stays unread.
    let body: Vec<u8> = rest.collect();
    assert_eq!(body, b"body");
}

#[test]
fn a_head_may_stutter_before_its_blank_line() {
    let stream = b"a\r\n\r\r\r\n\n\r\n\r\n";
    let mut head = RequestHead::new();
    for byte in stream {
        assert!(!head.complete());
        head.accept(Some(*byte)).expect("reads");
    }
    assert!(head.complete());
}

#[test]
fn a_head_ends_with_the_connection_or_at_its_limit() {
    let mut head = RequestHead::new();
    head.accept(Some(b'G')).expect("reads");
    assert_eq!(head.accept(None), Err(HeadError::Closed));
    for _ in 0..MAX_REQUEST_HEAD {
        head.accept(Some(b'x')).expect("reads");
    }
    assert_eq!(head.accept(Some(b'x')), Err(HeadError::TooLong));
    assert_eq!(
        HeadError::TooLong.message(),
        "request head exceeds the size limit"
    );
}

#[test]
fn replayed_bytes_come_first_and_in_order() {
    let mut replay = Replay::new(b"hello".to_vec());
    assert_eq!(replay.next(2), Some(b"he".to_vec()));
    assert_eq!(replay.next(0), Some(Vec::new()));
    assert_eq!(replay.next(10), Some(b"llo".to_vec()));
    assert_eq!(replay.next(10), None);
}

#[test]
fn control_resize_never_panics() {
    assert_eq!(
        control_resize("{\"resize\":[120,40]}"),
        Some(size(120, 40))
    );
    assert_eq!(control_resize("{\"resize\":[9999]}"), None);
    assert_eq!(control_resize("not json"), None);
    assert_eq!(control_resize(""), None);
}

#[test]
fn resizes_are_clamped_and_read_leniently() {
    assert_eq!(control_resize("[9999,1]"), Some(size(500, 2)));
    assert_eq!(control_resize("[ +80 , x, 24 ]"), Some(size(80, 24)));
    assert_eq!(control_resize("[1,2,3]"), None);
    assert_eq!(control_resize("[4294967296,4,5]"), Some(size(4, 5)));
    assert_eq!(control_resize("]1[2,3]"), Some(size(2, 3)));
    assert_eq!(control_resize("[-1,+,7,8]"), Some(size(7, 8)));
    assert_eq!(control_resize("[1,2"), None);
}

#[test]
fn answers_carry_their_status_and_length() {
    assert_eq!(
        response_head(Route::Index, 12),
        "HTTP/1.1 200 OK\r\nContent-Type: text/html; charset=utf-8\r\nContent-Length: 12\r\nConnection: close\r\nCache-Control: no-store\r\n\r\n"
    );
    assert!(response_head(Route::Wasm, 0).contains("application/wasm"));
    assert!(response_head(Route::Css, 0).contains("text/css; charset=utf-8"));
    assert!(response_head(Route::Terminal, 0).starts_with("HTTP/1.1 426 Upgrade Required\r\n"));
    assert!(response_head(Route::NotFound, 0).starts_with("HTTP/1.1 404 Not Found\r\n"));
    assert_eq!(plain_body(Route::NotFound), Some("not found"));
    assert_eq!(plain_body(Route::Terminal), Some("websocket upgrade required"));
    assert_eq!(plain_body(Route::Index), None);
}

#[test]
fn the_bridge_does_what_the_page_asks() {
    assert_eq!(
        bridge_action(SocketEvent::Binary(b"ls\n".to_vec())),
        BridgeAction::Write(b"ls\n".to_vec())
    );
    assert_eq!(
        bridge_action(SocketEvent::Text("[80,24]".to_owned())),
        BridgeAction::Resize(size(80, 24))
    );
    assert_eq!(
        bridge_action(SocketEvent::Text("hello".to_owned())),
        BridgeAction::Nothing
    );
    assert_eq!(
        bridge_action(SocketEvent::Ping(b"p".to_vec())),
        BridgeAction::Pong(b"p".to_vec())
    );
    assert_eq!(bridge_action(SocketEvent::Quiet), BridgeAction::Nothing);
    assert_eq!(bridge_action(SocketEvent::Closed), BridgeAction::Stop);
}
