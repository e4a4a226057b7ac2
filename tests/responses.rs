use idserver::prelude::Response;
use idserver::server::Connection;

fn round_trip(status: u16, body: &str) {
    let r = Response { status, body: Box::new(body.to_string()) };
    let text = r.to_json();
    let back = Response::from_json(&text).expect("decodes");
    assert_eq!(back.status, status);
    assert_eq!(*back.body, body);
}

#[test]
fn response_round_trips() {
    round_trip(200, "{\"user_id\":\"user_1\"}");
    round_trip(0, "");
    round_trip(65535, "tab\tquote\"backslash\\ and é");
    round_trip(204, "{}");
    round_trip(7, "\u{1}\u{1f}");
}

#[test]
fn wire_bytes_without_terminator_round_trip() {
    let mut conn = Connection::new();
    let wire = conn.write_frame(Response { status: 204, body: Box::new("{}".to_string()) });
    assert!(wire.ends_with("\r\n"));
    let text = &wire[..wire.len() - 2];
    let back = Response::from_json(text).expect("decodes");
    assert_eq!((back.status, back.body.as_str()), (204, "{}"));
}

#[test]
fn response_json_text() {
    let r = Response { status: 200, body: Box::new("x".to_string()) };
    assert_eq!(r.to_json(), "{\"status\":200,\"body\":\"x\"}");
    let z = Response { status: 0, body: Box::new(String::new()) };
    assert_eq!(z.to_json(), "{\"status\":0,\"body\":\"\"}");
}

#[test]
fn split_json_parts() {
    assert_eq!(Response::split_json("{\"status\":404,\"body\":\"a\\\"b\"}"), Some((404, "\"a\\\"b\"".to_string())));
    assert_eq!(Response::split_json("{\"status\":65535,\"body\":\"\"}"), Some((65535, "\"\"".to_string())));
}

#[test]
fn split_json_rejects() {
    assert_eq!(Response::split_json(""), None);
    assert_eq!(Response::split_json("{\"status\":65536,\"body\":\"\"}"), None);
    assert_eq!(Response::split_json("{\"status\":0200,\"body\":\"\"}"), None);
    assert_eq!(Response::split_json("{\"status\":,\"body\":\"\"}"), None);
    assert_eq!(Response::split_json("{\"status\":200,\"body\":\"\""), None);
    assert_eq!(Response::split_json("{\"status\": 200,\"body\":\"\"}"), None);
    assert_eq!(Response::split_json("{\"body\":\"\",\"status\":200}"), None);
}

#[test]
fn from_json_rejects_bad_body() {
    assert!(Response::from_json("{\"status\":200,\"body\":x}").is_none());
    assert!(Response::from_json("{\"status\":200,\"body\":12}").is_none());
    assert!(Response::from_json("{\"status\":200,\"body\":\"unterminated}").is_none());
}
