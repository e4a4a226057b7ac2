use idserver::dao::{add_user_images, delete_user, verify_user};
use idserver::entities::{AddResultModel, DeleteResultModel, VerificationResultModel};
use idserver::prelude::{Command, Reply, ReplyItem, Request, Responder, Response};
use idserver::server::{command_from_name, decode_request_bytes, find_member, process_request, request_from_members};

fn request(method: Command) -> Request {
    Request { authorization: "token".to_string(), body: "payload".to_string(), method }
}

fn parts(reply: Reply) -> (u16, String) {
    let r: Response = Response::from(reply.0);
    (r.status, *r.body)
}

#[test]
fn dispatch_status_table() {
    let add = process_request(&request(Command::ADD));
    assert_eq!((add.status, add.body.as_str()), (200, "{}"));
    let del = process_request(&request(Command::DELETE));
    assert_eq!((del.status, del.body.as_str()), (204, "{}"));
    let ver = process_request(&request(Command::VERIFY));
    assert_eq!((ver.status, ver.body.as_str()), (200, "{\"user_id\":\"user_1\"}"));
}

#[test]
fn domain_results_transform() {
    assert_eq!(parts(AddResultModel {}.transform()), (200, "{}".to_string()));
    assert_eq!(parts(DeleteResultModel {}.transform()), (204, "{}".to_string()));
    let none = VerificationResultModel { user_id: None };
    assert_eq!(parts(none.transform()), (200, "{\"user_id\":null}".to_string()));
    let quoted = VerificationResultModel { user_id: Some("a\"b".to_string()) };
    assert_eq!(parts(quoted.transform()), (200, "{\"user_id\":\"a\\\"b\"}".to_string()));
}

#[test]
fn reply_stages_pass_the_response_through() {
    let r = Response { status: 418, body: Box::new("tea".to_string()) };
    let reply = r.transform().transform();
    assert_eq!(parts(reply), (418, "tea".to_string()));
    let item = ReplyItem::Item(Response { status: 1, body: Box::new(String::new()) });
    assert_eq!(Response::from(item).status, 1);
    let wrapped = Reply::from(Response { status: 2, body: Box::new(String::new()) });
    assert_eq!(parts(wrapped).0, 2);
}

#[test]
fn handlers_ignore_their_input() {
    let body = "anything".to_string();
    let _ = add_user_images(&body);
    let _ = delete_user(&body);
    assert_eq!(verify_user(&body).user_id, Some("user_1".to_string()));
}

#[test]
fn decode_request_members() {
    let r = decode_request_bytes(br#"{"method":"DELETE","body":"","authorization":"k"}"#).expect("decodes");
    assert_eq!(r.method, Command::DELETE);
    assert_eq!(r.authorization, "k");
    assert_eq!(r.body, "");
    let spaced = decode_request_bytes(b" { \"authorization\" : \"a\\n\" , \"body\" : \"b\" , \"method\" : \"ADD\" } ").expect("decodes");
    assert_eq!(spaced.authorization, "a\n");
    assert_eq!(spaced.method, Command::ADD);
}

#[test]
fn decode_request_ignores_other_members() {
    let r = decode_request_bytes(br#"{"authorization":"x","body":"b","method":"ADD","ts":1,"tags":[null]}"#).expect("decodes");
    assert_eq!(r.method, Command::ADD);
    assert_eq!(r.body, "b");
}

#[test]
fn decode_request_rejects() {
    assert!(decode_request_bytes(br#"{"authorization":1,"body":"b","method":"ADD"}"#).is_none());
    assert!(decode_request_bytes(br#"{"authorization":"x","body":null,"method":"ADD"}"#).is_none());
    assert!(decode_request_bytes(b"").is_none());
    assert!(decode_request_bytes(b"[1,2]").is_none());
    assert!(decode_request_bytes(br#"{"authorization":"x","body":"b"}"#).is_none());
    assert!(decode_request_bytes(br#"{"authorization":"x","body":"b","method":"GET"}"#).is_none());
    assert!(decode_request_bytes(br#"{"authorization":"x","body":"b","method":"add"}"#).is_none());
    assert!(decode_request_bytes(br#"{"authorization":"x","body":"b","method":"ADD""#).is_none());
}

#[test]
fn members_and_method_names() {
    let members = vec![
        ("body".to_string(), Some("1".to_string())),
        ("method".to_string(), Some("VERIFY".to_string())),
        ("body".to_string(), Some("2".to_string())),
        ("n".to_string(), None),
    ];
    assert_eq!(find_member(&members, &"body".to_string()), Some(Some("1".to_string())));
    assert_eq!(find_member(&members, &"n".to_string()), Some(None));
    assert_eq!(find_member(&members, &"authorization".to_string()), None);
    assert!(request_from_members(&members).is_none());
    let mut full = members.clone();
    full.push(("authorization".to_string(), Some("k".to_string())));
    let r = request_from_members(&full).expect("a request");
    assert_eq!((r.authorization.as_str(), r.body.as_str(), r.method), ("k", "1", Command::VERIFY));
    let mut bad = full.clone();
    bad.insert(0, ("authorization".to_string(), None));
    assert!(request_from_members(&bad).is_none());
    assert_eq!(command_from_name(&"ADD".to_string()), Some(Command::ADD));
    assert_eq!(command_from_name(&"DELETE".to_string()), Some(Command::DELETE));
    assert_eq!(command_from_name(&"VERIFY".to_string()), Some(Command::VERIFY));
    assert_eq!(command_from_name(&"".to_string()), None);
}
