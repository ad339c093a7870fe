use std::collections::VecDeque;

use atriumd::client::{
    auth_message, call_service_message, classify_reply, hold_unrelated, lovelace_message, ping_message,
    read_auth_reply, read_greeting, states_of, subscribe_message, typed_message, version_of, with_id, Error,
    Greeting, Reply, MAX_PENDING,
};
use atriumd::json::{Json, JsonMap, Number};

fn obj(members: Vec<(&str, Json)>) -> Json {
    Json::Object(JsonMap { entries: members.into_iter().map(|(k, v)| (k.to_string(), v)).collect() })
}

fn text(v: &str) -> Json {
    Json::Str(v.to_string())
}

fn uint(v: u64) -> Json {
    Json::Number(Number::PosInt(v))
}

#[test]
fn only_a_rejected_token_stops_the_retries() {
    assert!(!Error::Auth("bad".into()).is_retryable());
    assert!(Error::Closed.is_retryable());
    assert!(Error::Timeout("connecting").is_retryable());
    assert!(Error::Connect("refused".into()).is_retryable());
    assert!(Error::Protocol("odd".into()).is_retryable());
    assert!(Error::Server { code: "x".into(), message: "y".into() }.is_retryable());
}

#[test]
fn client_errors_read_as_sentences() {
    assert_eq!(Error::Closed.message(), "the connection closed");
    assert_eq!(Error::Timeout("connecting").message(), "Home Assistant did not answer in time (connecting)");
    assert_eq!(
        Error::Server { code: "not_found".into(), message: "no such entity".into() }.message(),
        "Home Assistant refused the request (not_found): no such entity"
    );
    assert_eq!(Error::Auth("invalid token".into()).message(), "Home Assistant rejected the access token: invalid token");
}

#[test]
fn the_greeting_asks_for_a_token_or_accepts_outright() {
    assert_eq!(read_greeting(&obj(vec![("type", text("auth_required"))])), Ok(Greeting::AuthRequired));
    assert_eq!(
        read_greeting(&obj(vec![("type", text("auth_ok")), ("ha_version", text("2026.8.3"))])),
        Ok(Greeting::Authenticated("2026.8.3".to_string()))
    );
    assert_eq!(
        read_greeting(&obj(vec![("type", text("result"))])),
        Err(Error::Protocol("expected auth_required, got result".to_string()))
    );
    assert_eq!(read_greeting(&obj(vec![])), Err(Error::Protocol("expected auth_required, got no type".to_string())));
}

#[test]
fn the_answer_to_the_token_is_read() {
    assert_eq!(
        read_auth_reply(&obj(vec![("type", text("auth_ok")), ("ha_version", text("2026.1"))])),
        Ok("2026.1".to_string())
    );
    assert_eq!(read_auth_reply(&obj(vec![("type", text("auth_ok"))])), Ok(String::new()));
    assert_eq!(
        read_auth_reply(&obj(vec![("type", text("auth_invalid")), ("message", text("Invalid access"))])),
        Err(Error::Auth("Invalid access".to_string()))
    );
    assert_eq!(
        read_auth_reply(&obj(vec![("type", text("auth_invalid"))])),
        Err(Error::Auth("invalid token".to_string()))
    );
    assert_eq!(
        read_auth_reply(&Json::Null),
        Err(Error::Protocol("expected auth_ok, got no type".to_string()))
    );
    assert_eq!(version_of(&obj(vec![("ha_version", uint(3))])), "");
}

#[test]
fn replies_are_matched_by_id_and_type() {
    let ok = obj(vec![("id", uint(4)), ("type", text("result")), ("success", Json::Bool(true)), ("result", uint(9))]);
    assert_eq!(classify_reply(&ok, 4), Reply::Success(uint(9)));
    assert_eq!(classify_reply(&ok, 5), Reply::Unrelated);
    let event = obj(vec![("id", uint(4)), ("type", text("event"))]);
    assert_eq!(classify_reply(&event, 4), Reply::Unrelated);
    let bare = obj(vec![("id", uint(4)), ("type", text("result")), ("success", Json::Bool(true))]);
    assert_eq!(classify_reply(&bare, 4), Reply::Success(Json::Null));
    let refused = obj(vec![
        ("id", uint(4)),
        ("type", text("result")),
        ("success", Json::Bool(false)),
        ("error", obj(vec![("code", text("not_found")), ("message", text("no such service"))])),
    ]);
    assert_eq!(
        classify_reply(&refused, 4),
        Reply::Failure(Error::Server { code: "not_found".into(), message: "no such service".into() })
    );
    let vague = obj(vec![("id", uint(4)), ("type", text("result"))]);
    assert_eq!(
        classify_reply(&vague, 4),
        Reply::Failure(Error::Server { code: "unknown".into(), message: "no message".into() })
    );
}

#[test]
fn unsolicited_messages_are_held_only_up_to_the_limit() {
    let mut pending: VecDeque<Json> = VecDeque::new();
    assert_eq!(hold_unrelated(&mut pending, uint(1)), Ok(()));
    assert_eq!(pending.len(), 1);
    for i in 1..MAX_PENDING {
        assert_eq!(hold_unrelated(&mut pending, uint(i as u64)), Ok(()));
    }
    assert_eq!(pending.len(), MAX_PENDING);
    assert_eq!(
        hold_unrelated(&mut pending, uint(0)),
        Err(Error::Protocol("Home Assistant sent more unsolicited data than we can hold".to_string()))
    );
    assert_eq!(pending.len(), MAX_PENDING);
}

#[test]
fn a_service_call_names_its_entity_only_as_the_target() {
    let data = obj(vec![("entity_id", text("lock.back")), ("brightness", uint(3))]);
    let message = call_service_message("light", "turn_on", "light.desk", &data);
    assert_eq!(
        message,
        obj(vec![
            ("type", text("call_service")),
            ("domain", text("light")),
            ("service", text("turn_on")),
            ("service_data", obj(vec![("brightness", uint(3))])),
            ("target", obj(vec![("entity_id", text("light.desk"))])),
        ])
    );
    let odd = call_service_message("light", "toggle", "light.desk", &text("not an object"));
    assert_eq!(odd.get("service_data"), Some(&obj(vec![])));
}

#[test]
fn a_request_carries_its_id() {
    let command = obj(vec![("type", text("get_states")), ("id", uint(1))]);
    assert_eq!(with_id(&command, 7), obj(vec![("type", text("get_states")), ("id", uint(7))]));
    assert_eq!(with_id(&Json::Null, 2), obj(vec![("id", uint(2))]));
    assert_eq!(ping_message(3), obj(vec![("id", uint(3)), ("type", text("ping"))]));
}

#[test]
fn the_fixed_messages() {
    assert_eq!(auth_message("abc"), obj(vec![("type", text("auth")), ("access_token", text("abc"))]));
    assert_eq!(typed_message("get_states"), obj(vec![("type", text("get_states"))]));
    assert_eq!(
        subscribe_message("state_changed"),
        obj(vec![("type", text("subscribe_events")), ("event_type", text("state_changed"))])
    );
    assert_eq!(lovelace_message(), obj(vec![("type", text("lovelace/config")), ("url_path", Json::Null)]));
    assert_eq!(states_of(Json::Array(vec![uint(1)])), vec![uint(1)]);
    assert!(states_of(Json::Null).is_empty());
}
