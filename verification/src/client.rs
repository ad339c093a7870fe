use vstd::prelude::*;

use std::collections::VecDeque;

use crate::chars::{concat, str_eq};
use crate::json::{as_str_opt, clone_json, json_as_bool, json_as_u64, json_get, members_view, Json, JsonMap, JsonView, Number};

verus! {

broadcast use vstd::std_specs::vec::group_vec_axioms;

/// How many unsolicited messages may wait while a request is answered.
pub const MAX_PENDING: usize = 4096;

/// Why a conversation with Home Assistant failed.
#[derive(Debug, PartialEq)]
pub enum Error {
    Connect(String),
    Auth(String),
    Timeout(&'static str),
    Closed,
    Protocol(String),
    Server { code: String, message: String },
}

/// A failure in words.
pub open spec fn error_text(e: Error) -> Seq<char> {
    match e {
        Error::Connect(m) => "could not reach Home Assistant: "@ + m@,
        Error::Auth(m) => "Home Assistant rejected the access token: "@ + m@,
        Error::Timeout(what) => "Home Assistant did not answer in time ("@ + what@ + ")"@,
        Error::Closed => "the connection closed"@,
        Error::Protocol(m) => "unexpected reply from Home Assistant: "@ + m@,
        Error::Server { code, message } => "Home Assistant refused the request ("@ + code@ + "): "@ + message@,
    }
}

impl Error {
    /// Whether reconnecting can help: everything but a rejected token, which
    /// only produces failed logins until the credential changes.
    pub fn is_retryable(&self) -> (r: bool)
        ensures
            r == !(self is Auth),
    {
        match self {
            Error::Auth(_) => false,
            _ => true,
        }
    }

    /// The failure in words.
    pub fn message(&self) -> (r: String)
        ensures
            r@ == error_text(*self),
    {
        match self {
            Error::Connect(m) => concat("could not reach Home Assistant: ", m.as_str()),
            Error::Auth(m) => concat("Home Assistant rejected the access token: ", m.as_str()),
            Error::Timeout(what) => {
                let a = concat("Home Assistant did not answer in time (", what);
                concat(a.as_str(), ")")
            },
            Error::Closed => String::from_str("the connection closed"),
            Error::Protocol(m) => concat("unexpected reply from Home Assistant: ", m.as_str()),
            Error::Server { code, message } => {
                let a = concat("Home Assistant refused the request (", code.as_str());
                let b = concat(a.as_str(), "): ");
                concat(b.as_str(), message.as_str())
            },
        }
    }
}

/// The text under `key`, if there is text there.
pub open spec fn text_of(m: JsonView, key: Seq<char>) -> Option<Seq<char>> {
    as_str_opt(json_get(m, key))
}

/// The text under `key`, or `default`.
pub open spec fn text_or(m: JsonView, key: Seq<char>, default: Seq<char>) -> Seq<char> {
    match text_of(m, key) {
        Some(s) => s,
        None => default,
    }
}

fn text_or_exec(m: &Json, key: &str, default: &str) -> (r: String)
    ensures
        r@ == text_or(m@, key@, default@),
{
    match m.get(key) {
        Some(v) => match v.as_str() {
            Some(s) => String::from_str(s),
            None => String::from_str(default),
        },
        None => String::from_str(default),
    }
}

/// The Home Assistant version that a message announces; empty where it
/// announces none.
pub fn version_of(message: &Json) -> (r: String)
    ensures
        r@ == text_or(message@, "ha_version"@, seq![]),
{
    proof {
        reveal_strlit("");
        assert(""@ =~= Seq::<char>::empty());
    }
    text_or_exec(message, "ha_version", "")
}

/// What the server's first message asks for.
#[derive(Debug, PartialEq)]
pub enum Greeting {
    /// The server wants a token.
    AuthRequired,
    /// The server accepted the connection as it is, announcing its version.
    Authenticated(String),
}

/// The server's first message: a request for the token, an acceptance, or a
/// protocol error naming what came instead.
pub fn read_greeting(hello: &Json) -> (r: Result<Greeting, Error>)
    ensures
        match text_of(hello@, "type"@) {
            Some(t) if t == "auth_required"@ => r == Ok::<Greeting, Error>(Greeting::AuthRequired),
            Some(t) if t == "auth_ok"@ => r matches Ok(Greeting::Authenticated(v)) && v@ == text_or(
                hello@,
                "ha_version"@,
                seq![],
            ),
            _ => r matches Err(Error::Protocol(m)) && m@ == "expected auth_required, got "@ + text_or(
                hello@,
                "type"@,
                "no type"@,
            ),
        },
{
    let kind = text_or_exec(hello, "type", "no type");
    match hello.get("type") {
        Some(v) => match v.as_str() {
            Some(t) => {
                if str_eq(t, "auth_required") {
                    return Ok(Greeting::AuthRequired);
                }
                if str_eq(t, "auth_ok") {
                    return Ok(Greeting::Authenticated(version_of(hello)));
                }
            },
            None => {},
        },
        None => {},
    }
    Err(Error::Protocol(concat("expected auth_required, got ", kind.as_str())))
}

/// The server's answer to the token: the version it announces on success, the
/// reason it gives for a rejected token, or a protocol error.
pub fn read_auth_reply(reply: &Json) -> (r: Result<String, Error>)
    ensures
        match text_of(reply@, "type"@) {
            Some(t) if t == "auth_ok"@ => r matches Ok(v) && v@ == text_or(reply@, "ha_version"@, seq![]),
            Some(t) if t == "auth_invalid"@ => r matches Err(Error::Auth(m)) && m@ == text_or(
                reply@,
                "message"@,
                "invalid token"@,
            ),
            _ => r matches Err(Error::Protocol(m)) && m@ == "expected auth_ok, got "@ + text_or(
                reply@,
                "type"@,
                "no type"@,
            ),
        },
{
    let kind = text_or_exec(reply, "type", "no type");
    match reply.get("type") {
        Some(v) => match v.as_str() {
            Some(t) => {
                if str_eq(t, "auth_ok") {
                    return Ok(version_of(reply));
                }
                if str_eq(t, "auth_invalid") {
                    return Err(Error::Auth(text_or_exec(reply, "message", "invalid token")));
                }
            },
            None => {},
        },
        None => {},
    }
    Err(Error::Protocol(concat("expected auth_ok, got ", kind.as_str())))
}

/// The members of `m` other than those named `key`, in order.
pub open spec fn without_key(m: Seq<(Seq<char>, JsonView)>, key: Seq<char>) -> Seq<(Seq<char>, JsonView)>
    decreases m.len(),
{
    if m.len() == 0 {
        seq![]
    } else {
        let rest = without_key(m.drop_last(), key);
        if m.last().0 == key {
            rest
        } else {
            rest.push(m.last())
        }
    }
}

/// Whether no member of `m` is named `key`.
pub open spec fn lacks_key(m: Seq<(Seq<char>, JsonView)>, key: Seq<char>) -> bool {
    forall|i: int| 0 <= i < m.len() ==> #[trigger] m[i].0 != key
}

pub proof fn lemma_without_key_lacks_it(m: Seq<(Seq<char>, JsonView)>, key: Seq<char>)
    ensures
        lacks_key(without_key(m, key), key),
    decreases m.len(),
{
    if m.len() > 0 {
        lemma_without_key_lacks_it(m.drop_last(), key);
    }
}

/// A JSON string.
pub open spec fn str_value(s: Seq<char>) -> JsonView {
    JsonView::Str(s)
}

/// A non-negative JSON integer.
pub open spec fn uint_value(n: u64) -> JsonView {
    JsonView::Number(Number::PosInt(n))
}

/// The members of a command object, whatever else it is.
pub open spec fn members_of(v: JsonView) -> Seq<(Seq<char>, JsonView)> {
    match v {
        JsonView::Object(m) => m,
        _ => seq![],
    }
}

/// A command with its request id: any `id` it had is replaced.
pub open spec fn with_id_spec(command: JsonView, id: u64) -> JsonView {
    JsonView::Object(without_key(members_of(command), "id"@).push(("id"@, uint_value(id))))
}

/// The `call_service` command: the service data is the object given, less
/// any `entity_id` in it, and the entity is named only as the target.
pub open spec fn call_service_spec(domain: Seq<char>, service: Seq<char>, entity_id: Seq<char>, data: JsonView) -> JsonView {
    JsonView::Object(
        seq![
            ("type"@, str_value("call_service"@)),
            ("domain"@, str_value(domain)),
            ("service"@, str_value(service)),
            ("service_data"@, JsonView::Object(without_key(members_of(data), "entity_id"@))),
            ("target"@, JsonView::Object(seq![("entity_id"@, str_value(entity_id))])),
        ],
    )
}

fn push_member(entries: &mut Vec<(String, Json)>, key: &str, value: Json)
    ensures
        members_view(final(entries)@) == members_view(old(entries)@).push((key@, value@)),
{
    let ghost before = members_view(entries@);
    let ghost vv = value@;
    entries.push((String::from_str(key), value));
    proof {
        assert(members_view(entries@) =~= before.push((key@, vv)));
    }
}

fn text_value(s: &str) -> (r: Json)
    ensures
        r@ == str_value(s@),
{
    Json::Str(String::from_str(s))
}

/// The members of `members` other than those named `key`, copied.
fn copy_without(members: &Vec<(String, Json)>, key: &str) -> (r: Vec<(String, Json)>)
    ensures
        members_view(r@) == without_key(members_view(members@), key@),
{
    let ghost all = members_view(members@);
    let mut out: Vec<(String, Json)> = Vec::new();
    let mut i: usize = 0;
    while i < members.len()
        invariant
            all == members_view(members@),
            i <= members@.len(),
            members_view(out@) == without_key(all.take(i as int), key@),
        decreases members@.len() - i,
    {
        proof {
            assert(all.take(i + 1).drop_last() =~= all.take(i as int));
            assert(all.take(i + 1).last() == all[i as int]);
        }
        if !str_eq(members[i].0.as_str(), key) {
            let v = clone_json(&members[i].1);
            push_member(&mut out, members[i].0.as_str(), v);
        }
        i = i + 1;
    }
    proof {
        assert(all.take(members@.len() as int) =~= all);
    }
    out
}

/// A command with its request id; any `id` it carried is replaced.
pub fn with_id(command: &Json, id: u64) -> (r: Json)
    ensures
        r@ == with_id_spec(command@, id),
{
    let mut entries = match command {
        Json::Object(m) => copy_without(&m.entries, "id"),
        _ => {
            proof {
                assert(without_key(seq![], "id"@) =~= seq![]);
                assert(members_view(Seq::<(String, Json)>::empty()) =~= seq![]);
            }
            Vec::new()
        },
    };
    push_member(&mut entries, "id", Json::Number(Number::PosInt(id)));
    Json::Object(JsonMap { entries })
}

/// The `call_service` command that carries out a resolved action.
pub fn call_service_message(domain: &str, service: &str, entity_id: &str, data: &Json) -> (r: Json)
    ensures
        r@ == call_service_spec(domain@, service@, entity_id@, data@),
{
    let service_data = match data {
        Json::Object(m) => copy_without(&m.entries, "entity_id"),
        _ => {
            proof {
                assert(without_key(seq![], "entity_id"@) =~= seq![]);
                assert(members_view(Seq::<(String, Json)>::empty()) =~= seq![]);
            }
            Vec::new()
        },
    };
    let mut target: Vec<(String, Json)> = Vec::new();
    proof {
        assert(members_view(target@) =~= seq![]);
    }
    push_member(&mut target, "entity_id", text_value(entity_id));
    let mut entries: Vec<(String, Json)> = Vec::new();
    proof {
        assert(members_view(entries@) =~= seq![]);
    }
    push_member(&mut entries, "type", text_value("call_service"));
    push_member(&mut entries, "domain", text_value(domain));
    push_member(&mut entries, "service", text_value(service));
    push_member(&mut entries, "service_data", Json::Object(JsonMap { entries: service_data }));
    push_member(&mut entries, "target", Json::Object(JsonMap { entries: target }));
    let r = Json::Object(JsonMap { entries });
    proof {
        assert(r@->Object_0 =~= call_service_spec(domain@, service@, entity_id@, data@)->Object_0);
    }
    r
}

/// What an incoming message means to a request that is waiting for the
/// answer with id `id`.
#[derive(Debug, PartialEq)]
pub enum Reply {
    /// Not the answer: it waits until events are read.
    Unrelated,
    /// The request succeeded, with this result.
    Success(Json),
    /// Home Assistant refused the request.
    Failure(Error),
}

/// Whether `message` is the result of request `id`.
pub open spec fn answers(message: JsonView, id: u64) -> bool {
    &&& (match json_get(message, "id"@) {
        Some(v) => json_as_u64(v) == Some(id),
        None => false,
    })
    &&& text_of(message, "type"@) == Some("result"@)
}

/// The member `key` of `message`, or null.
pub open spec fn member_or_null(message: JsonView, key: Seq<char>) -> JsonView {
    match json_get(message, key) {
        Some(v) => v,
        None => JsonView::Null,
    }
}

/// Whether an answer reports success.
pub open spec fn succeeded(message: JsonView) -> bool {
    match json_get(message, "success"@) {
        Some(v) => json_as_bool(v) == Some(true),
        None => false,
    }
}

/// Reads a message while request `id` waits: the answer's result where it
/// succeeded, its error code and message where it failed (`unknown` and
/// `no message` where the server gives none), or unrelated.
pub fn classify_reply(message: &Json, id: u64) -> (r: Reply)
    ensures
        !answers(message@, id) ==> r == Reply::Unrelated,
        answers(message@, id) && succeeded(message@) ==> (r matches Reply::Success(v) && v@ == member_or_null(
            message@,
            "result"@,
        )),
        answers(message@, id) && !succeeded(message@) ==> (r matches Reply::Failure(
            Error::Server { code, message: text },
        ) && code@ == text_or(member_or_null(message@, "error"@), "code"@, "unknown"@) && text@ == text_or(
            member_or_null(message@, "error"@),
            "message"@,
            "no message"@,
        )),
{
    let same_id = match message.get("id") {
        Some(v) => v.as_u64() == Some(id),
        None => false,
    };
    let is_result = match message.get("type") {
        Some(v) => match v.as_str() {
            Some(t) => str_eq(t, "result"),
            None => false,
        },
        None => false,
    };
    if !(same_id && is_result) {
        return Reply::Unrelated;
    }
    let succeeded = match message.get("success") {
        Some(v) => v.as_bool() == Some(true),
        None => false,
    };
    if succeeded {
        return match message.get("result") {
            Some(v) => Reply::Success(clone_json(v)),
            None => Reply::Success(Json::Null),
        };
    }
    let (code, text) = match message.get("error") {
        Some(e) => (text_or_exec(e, "code", "unknown"), text_or_exec(e, "message", "no message")),
        None => (String::from_str("unknown"), String::from_str("no message")),
    };
    Reply::Failure(Error::Server { code, message: text })
}

/// Sets aside a message that arrived while a request waited, as long as
/// fewer than `MAX_PENDING` wait already; a server that sends more is
/// refused rather than held without limit.
pub fn hold_unrelated(pending: &mut VecDeque<Json>, message: Json) -> (r: Result<(), Error>)
    ensures
        old(pending)@.len() < MAX_PENDING ==> r is Ok && final(pending)@ == old(pending)@.push(message),
        old(pending)@.len() >= MAX_PENDING ==> (r matches Err(Error::Protocol(m)) && m@
            == "Home Assistant sent more unsolicited data than we can hold"@),
        old(pending)@.len() >= MAX_PENDING ==> final(pending)@ == old(pending)@,
{
    if pending.len() >= MAX_PENDING {
        return Err(Error::Protocol(String::from_str("Home Assistant sent more unsolicited data than we can hold")));
    }
    pending.push_back(message);
    Ok(())
}

/// The array that a `get_states` request returned; nothing where it returned
/// something else.
pub fn states_of(result: Json) -> (r: Vec<Json>)
    ensures
        match result {
            Json::Array(items) => r == items,
            _ => r@.len() == 0,
        },
{
    match result {
        Json::Array(items) => items,
        _ => Vec::new(),
    }
}

/// The message that presents the access token.
pub fn auth_message(token: &str) -> (r: Json)
    ensures
        r@ == JsonView::Object(seq![("type"@, str_value("auth"@)), ("access_token"@, str_value(token@))]),
{
    let mut entries: Vec<(String, Json)> = Vec::new();
    proof {
        assert(members_view(entries@) =~= seq![]);
    }
    push_member(&mut entries, "type", text_value("auth"));
    push_member(&mut entries, "access_token", text_value(token));
    let r = Json::Object(JsonMap { entries });
    proof {
        assert(r@->Object_0 =~= seq![("type"@, str_value("auth"@)), ("access_token"@, str_value(token@))]);
    }
    r
}

/// A command that names only its type, such as `get_states` or a registry
/// listing.
pub fn typed_message(kind: &str) -> (r: Json)
    ensures
        r@ == JsonView::Object(seq![("type"@, str_value(kind@))]),
{
    let mut entries: Vec<(String, Json)> = Vec::new();
    proof {
        assert(members_view(entries@) =~= seq![]);
    }
    push_member(&mut entries, "type", text_value(kind));
    let r = Json::Object(JsonMap { entries });
    proof {
        assert(r@->Object_0 =~= seq![("type"@, str_value(kind@))]);
    }
    r
}

/// The subscription to one event type.
pub fn subscribe_message(event_type: &str) -> (r: Json)
    ensures
        r@ == JsonView::Object(
            seq![("type"@, str_value("subscribe_events"@)), ("event_type"@, str_value(event_type@))],
        ),
{
    let mut entries: Vec<(String, Json)> = Vec::new();
    proof {
        assert(members_view(entries@) =~= seq![]);
    }
    push_member(&mut entries, "type", text_value("subscribe_events"));
    push_member(&mut entries, "event_type", text_value(event_type));
    let r = Json::Object(JsonMap { entries });
    proof {
        assert(r@->Object_0 =~= seq![
            ("type"@, str_value("subscribe_events"@)),
            ("event_type"@, str_value(event_type@)),
        ]);
    }
    r
}

/// The request for the default dashboard's configuration.
pub fn lovelace_message() -> (r: Json)
    ensures
        r@ == JsonView::Object(seq![("type"@, str_value("lovelace/config"@)), ("url_path"@, JsonView::Null)]),
{
    let mut entries: Vec<(String, Json)> = Vec::new();
    proof {
        assert(members_view(entries@) =~= seq![]);
    }
    push_member(&mut entries, "type", text_value("lovelace/config"));
    push_member(&mut entries, "url_path", Json::Null);
    let r = Json::Object(JsonMap { entries });
    proof {
        assert(r@->Object_0 =~= seq![("type"@, str_value("lovelace/config"@)), ("url_path"@, JsonView::Null)]);
    }
    r
}

/// A keep-alive ping with its id.
pub fn ping_message(id: u64) -> (r: Json)
    ensures
        r@ == JsonView::Object(seq![("id"@, uint_value(id)), ("type"@, str_value("ping"@))]),
{
    let mut entries: Vec<(String, Json)> = Vec::new();
    proof {
        assert(members_view(entries@) =~= seq![]);
    }
    push_member(&mut entries, "id", Json::Number(Number::PosInt(id)));
    push_member(&mut entries, "type", text_value("ping"));
    let r = Json::Object(JsonMap { entries });
    proof {
        assert(r@->Object_0 =~= seq![("id"@, uint_value(id)), ("type"@, str_value("ping"@))]);
    }
    r
}

/// The service data of a `call_service` command never names an entity: the
/// target alone does, so the data of a request cannot redirect the call.
pub proof fn law_service_data_never_names_an_entity(domain: Seq<char>, service: Seq<char>, entity_id: Seq<char>, data: JsonView, id: u64)
    ensures
        lacks_key(members_of(call_service_spec(domain, service, entity_id, data)->Object_0[3].1), "entity_id"@),
        call_service_spec(domain, service, entity_id, data)->Object_0[4].1 == JsonView::Object(
            seq![("entity_id"@, str_value(entity_id))],
        ),
        with_id_spec(call_service_spec(domain, service, entity_id, data), id)->Object_0.last() == ("id"@, uint_value(id)),
{
    lemma_without_key_lacks_it(members_of(data), "entity_id"@);
}

} // verus!
