use atriumd::client::Error as ClientError;
use atriumd::config::Config;
use atriumd::control::{Effect, Outcome};
use atriumd::daemon::states_from;
use atriumd::json::{Json, JsonMap};
use atriumd::keyring;
use atriumd::lifecycle::{
    adopt_dashboard, after_lookup, after_loss, after_silence, config_event, connected_event, connected_text, connecting,
    status_event, Recovery,
};
use atriumd::lifecycle::{credential_wait_step, idle_step, Backoff, Next};
use atriumd::protocol::{ConnectionState, Event, Level};
use atriumd::url::parse;

fn obj(members: Vec<(&str, Json)>) -> Json {
    Json::Object(JsonMap { entries: members.into_iter().map(|(k, v)| (k.to_string(), v)).collect() })
}

fn text(v: &str) -> Json {
    Json::Str(v.to_string())
}

#[test]
fn a_rejected_token_waits_for_a_new_one() {
    let (effects, recovery) = after_loss(&ClientError::Auth("invalid".into()), 4);
    assert_eq!(recovery, Recovery::AwaitCredentials);
    assert!(matches!(&effects[0], Effect::Log { level: Level::Error, text, .. }
        if text == "Home Assistant rejected the access token: invalid. Enter a new token to try again."));
    assert!(matches!(&effects[1], Effect::EmitStatus(ConnectionState::Failed, Some(m))
        if m == "Home Assistant rejected the access token: invalid"));
}

#[test]
fn other_losses_retry_after_the_backoff() {
    let (effects, recovery) = after_loss(&ClientError::Closed, 16);
    assert_eq!(recovery, Recovery::RetryAfter(16));
    assert!(matches!(&effects[0], Effect::Log { level: Level::Warn, text, .. }
        if text == "the connection closed. Retrying in 16s."));
    assert!(matches!(&effects[1], Effect::EmitStatus(ConnectionState::Reconnecting, Some(m)) if m == "the connection closed"));
}

#[test]
fn silence_is_a_question_before_it_is_a_fault() {
    assert!(after_silence(30).is_none());
    assert!(after_silence(89).is_none());
    assert_eq!(after_silence(90), Some(ClientError::Timeout("waiting for Home Assistant")));
}

#[test]
fn the_keyring_answer_decides_whether_to_connect() {
    assert_eq!(after_lookup(Ok(Some("tok".into()))).ok(), Some("tok".to_string()));
    let waiting = after_lookup(Ok(None)).unwrap_err();
    assert!(matches!(waiting.as_slice(), [Effect::EmitStatus(ConnectionState::NeedsToken, None)]));
    let failed = after_lookup(Err(keyring::Error::Timeout)).unwrap_err();
    assert!(matches!(failed.as_slice(), [Effect::EmitStatus(ConnectionState::Failed, Some(m))]
        if m == "the system keyring did not respond"));
    let effects = connecting("https://ha.example.com");
    assert!(matches!(&effects[0], Effect::EmitStatus(ConnectionState::Connecting, None)));
    assert!(matches!(&effects[1], Effect::Log { level: Level::Info, text, .. } if text == "Connecting to https://ha.example.com"));
}

#[test]
fn status_events_carry_the_origin_and_the_plaintext_flag() {
    let mut config = Config::default();
    let event = status_event(&config, ConnectionState::Unconfigured, None);
    assert!(matches!(event, Event::Status { origin: None, plaintext: false, ha_version: None, .. }));
    config.base_url = "http://192.168.1.10:8123".into();
    let event = status_event(&config, ConnectionState::Offline, Some("bye".into()));
    match event {
        Event::Status { state, message, origin, plaintext, .. } => {
            assert_eq!(state, ConnectionState::Offline);
            assert_eq!(message.as_deref(), Some("bye"));
            assert_eq!(origin.as_deref(), Some("http://192.168.1.10:8123"));
            assert!(plaintext);
        }
        other => panic!("unexpected {other:?}"),
    }
    let endpoint = parse("https://ha.example.com").unwrap();
    match connected_event(&endpoint, "2026.8.3") {
        Event::Status { state, origin, ha_version, plaintext, message } => {
            assert_eq!(state, ConnectionState::Connected);
            assert_eq!(origin.as_deref(), Some("https://ha.example.com"));
            assert_eq!(ha_version.as_deref(), Some("2026.8.3"));
            assert!(!plaintext);
            assert!(message.is_none());
        }
        other => panic!("unexpected {other:?}"),
    }
}

#[test]
fn the_config_event_reflects_the_settings() {
    let mut config = Config::default();
    config.favorites = vec!["light.desk".into()];
    config.pinned_tabs = vec!["area:office".into()];
    config.selected_tab = "area:office".into();
    config.base_url = "https://ha.example.com".into();
    config.imported_dashboard_prefs = true;
    match config_event(&config) {
        Event::Config {
            favorites,
            pinned_tabs,
            allow_sensitive_ipc,
            show_favorites,
            selected_tab,
            imported_dashboard_prefs,
            base_url,
            hide_empty_areas,
            hide_entities_without_area,
        } => {
            assert_eq!(favorites, vec!["light.desk"]);
            assert_eq!(pinned_tabs, vec!["area:office"]);
            assert!(!allow_sensitive_ipc);
            assert!(!show_favorites);
            assert_eq!(selected_tab, "area:office");
            assert!(imported_dashboard_prefs);
            assert_eq!(base_url, "https://ha.example.com");
            assert!(hide_empty_areas);
            assert!(!hide_entities_without_area);
        }
        other => panic!("unexpected {other:?}"),
    }
}

#[test]
fn a_generated_dashboard_is_adopted_once() {
    let dashboard = obj(vec![(
        "strategy",
        obj(vec![
            ("type", text("original-states")),
            ("areas", obj(vec![("order", Json::Array(vec![text("garage")]))])),
        ]),
    )]);
    let mut config = Config::default();
    config.areas.hide_empty_areas = false;
    let effects = adopt_dashboard(&mut config, Some(&dashboard));
    assert!(matches!(effects.as_slice(), [Effect::Save, Effect::EmitConfig]));
    assert_eq!(config.areas.order, vec!["garage"]);
    assert!(!config.areas.hide_empty_areas);
    assert!(config.imported_dashboard_prefs);
    config.areas.order.clear();
    assert!(adopt_dashboard(&mut config, Some(&dashboard)).is_empty());
    assert!(config.areas.order.is_empty());

    let mut fresh = Config::default();
    assert!(adopt_dashboard(&mut fresh, None).is_empty());
    assert!(adopt_dashboard(&mut fresh, Some(&obj(vec![("views", Json::Array(vec![]))]))).is_empty());
    assert!(!fresh.imported_dashboard_prefs);
}

#[test]
fn the_connected_line_counts_what_was_found() {
    assert_eq!(
        connected_text("2026.8.3", 12, 40, 310),
        "Connected to Home Assistant 2026.8.3 \u{2014} 12 areas, 40 devices, 310 entities"
    );
}

#[test]
fn a_snapshot_keeps_the_last_state_of_each_entity() {
    let snapshot = vec![
        obj(vec![("entity_id", text("light.a")), ("state", text("on"))]),
        obj(vec![("state", text("orphan"))]),
        obj(vec![("entity_id", text("light.a")), ("state", text("off"))]),
        obj(vec![("entity_id", text("switch.b")), ("state", text("on"))]),
    ];
    let states = states_from(&snapshot);
    assert_eq!(states.len(), 2);
    assert_eq!(states.get("light.a"), Some(&snapshot[2]));
    assert_eq!(states.ids(), vec!["light.a", "switch.b"]);
}

#[test]
fn a_snapshot_never_takes_in_a_malformed_id() {
    let snapshot = vec![
        obj(vec![("entity_id", text("__proto__")), ("state", text("on"))]),
        obj(vec![("entity_id", text("constructor")), ("state", text("on"))]),
        obj(vec![("entity_id", text("Light.Desk")), ("state", text("on"))]),
        obj(vec![("entity_id", text("light.desk")), ("state", text("on"))]),
    ];
    let states = states_from(&snapshot);
    assert_eq!(states.ids(), vec!["light.desk"]);
}

#[test]
fn after_a_rejected_token_only_a_new_credential_reconnects() {
    assert_eq!(credential_wait_step(true, Outcome::Reconfigure), Next::Connect);
    assert_eq!(credential_wait_step(false, Outcome::Reconfigure), Next::Wait);
    assert_eq!(credential_wait_step(true, Outcome::Lost), Next::Wait);
    assert_eq!(credential_wait_step(false, Outcome::Stop), Next::Stop);
    assert_eq!(idle_step(Outcome::Reconfigure), Next::Connect);
    assert_eq!(idle_step(Outcome::Lost), Next::Wait);
    assert_eq!(idle_step(Outcome::Stop), Next::Stop);
}

#[test]
fn waits_double_when_waited_out_and_restart_after_a_command() {
    let mut backoff = Backoff::new();
    let mut seen = vec![backoff.secs()];
    for _ in 0..7 {
        assert_eq!(backoff.after_wait(None), Next::Connect);
        seen.push(backoff.secs());
    }
    assert_eq!(seen, vec![1, 2, 4, 8, 16, 32, 60, 60]);
    assert_eq!(backoff.after_wait(Some(Outcome::Lost)), Next::Connect);
    assert_eq!(backoff.secs(), 1);
    backoff.after_wait(None);
    assert_eq!(backoff.after_wait(Some(Outcome::Stop)), Next::Stop);
    assert_eq!(backoff.secs(), 2);
    backoff.reset();
    assert_eq!(backoff.secs(), 1);
}
