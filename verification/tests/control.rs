use atriumd::action::ServiceCall;
use atriumd::config::Config;
use atriumd::control::{
    handle_event, is_credential_change, offline, online, stay_online, token_cleared, token_stored, Effect, Online,
    Outcome, Step,
};
use atriumd::daemon::States;
use atriumd::icons::Glyphs;
use atriumd::json::{clone_json, Json, JsonMap};
use atriumd::keyring;
use atriumd::protocol::{Command, ConnectionState, Level};
use atriumd::registry::{EntityEntry, Registry};

fn obj(members: Vec<(&str, Json)>) -> Json {
    Json::Object(JsonMap { entries: members.into_iter().map(|(k, v)| (k.to_string(), v)).collect() })
}

fn text(v: &str) -> Json {
    Json::Str(v.to_string())
}

fn done(step: Step) -> (Vec<Effect>, Outcome) {
    match step {
        Step::Done { effects, outcome } => (effects, outcome),
        other => panic!("expected a finished step, got {other:?}"),
    }
}

fn is_log(effect: &Effect, level: Level, text: &str) -> bool {
    matches!(effect, Effect::Log { level: l, text: t, .. } if *l == level && t == text)
}

#[test]
fn an_omitted_preference_is_left_alone() {
    let mut config = Config::default();
    config.areas.order = vec!["garage".into(), "office".into()];
    let (effects, outcome) = done(offline(
        &mut config,
        Command::SetAreaPrefs {
            order: None,
            hidden: Some(vec!["patio".into()]),
            hide_empty_areas: None,
            hide_entities_without_area: Some(true),
        },
    ));
    assert_eq!(config.areas.order, vec!["garage", "office"]);
    assert_eq!(config.areas.hidden, vec!["patio"]);
    assert!(config.areas.hide_empty_areas);
    assert!(config.areas.hide_entities_without_area);
    assert!(config.imported_dashboard_prefs);
    assert!(matches!(effects.as_slice(), [Effect::Save, Effect::EmitProjection, Effect::EmitConfig]));
    assert_eq!(outcome, Outcome::Lost);
}

#[test]
fn a_token_goes_to_the_address_it_was_typed_for() {
    let mut config = Config::default();
    config.base_url = "https://old.example.com".into();
    let step = offline(
        &mut config,
        Command::SetToken { token: "  abc \n".into(), url: Some("new.example.com:8123".into()) },
    );
    match step {
        Step::StoreToken { origin, token, target } => {
            assert_eq!(origin, "https://new.example.com:8123");
            assert_eq!(token, "abc");
            assert_eq!(target, "new.example.com:8123");
        }
        other => panic!("expected the token to be stored, got {other:?}"),
    }
    assert_eq!(config.base_url, "https://old.example.com");

    let (effects, outcome) = token_stored(&mut config, "new.example.com:8123".into(), Ok(()));
    assert_eq!(config.base_url, "new.example.com:8123");
    assert!(matches!(effects.as_slice(), [Effect::Save, Effect::EmitConfig]));
    assert_eq!(outcome, Outcome::Reconfigure);

    let (effects, outcome) = token_stored(&mut config, "new.example.com:8123".into(), Ok(()));
    assert!(effects.is_empty());
    assert_eq!(outcome, Outcome::Reconfigure);

    let (effects, outcome) = token_stored(&mut config, "x".into(), Err(keyring::Error::Timeout));
    assert_eq!(config.base_url, "new.example.com:8123");
    assert!(is_log(&effects[0], Level::Error, "the system keyring did not respond"));
    assert_eq!(outcome, Outcome::Lost);
}

#[test]
fn a_blank_token_or_a_bad_address_is_refused() {
    let mut config = Config::default();
    config.base_url = "https://ha.example.com".into();
    let (effects, outcome) = done(offline(&mut config, Command::SetToken { token: "  ".into(), url: None }));
    assert!(is_log(&effects[0], Level::Warn, "That token is empty."));
    assert_eq!(outcome, Outcome::Lost);
    let (effects, _) = done(offline(&mut config, Command::SetToken { token: "abc".into(), url: Some("ftp://x".into()) }));
    assert!(is_log(&effects[0], Level::Error, "unsupported scheme \u{201c}ftp\u{201d}"));
}

#[test]
fn the_address_changes_only_to_one_that_parses() {
    let mut config = Config::default();
    let (effects, outcome) = done(offline(&mut config, Command::SetUrl { url: "   ".into() }));
    assert!(config.base_url.is_empty());
    assert!(is_log(&effects[0], Level::Warn, "no Home Assistant URL set"));
    assert_eq!(outcome, Outcome::Lost);
    let (effects, outcome) = done(offline(&mut config, Command::SetUrl { url: "ha.local:8123".into() }));
    assert_eq!(config.base_url, "ha.local:8123");
    assert!(matches!(effects.as_slice(), [Effect::Save, Effect::EmitConfig]));
    assert_eq!(outcome, Outcome::Reconfigure);
}

#[test]
fn forgetting_a_token_clears_the_configured_origin() {
    let mut config = Config::default();
    let (_, outcome) = done(offline(&mut config, Command::ForgetToken));
    assert_eq!(outcome, Outcome::Reconfigure);
    config.base_url = "https://ha.example.com/".into();
    match offline(&mut config, Command::ForgetToken) {
        Step::ClearToken { origin } => assert_eq!(origin, "https://ha.example.com"),
        other => panic!("expected a clear, got {other:?}"),
    }
    assert!(token_cleared(Ok(())).is_empty());
    let effects = token_cleared(Err(keyring::Error::Unavailable));
    assert!(is_log(&effects[0], Level::Error, "secret-tool is not installed, so the access token cannot be stored"));
}

#[test]
fn offline_commands_have_their_effects() {
    let mut config = Config::default();
    let (effects, outcome) = done(offline(&mut config, Command::Disconnect));
    assert!(matches!(effects.as_slice(), [Effect::EmitStatus(ConnectionState::Offline, None)]));
    assert_eq!(outcome, Outcome::Lost);
    let (effects, outcome) = done(offline(&mut config, Command::Connect));
    assert!(effects.is_empty());
    assert_eq!(outcome, Outcome::Reconfigure);
    let (effects, _) = done(offline(&mut config, Command::SetFavorites { ids: vec!["light.a".into()], show: Some(true) }));
    assert_eq!(config.favorites, vec!["light.a"]);
    assert!(config.show_favorites);
    assert!(matches!(effects.as_slice(), [Effect::Save, Effect::EmitConfig]));
    let (effects, _) = done(offline(&mut config, Command::SetFavorites { ids: vec![], show: None }));
    assert!(config.favorites.is_empty());
    assert!(config.show_favorites);
    assert!(matches!(effects.as_slice(), [Effect::Save, Effect::EmitConfig]));
    let (effects, _) = done(offline(&mut config, Command::SetPinnedTabs { ids: vec!["area:office".into()] }));
    assert_eq!(config.pinned_tabs, vec!["area:office"]);
    assert!(matches!(effects.as_slice(), [Effect::Save, Effect::EmitConfig]));
    let (effects, _) = done(offline(&mut config, Command::SetSelectedTab { tab: "unassigned".into() }));
    assert_eq!(config.selected_tab, "unassigned");
    assert!(matches!(effects.as_slice(), [Effect::Save]));
    let (effects, _) = done(offline(&mut config, Command::Status));
    assert!(matches!(effects.as_slice(), [Effect::EmitConfig, Effect::EmitProjection, Effect::ReplayHistory]));
    let (effects, _) = done(offline(
        &mut config,
        Command::Action { entity_id: "light.a".into(), action: "toggle".into(), data: Json::Null },
    ));
    assert!(matches!(&effects[0], Effect::Log { level: Level::Warn, entity_id: Some(id), .. } if id == "light.a"));
    let (effects, _) = done(offline(&mut config, Command::ImportDashboardPrefs));
    assert!(is_log(&effects[0], Level::Warn, "Not connected to Home Assistant."));
}

#[test]
fn an_action_online_is_sent_and_logged_by_name() {
    let mut config = Config::default();
    let mut states = States::new();
    states.insert(
        "light.desk".into(),
        obj(vec![("entity_id", text("light.desk")), ("attributes", obj(vec![("friendly_name", text("Desk Lamp"))]))]),
    );
    let step = online(
        &mut config,
        &states,
        Command::Action { entity_id: "light.desk".into(), action: "toggle".into(), data: obj(vec![]) },
    );
    match step {
        Online::Call { call, done, entity_id } => {
            assert_eq!(
                call,
                ServiceCall {
                    domain: "light".into(),
                    service: "toggle".into(),
                    entity_id: "light.desk".into(),
                    data: obj(vec![]),
                }
            );
            assert_eq!(done, "Desk Lamp \u{2014} light.toggle");
            assert_eq!(entity_id, "light.desk");
        }
        other => panic!("expected a call, got {other:?}"),
    }
    let step = online(
        &mut config,
        &states,
        Command::Action { entity_id: "light.desk".into(), action: "unlock".into(), data: obj(vec![]) },
    );
    match step {
        Online::Done { effects, outcome } => {
            assert!(matches!(&effects[0], Effect::Log { level: Level::Warn, entity_id: Some(id), text }
                if id == "light.desk" && text == "\u{201c}unlock\u{201d} is not something a light entity can do"));
            assert_eq!(outcome, None);
        }
        other => panic!("expected a refusal, got {other:?}"),
    }
}

#[test]
fn online_commands_decide_the_connection() {
    let mut config = Config::default();
    config.imported_dashboard_prefs = true;
    let states = States::new();
    match online(&mut config, &states, Command::ImportDashboardPrefs) {
        Online::Done { effects, outcome } => {
            assert!(is_log(&effects[0], Level::Info, "Re-reading your Home Assistant dashboard."));
            assert!(matches!(effects[1], Effect::Save));
            assert_eq!(outcome, Some(Outcome::Reconfigure));
        }
        other => panic!("unexpected {other:?}"),
    }
    assert!(!config.imported_dashboard_prefs);
    assert!(matches!(
        online(&mut config, &states, Command::Disconnect),
        Online::Done { outcome: Some(Outcome::Stop), .. }
    ));
    assert!(matches!(online(&mut config, &states, Command::Refresh), Online::Done { outcome: Some(Outcome::Reconfigure), .. }));
    assert!(matches!(online(&mut config, &states, Command::Status), Online::Done { outcome: None, .. }));
    assert!(matches!(
        online(&mut config, &states, Command::SetSelectedTab { tab: "pinned".into() }),
        Online::Offline(Step::Done { outcome: Outcome::Lost, .. })
    ));
    assert_eq!(config.selected_tab, "pinned");
    assert_eq!(stay_online(Outcome::Lost), None);
    assert_eq!(stay_online(Outcome::Stop), Some(Outcome::Stop));
    assert_eq!(stay_online(Outcome::Reconfigure), Some(Outcome::Reconfigure));
    assert!(is_credential_change(&Command::ForgetToken));
    assert!(is_credential_change(&Command::SetUrl { url: String::new() }));
    assert!(!is_credential_change(&Command::Refresh));
}

fn registry() -> Registry {
    Registry {
        areas: vec![],
        devices: vec![],
        entities: vec![EntityEntry {
            entity_id: "sensor.uptime".into(),
            entity_category: Some("diagnostic".into()),
            ..Default::default()
        }],
    }
}

fn changed(id: &str, new_state: Option<Json>) -> Json {
    let mut data = vec![("entity_id", text(id))];
    if let Some(s) = new_state {
        data.push(("new_state", s));
    }
    obj(vec![
        ("type", text("event")),
        ("event", obj(vec![("event_type", text("state_changed")), ("data", obj(data))])),
    ])
}

#[test]
fn state_changes_update_the_table_and_the_panel() {
    let config = Config::default();
    let reg = registry();
    let glyphs = Glyphs::default();
    let mut states = States::new();
    let on = obj(vec![("entity_id", text("light.desk")), ("state", text("on"))]);
    let (effects, stale) = handle_event(&changed("light.desk", Some(clone_json(&on))), 0, &mut states, &reg, &config, &glyphs);
    assert!(!stale);
    assert!(matches!(effects.as_slice(), [Effect::EmitRow(r), Effect::EmitProjection] if r.entity_id == "light.desk"));
    assert_eq!(states.get("light.desk"), Some(&on));
    let (effects, _) = handle_event(&changed("light.desk", Some(clone_json(&on))), 0, &mut states, &reg, &config, &glyphs);
    assert!(matches!(effects.as_slice(), [Effect::EmitRow(_)]));
    let (effects, _) = handle_event(&changed("light.desk", Some(Json::Null)), 0, &mut states, &reg, &config, &glyphs);
    assert!(matches!(effects.as_slice(), [Effect::EmitDropped(id), Effect::EmitProjection] if id == "light.desk"));
    assert!(!states.contains("light.desk"));
}

#[test]
fn hidden_malformed_or_stateless_changes_are_ignored() {
    let config = Config::default();
    let reg = registry();
    let glyphs = Glyphs::default();
    let mut states = States::new();
    let some = obj(vec![("state", text("1"))]);
    for message in [
        changed("sensor.uptime", Some(clone_json(&some))),
        changed("__proto__", Some(clone_json(&some))),
        changed("automation.x", Some(clone_json(&some))),
        changed("light.desk", None),
    ] {
        let (effects, stale) = handle_event(&message, 0, &mut states, &reg, &config, &glyphs);
        assert!(effects.is_empty());
        assert!(!stale);
    }
    assert_eq!(states.len(), 0);
    let (effects, _) = handle_event(&changed("light.x", Some(some)), 0, &mut states, &reg, &config, &glyphs);
    assert!(matches!(effects.as_slice(), [Effect::EmitProjection]));
}

#[test]
fn registry_changes_reload_only_once_the_connection_has_settled() {
    let config = Config::default();
    let reg = registry();
    let glyphs = Glyphs::default();
    let mut states = States::new();
    let update = obj(vec![("type", text("event")), ("event", obj(vec![("event_type", text("area_registry_updated"))]))]);
    let (effects, stale) = handle_event(&update, 3, &mut states, &reg, &config, &glyphs);
    assert!(effects.is_empty() && !stale);
    let (effects, stale) = handle_event(&update, 10, &mut states, &reg, &config, &glyphs);
    assert!(stale);
    assert!(is_log(&effects[0], Level::Info, "Home Assistant areas or devices changed; reloading."));
}

#[test]
fn a_refused_request_is_logged() {
    let config = Config::default();
    let reg = registry();
    let glyphs = Glyphs::default();
    let mut states = States::new();
    let refused = obj(vec![
        ("type", text("result")),
        ("success", Json::Bool(false)),
        ("error", obj(vec![("message", text("Service not found"))])),
    ]);
    let (effects, _) = handle_event(&refused, 0, &mut states, &reg, &config, &glyphs);
    assert!(is_log(&effects[0], Level::Warn, "Service not found"));
    let vague = obj(vec![("type", text("result")), ("success", Json::Bool(false))]);
    let (effects, _) = handle_event(&vague, 0, &mut states, &reg, &config, &glyphs);
    assert!(is_log(&effects[0], Level::Warn, "Home Assistant refused the request"));
    let fine = obj(vec![("type", text("result")), ("success", Json::Bool(true))]);
    let (effects, _) = handle_event(&fine, 0, &mut states, &reg, &config, &glyphs);
    assert!(effects.is_empty());
}
