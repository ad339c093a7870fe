use atriumd::config::Config;
use atriumd::daemon::{
    all_rows, display_name, next_backoff, pinned_tab, projection, registry_icon, registry_name, visible, History,
    States, BACKOFF_MAX_SECS, BACKOFF_START_SECS, HISTORY,
};
use atriumd::icons::Glyphs;
use atriumd::json::{Json, JsonMap};
use atriumd::protocol::{Event, Level};
use atriumd::registry::{AreaEntry, EntityEntry, Registry};

fn obj(members: Vec<(&str, Json)>) -> Json {
    Json::Object(JsonMap { entries: members.into_iter().map(|(k, v)| (k.to_string(), v)).collect() })
}

fn text(v: &str) -> Json {
    Json::Str(v.to_string())
}

fn state(id: &str, st: &str, friendly: Option<&str>) -> Json {
    let attributes = match friendly {
        Some(f) => obj(vec![("friendly_name", text(f))]),
        None => obj(vec![]),
    };
    obj(vec![("entity_id", text(id)), ("state", text(st)), ("attributes", attributes)])
}

fn log(text: &str) -> Event {
    Event::Log { level: Level::Info, at: 0, text: text.to_string(), entity_id: None }
}

fn registry() -> Registry {
    Registry {
        areas: vec![AreaEntry { area_id: "office".into(), name: "Office".into(), icon: None, floor_id: None }],
        devices: vec![],
        entities: vec![
            EntityEntry {
                entity_id: "light.desk".into(),
                area_id: Some("office".into()),
                name: Some("Desk".into()),
                icon: Some("mdi:desk-lamp".into()),
                ..Default::default()
            },
            EntityEntry {
                entity_id: "sensor.uptime".into(),
                area_id: Some("office".into()),
                entity_category: Some("diagnostic".into()),
                ..Default::default()
            },
        ],
    }
}

fn glyphs() -> Glyphs {
    Glyphs::new(vec![("mdi:star".to_string(), "\u{f04ce}".to_string())])
}

#[test]
fn backoff_doubles_up_to_a_minute() {
    let mut wait = BACKOFF_START_SECS;
    let mut seen = vec![wait];
    for _ in 0..8 {
        wait = next_backoff(wait);
        seen.push(wait);
    }
    assert_eq!(seen, vec![1, 2, 4, 8, 16, 32, 60, 60, 60]);
    assert_eq!(next_backoff(BACKOFF_MAX_SECS), BACKOFF_MAX_SECS);
}

#[test]
fn the_history_keeps_only_the_newest_entries() {
    let mut history = History::new();
    assert!(history.events().is_empty());
    for i in 0..(HISTORY + 5) {
        history.record(log(&format!("entry {i}")));
    }
    let kept = history.events();
    assert_eq!(kept.len(), HISTORY);
    assert!(matches!(&kept[0], Event::Log { text, .. } if text == "entry 5"));
    assert!(matches!(&kept[HISTORY - 1], Event::Log { text, .. } if text == &format!("entry {}", HISTORY + 4)));
}

#[test]
fn the_state_table_reads_back_what_was_written() {
    let mut states = States::new();
    assert!(states.insert("light.desk".into(), text("on")));
    assert!(states.insert("switch.fan".into(), text("off")));
    assert!(!states.insert("light.desk".into(), text("off")));
    assert_eq!(states.get("light.desk"), Some(&text("off")));
    assert_eq!(states.len(), 2);
    assert!(states.contains("switch.fan"));
    assert!(states.remove("switch.fan"));
    assert!(!states.remove("switch.fan"));
    assert!(!states.contains("switch.fan"));
    assert_eq!(states.get("switch.fan"), None);
    assert_eq!(states.len(), 1);
}

#[test]
fn live_ids_come_out_in_ascending_order() {
    let mut states = States::new();
    for id in ["switch.b", "light.z", "light.a", "cover.q"] {
        states.insert(id.into(), Json::Null);
    }
    assert_eq!(states.ids(), vec!["cover.q", "light.a", "light.z", "switch.b"]);
}

#[test]
fn names_prefer_the_users_own_then_the_friendly_name() {
    let mut config = Config::default();
    let mut states = States::new();
    states.insert("light.desk".into(), state("light.desk", "on", Some("Desk Lamp")));
    assert_eq!(display_name(&config, &states, "light.desk"), "Desk Lamp");
    assert_eq!(display_name(&config, &states, "light.other"), "light.other");
    config.display_name_overrides = vec![("light.desk".into(), "Reading".into()), ("light.desk".into(), "Later".into())];
    assert_eq!(display_name(&config, &states, "light.desk"), "Reading");
    config.display_name_overrides = vec![("light.desk".into(), String::new())];
    assert_eq!(display_name(&config, &states, "light.desk"), "Desk Lamp");

    let reg = registry();
    assert_eq!(registry_name(&config, &reg, "light.desk"), Some("Desk".to_string()));
    config.display_name_overrides = vec![("light.desk".into(), "Reading".into())];
    assert_eq!(registry_name(&config, &reg, "light.desk"), Some("Reading".to_string()));
    assert_eq!(registry_name(&config, &reg, "light.none"), None);
    assert_eq!(registry_icon(&reg, "light.desk"), Some("mdi:desk-lamp".to_string()));
    assert!(visible(&reg, "light.desk"));
    assert!(!visible(&reg, "sensor.uptime"));
    assert!(!visible(&reg, "automation.x"));
}

#[test]
fn the_pinned_tab_needs_to_be_asked_for_and_to_hold_something_visible() {
    let reg = registry();
    let mut states = States::new();
    states.insert("light.desk".into(), state("light.desk", "on", None));
    states.insert("sensor.uptime".into(), state("sensor.uptime", "5", None));
    let mut config = Config::default();
    config.favorites = vec!["sensor.uptime".into(), "light.desk".into(), "light.gone".into()];
    assert!(pinned_tab(&config, &states, &reg, &glyphs()).is_none());
    config.show_favorites = true;
    let tab = pinned_tab(&config, &states, &reg, &glyphs()).expect("a pinned tab");
    assert_eq!(tab.id, "pinned");
    assert_eq!(tab.title, "Pinned");
    assert_eq!(tab.icon, "mdi:star");
    assert_eq!(tab.glyph, "\u{f04ce}");
    assert_eq!(tab.entity_ids, vec!["light.desk"]);
    config.favorites = vec!["sensor.uptime".into()];
    assert!(pinned_tab(&config, &states, &reg, &glyphs()).is_none());
}

#[test]
fn the_pinned_tab_goes_in_front_of_the_rooms() {
    let reg = registry();
    let mut states = States::new();
    states.insert("light.desk".into(), state("light.desk", "on", Some("Desk Lamp")));
    states.insert("sensor.orphan".into(), state("sensor.orphan", "1", None));
    let mut config = Config::default();
    config.show_favorites = true;
    config.favorites = vec!["sensor.orphan".into()];
    let (tabs, areas) = projection(&config, &states, &reg, &glyphs(), |id: &str| display_name(&config, &states, id));
    let ids: Vec<&str> = tabs.iter().map(|t| t.id.as_str()).collect();
    assert_eq!(ids, vec!["pinned", "area:office", "unassigned"]);
    assert_eq!(tabs[1].entity_ids, vec!["light.desk"]);
    assert_eq!(areas.len(), 1);
    assert_eq!(areas[0].entity_count, 1);
}

#[test]
fn rows_are_drawn_for_visible_entities_in_id_order() {
    let reg = registry();
    let mut states = States::new();
    states.insert("switch.fan".into(), state("switch.fan", "off", Some("Fan")));
    states.insert("sensor.uptime".into(), state("sensor.uptime", "5", None));
    states.insert("light.desk".into(), state("light.desk", "on", Some("Desk Lamp")));
    states.insert("light.nameless".into(), obj(vec![("state", text("on"))]));
    let config = Config::default();
    let rows = all_rows(&config, &states, &reg, &glyphs());
    let ids: Vec<&str> = rows.iter().map(|r| r.entity_id.as_str()).collect();
    assert_eq!(ids, vec!["light.desk", "switch.fan"]);
    assert_eq!(rows[0].name, "Desk");
    assert_eq!(rows[0].icon, "mdi:desk-lamp");
    assert_eq!(rows[1].name, "Fan");
}
