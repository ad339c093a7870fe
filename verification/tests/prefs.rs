use atriumd::json::{Json, JsonMap, Number};
use atriumd::prefs::from_lovelace_config;

fn obj(members: Vec<(&str, Json)>) -> Json {
    Json::Object(JsonMap { entries: members.into_iter().map(|(k, v)| (k.to_string(), v)).collect() })
}

fn text(v: &str) -> Json {
    Json::Str(v.to_string())
}

fn texts(items: &[&str]) -> Json {
    Json::Array(items.iter().map(|s| text(s)).collect())
}

fn strategy(members: Vec<(&str, Json)>) -> Json {
    obj(vec![("strategy", obj(members))])
}

#[test]
fn adopts_order_hidden_and_arealess_preference() {
    let config = strategy(vec![
        ("type", text("original-states")),
        (
            "areas",
            obj(vec![
                ("hidden", texts(&["downstairs_patio", "upstairs_patio"])),
                ("order", texts(&["garage", "office", "entrance"])),
            ]),
        ),
        ("hide_entities_without_area", Json::Bool(true)),
        ("hide_energy", Json::Bool(false)),
    ]);
    let prefs = from_lovelace_config(&config, true).expect("strategy should be adopted");
    assert_eq!(prefs.order, ["garage", "office", "entrance"]);
    assert_eq!(prefs.hidden, ["downstairs_patio", "upstairs_patio"]);
    assert!(prefs.hide_entities_without_area);
}

#[test]
fn hand_written_dashboards_are_left_alone() {
    let config = obj(vec![(
        "views",
        Json::Array(vec![obj(vec![("title", text("Home")), ("cards", Json::Array(vec![]))])]),
    )]);
    assert!(from_lovelace_config(&config, true).is_none());
}

#[test]
fn unrelated_strategies_are_left_alone() {
    let config = strategy(vec![("type", text("map"))]);
    assert!(from_lovelace_config(&config, true).is_none());
}

#[test]
fn a_strategy_with_no_area_preferences_yet_is_still_adopted() {
    let config = strategy(vec![("type", text("original-states"))]);
    let prefs = from_lovelace_config(&config, true).expect("adopted");
    assert!(prefs.order.is_empty());
    assert!(prefs.hidden.is_empty());
    assert!(!prefs.hide_entities_without_area);
}

#[test]
fn an_import_keeps_the_users_own_empty_rooms_choice() {
    let config = strategy(vec![("type", text("original-states"))]);
    assert!(!from_lovelace_config(&config, false).unwrap().hide_empty_areas);
    assert!(from_lovelace_config(&config, true).unwrap().hide_empty_areas);
}

#[test]
fn malformed_preference_entries_are_discarded_not_fatal() {
    let config = strategy(vec![
        ("type", text("original-states")),
        (
            "areas",
            obj(vec![
                (
                    "order",
                    Json::Array(vec![text("office"), Json::Number(Number::PosInt(42)), Json::Null, text("")]),
                ),
                ("hidden", text("not-a-list")),
            ]),
        ),
    ]);
    let prefs = from_lovelace_config(&config, true).expect("adopted");
    assert_eq!(prefs.order, ["office"]);
    assert!(prefs.hidden.is_empty());
}

#[test]
fn a_config_that_is_not_an_object_is_left_alone() {
    assert!(from_lovelace_config(&Json::Null, true).is_none());
    assert!(from_lovelace_config(&strategy(vec![]), true).is_none());
    let wrong_flag = strategy(vec![("type", text("original-states")), ("hide_entities_without_area", text("yes"))]);
    assert!(!from_lovelace_config(&wrong_flag, true).unwrap().hide_entities_without_area);
}
