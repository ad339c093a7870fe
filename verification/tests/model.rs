use atriumd::icons::Glyphs;
use atriumd::json::{Json, JsonMap, Number};
use atriumd::model::{capabilities, default_icon, is_active, row, Control, Row};

fn obj(members: Vec<(&str, Json)>) -> Json {
    Json::Object(JsonMap { entries: members.into_iter().map(|(k, v)| (k.to_string(), v)).collect() })
}

fn integer(v: u64) -> Json {
    Json::Number(Number::PosInt(v))
}

fn float(v: f64) -> Json {
    Json::Number(Number::Float(v.to_bits()))
}

fn text(v: &str) -> Json {
    Json::Str(v.to_string())
}

fn list(items: Vec<Json>) -> Json {
    Json::Array(items)
}

fn entity(id: &str, state: &str, attributes: Json) -> Json {
    obj(vec![("entity_id", text(id)), ("state", text(state)), ("attributes", attributes)])
}

fn font() -> Glyphs {
    Glyphs::new(
        [
            ("mdi:lightbulb", "\u{f0335}"),
            ("mdi:lightbulb-off", "\u{f0336}"),
            ("mdi:checkbox-marked-circle", "\u{f0133}"),
            ("mdi:checkbox-blank-circle-outline", "\u{f0130}"),
            ("mdi:desk-lamp", "\u{f095f}"),
            ("mdi:eye", "\u{f0208}"),
        ]
        .iter()
        .map(|(k, v)| (k.to_string(), v.to_string()))
        .collect(),
    )
}

fn draw(e: &Json, name: Option<&str>, icon: Option<&str>) -> Row {
    row(e, name, icon, &font()).expect("the state names an entity")
}

#[test]
fn a_dimmable_colour_light_offers_every_light_control() {
    let e = entity(
        "light.desk",
        "on",
        obj(vec![("supported_color_modes", list(vec![text("color_temp"), text("hs")])), ("brightness", integer(180))]),
    );
    let controls = capabilities(&e);
    assert!(controls.contains(&Control::Toggle));
    assert!(controls.contains(&Control::Brightness));
    assert!(controls.contains(&Control::ColorTemp));
    assert!(controls.contains(&Control::Color));
}

#[test]
fn an_onoff_only_light_offers_no_brightness() {
    let e = entity("light.porch", "off", obj(vec![("supported_color_modes", list(vec![text("onoff")]))]));
    let controls = capabilities(&e);
    assert_eq!(controls, vec![Control::Toggle]);
}

#[test]
fn media_player_features_are_read_from_the_bitmask() {
    let e = entity("media_player.tv", "playing", obj(vec![("supported_features", integer(16384 | 4))]));
    let controls = capabilities(&e);
    assert!(controls.contains(&Control::Transport));
    assert!(controls.contains(&Control::Volume));

    let bare = entity("media_player.dumb", "idle", obj(vec![("supported_features", integer(0))]));
    assert_eq!(capabilities(&bare), vec![Control::ReadOnly]);
}

#[test]
fn a_cover_without_position_gets_no_position_slider() {
    let e = entity("cover.door", "open", obj(vec![("supported_features", integer(1 | 2 | 8))]));
    let controls = capabilities(&e);
    assert!(controls.contains(&Control::OpenClose));
    assert!(controls.contains(&Control::Stop));
    assert!(!controls.contains(&Control::Position));
}

#[test]
fn remotes_can_be_turned_on_and_off() {
    let e = entity("remote.living_room_apple_tv", "on", obj(vec![]));
    assert_eq!(capabilities(&e), vec![Control::Toggle]);
}

#[test]
fn sensors_are_read_only() {
    let e = entity("sensor.temp", "21.5", obj(vec![("unit_of_measurement", text("°C"))]));
    assert_eq!(capabilities(&e), vec![Control::ReadOnly]);
}

#[test]
fn active_state_follows_the_domains_own_meaning() {
    assert!(!draw(&entity("lock.front", "locked", obj(vec![])), None, None).active);
    assert!(draw(&entity("lock.front", "unlocked", obj(vec![])), None, None).active);
    assert!(draw(&entity("cover.door", "open", obj(vec![])), None, None).active);
    assert!(draw(&entity("climate.hall", "heat", obj(vec![])), None, None).active);
    assert!(!draw(&entity("climate.hall", "off", obj(vec![])), None, None).active);
}

#[test]
fn sensitive_attributes_never_reach_a_row() {
    let e = entity(
        "camera.front_door",
        "idle",
        obj(vec![
            ("friendly_name", text("Front Door")),
            ("access_token", text("sekrit")),
            ("entity_picture", text("/api/camera_proxy/camera.front_door?token=sekrit")),
            ("latitude", float(51.5)),
            ("longitude", float(-0.1)),
        ]),
    );
    let row = draw(&e, None, None);
    for banned in ["access_token", "entity_picture", "latitude", "longitude"] {
        assert!(!row.attributes.contains_key(banned), "{banned} leaked into the row");
    }
    assert_eq!(row.attributes.get("friendly_name").unwrap(), &text("Front Door"));
}

#[test]
fn only_attributes_the_controls_need_are_carried() {
    let e = entity(
        "light.desk",
        "on",
        obj(vec![
            ("supported_color_modes", list(vec![text("onoff")])),
            ("brightness", integer(200)),
            ("hs_color", list(vec![integer(0), integer(0)])),
        ]),
    );
    let row = draw(&e, None, None);
    assert!(!row.attributes.contains_key("brightness"));
    assert!(!row.attributes.contains_key("hs_color"));
}

#[test]
fn server_controlled_names_cannot_carry_markup() {
    let e = entity("light.a", "on", obj(vec![("friendly_name", text("<img src=x>Desk"))]));
    assert_eq!(draw(&e, None, None).name, "img src=xDesk");

    let e = entity("sensor.a", "21", obj(vec![("unit_of_measurement", text("<b>C"))]));
    assert!(!draw(&e, None, None).display_state.contains('<'));
}

#[test]
fn names_prefer_the_registry_override_then_the_friendly_name() {
    let e = entity("light.desk", "on", obj(vec![("friendly_name", text("Desk Lamp"))]));
    assert_eq!(draw(&e, Some("Reading Light"), None).name, "Reading Light");
    assert_eq!(draw(&e, None, None).name, "Desk Lamp");

    let bare = entity("light.nameless", "on", obj(vec![]));
    assert_eq!(draw(&bare, None, None).name, "light.nameless");
}

#[test]
fn a_device_class_picks_the_icon_the_dashboard_shows() {
    let power = entity("sensor.plug_power", "18", obj(vec![("device_class", text("power"))]));
    assert_eq!(draw(&power, None, None).icon, "mdi:flash");

    let energy = entity("sensor.plug_energy", "4.2", obj(vec![("device_class", text("energy"))]));
    assert_eq!(draw(&energy, None, None).icon, "mdi:lightning-bolt");

    let temp = entity("sensor.hall", "21", obj(vec![("device_class", text("temperature"))]));
    assert_eq!(draw(&temp, None, None).icon, "mdi:thermometer");

    // an outlet reads its state, a plain sensor does not
    let on = entity("switch.plug", "on", obj(vec![("device_class", text("outlet"))]));
    let off = entity("switch.plug", "off", obj(vec![("device_class", text("outlet"))]));
    assert_eq!(draw(&on, None, None).icon, "mdi:power-plug");
    assert_eq!(draw(&off, None, None).icon, "mdi:power-plug-off");

    // an entity's own icon still wins over the class
    let explicit =
        entity("sensor.plug_power", "18", obj(vec![("device_class", text("power")), ("icon", text("mdi:desk"))]));
    assert_eq!(draw(&explicit, None, None).icon, "mdi:desk");
}

#[test]
fn binary_sensors_use_home_assistants_own_pair() {
    let on = draw(&entity("binary_sensor.door", "on", obj(vec![])), None, None);
    let off = draw(&entity("binary_sensor.door", "off", obj(vec![])), None, None);
    assert_eq!(on.icon, "mdi:checkbox-marked-circle");
    assert_eq!(off.icon, "mdi:checkbox-blank-circle-outline");
    assert!(!on.glyph.is_empty() && !off.glyph.is_empty());
}

#[test]
fn icons_fall_back_by_domain_and_track_light_state() {
    let on = draw(&entity("light.a", "on", obj(vec![])), None, None);
    let off = draw(&entity("light.a", "off", obj(vec![])), None, None);
    assert_eq!(on.icon, "mdi:lightbulb");
    assert_eq!(off.icon, "mdi:lightbulb-off");

    let custom = draw(&entity("light.a", "on", obj(vec![("icon", text("mdi:desk"))])), None, None);
    assert_eq!(custom.icon, "mdi:desk");
}

#[test]
fn every_row_carries_a_glyph_to_draw() {
    let known = draw(&entity("light.a", "on", obj(vec![("icon", text("mdi:desk-lamp"))])), None, None);
    assert!(!known.glyph.is_empty());

    let unknown = draw(&entity("light.a", "on", obj(vec![("icon", text("mdi:not-a-real-icon"))])), None, None);
    assert!(!unknown.glyph.is_empty(), "an unknown icon must fall back, not blank out");

    let bare = draw(&entity("sensor.x", "1", obj(vec![])), None, None);
    assert!(!bare.glyph.is_empty());
}

#[test]
fn unavailable_entities_are_marked_and_read_plainly() {
    let row = draw(&entity("light.gone", "unavailable", obj(vec![])), None, None);
    assert!(row.unavailable);
    assert!(!row.active);
    assert_eq!(row.display_state, "Unavailable");
}

#[test]
fn display_state_carries_units_and_titlecases_enums() {
    let sensor = draw(&entity("sensor.t", "21.5", obj(vec![("unit_of_measurement", text("°C"))])), None, None);
    assert_eq!(sensor.display_state, "21.5 °C");

    let climate = draw(&entity("climate.h", "heat_cool", obj(vec![])), None, None);
    assert_eq!(climate.display_state, "Heat cool");

    let light = draw(&entity("light.a", "on", obj(vec![])), None, None);
    assert_eq!(light.display_state, "On");
}

#[test]
fn a_state_without_an_entity_id_draws_no_row() {
    let e = obj(vec![("state", text("on"))]);
    assert!(row(&e, None, None, &font()).is_none());
    let e = obj(vec![("entity_id", integer(3)), ("state", text("on"))]);
    assert!(row(&e, None, None, &font()).is_none());
}

#[test]
fn a_row_records_its_entity_domain_and_state() {
    let r = draw(&entity("lock.front", "locked", obj(vec![])), None, None);
    assert_eq!(r.entity_id, "lock.front");
    assert_eq!(r.domain, "lock");
    assert_eq!(r.state, "locked");
    assert_eq!(r.display_state, "Locked");
    assert_eq!(r.controls, vec![Control::Lock]);
    assert_eq!(r.icon, "mdi:lock");
    // no glyph for the lock in this font, and none for its fallback either
    assert_eq!(r.glyph, "");
    let missing_state = draw(&obj(vec![("entity_id", text("light.x"))]), None, None);
    assert_eq!(missing_state.state, "unknown");
    assert!(missing_state.unavailable);
}

#[test]
fn a_registry_icon_wins_unless_it_is_empty() {
    let e = entity("light.a", "on", obj(vec![("icon", text("mdi:desk"))]));
    assert_eq!(draw(&e, None, Some("mdi:desk-lamp")).icon, "mdi:desk-lamp");
    assert_eq!(draw(&e, None, Some("")).icon, "mdi:desk");
    let named = draw(&e, Some("<>"), None);
    assert_eq!(named.name, "light.a");
}

#[test]
fn activity_and_default_icons_by_domain() {
    assert!(is_active("light", "on"));
    assert!(!is_active("light", "off"));
    assert!(is_active("lock", "unlocked"));
    assert!(!is_active("lock", "locked"));
    assert!(is_active("media_player", "playing"));
    assert_eq!(default_icon("fan", None, true), "mdi:fan");
    assert_eq!(default_icon("vacuum", None, true), "mdi:help-circle-outline");
    assert_eq!(default_icon("sensor", Some("something_new"), true), "mdi:eye");
    assert_eq!(default_icon("switch", Some("outlet"), false), "mdi:power-plug-off");
}
