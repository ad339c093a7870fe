use atriumd::action::{resolve, Error, ServiceCall};
use atriumd::json::{Json, JsonMap, Number};

fn obj(members: Vec<(&str, Json)>) -> Json {
    Json::Object(JsonMap { entries: members.into_iter().map(|(k, v)| (k.to_string(), v)).collect() })
}

fn empty() -> Json {
    obj(vec![])
}

fn integer(v: i64) -> Json {
    if v >= 0 {
        Json::Number(Number::PosInt(v as u64))
    } else {
        Json::Number(Number::NegInt(v))
    }
}

fn float(v: f64) -> Json {
    Json::Number(Number::Float(v.to_bits()))
}

fn text(v: &str) -> Json {
    Json::Str(v.to_string())
}

fn ok(entity: &str, action: &str, data: Json) -> ServiceCall {
    match resolve(entity, action, &data) {
        Ok(c) => c,
        Err(e) => panic!("{entity}/{action} should resolve: {}", e.message()),
    }
}

#[test]
fn toggling_maps_onto_the_entitys_own_domain() {
    let c = ok("light.desk", "toggle", empty());
    assert_eq!((c.domain.as_str(), c.service.as_str()), ("light", "toggle"));
    let c = ok("switch.pump", "turnOff", empty());
    assert_eq!((c.domain.as_str(), c.service.as_str()), ("switch", "turn_off"));
}

#[test]
fn scenes_and_scripts_activate_through_turn_on_but_buttons_press() {
    assert_eq!(ok("scene.movie", "activate", empty()).service, "turn_on");
    assert_eq!(ok("script.bedtime", "activate", empty()).service, "turn_on");
    assert_eq!(ok("button.doorbell", "activate", empty()).service, "press");
}

#[test]
fn brightness_is_clamped_and_zero_turns_the_light_off() {
    let c = ok("light.desk", "setBrightness", obj(vec![("brightness", integer(128))]));
    assert_eq!(c.service, "turn_on");
    assert_eq!(c.data.get("brightness"), Some(&integer(128)));

    assert_eq!(ok("light.desk", "setBrightness", obj(vec![("brightness", integer(0))])).service, "turn_off");

    assert_eq!(
        resolve("light.desk", "setBrightness", &obj(vec![("brightness", integer(999))])),
        Err(Error::BadArgument("brightness"))
    );
    assert_eq!(
        resolve("light.desk", "setBrightness", &obj(vec![("brightness", integer(-5))])),
        Err(Error::BadArgument("brightness"))
    );
}

#[test]
fn out_of_range_values_are_refused_rather_than_forwarded() {
    assert!(resolve("cover.door", "setPosition", &obj(vec![("position", integer(150))])).is_err());
    assert!(resolve("media_player.tv", "setVolume", &obj(vec![("level", float(2.0))])).is_err());
    assert!(resolve("light.a", "setColor", &obj(vec![("hue", integer(400)), ("saturation", integer(50))])).is_err());
    assert!(resolve("light.a", "setColorTemp", &obj(vec![("kelvin", integer(50))])).is_err());
    assert!(resolve("fan.a", "setSpeed", &obj(vec![("percentage", integer(101))])).is_err());
}

#[test]
fn a_temperature_band_must_be_the_right_way_round() {
    let c = ok("climate.hall", "setTemperatureRange", obj(vec![("low", integer(18)), ("high", integer(24))]));
    assert_eq!(c.data.get("target_temp_low"), Some(&float(18.0)));
    assert_eq!(c.data.get("target_temp_high"), Some(&float(24.0)));
    assert_eq!(
        resolve("climate.hall", "setTemperatureRange", &obj(vec![("low", integer(24)), ("high", integer(18))])),
        Err(Error::BadArgument("low/high"))
    );
}

#[test]
fn missing_or_wrongly_typed_arguments_are_refused() {
    assert_eq!(resolve("light.desk", "setBrightness", &empty()), Err(Error::BadArgument("brightness")));
    assert_eq!(
        resolve("light.desk", "setBrightness", &obj(vec![("brightness", text("bright"))])),
        Err(Error::BadArgument("brightness"))
    );
    assert_eq!(
        resolve("climate.hall", "setHvacMode", &obj(vec![("mode", text(""))])),
        Err(Error::BadArgument("mode"))
    );
    // A NaN cannot be written as JSON; it arrives as null.
    assert!(resolve("media_player.tv", "setVolume", &obj(vec![("level", Json::Null)])).is_err());
}

#[test]
fn temperatures_outside_any_plausible_setpoint_are_refused() {
    assert!(resolve("climate.hall", "setTemperature", &obj(vec![("temperature", integer(500))])).is_err());
    assert!(resolve("climate.hall", "setTemperature", &obj(vec![("temperature", integer(-273))])).is_err());
    assert!(resolve("climate.hall", "setTemperature", &obj(vec![("temperature", integer(21))])).is_ok());
    assert!(resolve("climate.hall", "setTemperatureRange", &obj(vec![("low", integer(-400)), ("high", integer(20))]))
        .is_err());
}

#[test]
fn an_action_a_domain_does_not_offer_is_refused() {
    assert!(matches!(resolve("sensor.temperature", "toggle", &empty()), Err(Error::Unsupported { .. })));
    assert!(matches!(resolve("light.desk", "unlock", &empty()), Err(Error::Unsupported { .. })));
    assert!(matches!(resolve("cover.door", "playPause", &empty()), Err(Error::Unsupported { .. })));
}

#[test]
fn there_is_no_action_that_names_its_own_service() {
    for attempt in ["call_service", "homeassistant.restart", "shell_command.rm", "turn_on"] {
        assert!(
            resolve("light.desk", attempt, &obj(vec![("service", text("shell_command.rm"))])).is_err()
                || !matches!(attempt, "call_service" | "homeassistant.restart" | "shell_command.rm"),
            "{attempt} must not resolve"
        );
    }
    let c = ok("light.desk", "toggle", obj(vec![("domain", text("shell_command")), ("service", text("rm"))]));
    assert_eq!(c.domain, "light");
    assert_eq!(c.service, "toggle");
}

#[test]
fn malformed_entity_ids_are_refused() {
    for bad in ["", "light", "light.", ".desk", "Light.Desk", "light.desk; rm -rf /", "light..desk"] {
        assert_eq!(resolve(bad, "toggle", &empty()), Err(Error::BadEntityId), "{bad} should be refused");
    }
}

#[test]
fn a_resolved_call_targets_the_entity_with_empty_data_where_none_is_needed() {
    let c = ok("lock.front", "unlock", obj(vec![("entity_id", text("lock.back"))]));
    assert_eq!(c.entity_id, "lock.front");
    assert_eq!(c.service, "unlock");
    assert_eq!(c.data, empty());
}

#[test]
fn every_argument_free_action_has_its_service() {
    let cases = [
        ("humidifier.a", "turnOn", "humidifier", "turn_on"),
        ("input_button.a", "activate", "input_button", "press"),
        ("lock.a", "lock", "lock", "lock"),
        ("cover.a", "open", "cover", "open_cover"),
        ("cover.a", "close", "cover", "close_cover"),
        ("cover.a", "stop", "cover", "stop_cover"),
        ("media_player.a", "playPause", "media_player", "media_play_pause"),
        ("media_player.a", "next", "media_player", "media_next_track"),
        ("media_player.a", "previous", "media_player", "media_previous_track"),
        ("climate.a", "turnOff", "climate", "turn_off"),
    ];
    for (entity, action, domain, service) in cases {
        let c = ok(entity, action, empty());
        assert_eq!((c.domain.as_str(), c.service.as_str()), (domain, service), "{entity}/{action}");
    }
}

#[test]
fn brightness_and_positions_round_half_up() {
    let c = ok("light.desk", "setBrightness", obj(vec![("brightness", float(127.5))]));
    assert_eq!(c.data.get("brightness"), Some(&integer(128)));
    let c = ok("light.desk", "setBrightness", obj(vec![("brightness", float(1.0))]));
    assert_eq!(c.service, "turn_on");
    assert_eq!(c.data.get("brightness"), Some(&integer(1)));
    let c = ok("light.desk", "setBrightness", obj(vec![("brightness", float(0.99))]));
    assert_eq!(c.service, "turn_off");
    let c = ok("cover.door", "setPosition", obj(vec![("position", float(49.4))]));
    assert_eq!(c.data, obj(vec![("position", integer(49))]));
    let c = ok("fan.a", "setSpeed", obj(vec![("percentage", float(33.5))]));
    assert_eq!(c.data, obj(vec![("percentage", integer(34))]));
    let c = ok("light.desk", "setColorTemp", obj(vec![("kelvin", float(2700.4))]));
    assert_eq!(c.data, obj(vec![("color_temp_kelvin", integer(2700))]));
}

#[test]
fn floats_are_forwarded_as_floats() {
    let c = ok("light.a", "setColor", obj(vec![("hue", integer(120)), ("saturation", float(55.5))]));
    assert_eq!(c.data, obj(vec![("hs_color", Json::Array(vec![float(120.0), float(55.5)]))]));
    let c = ok("media_player.tv", "setVolume", obj(vec![("level", float(0.25))]));
    assert_eq!(c.data, obj(vec![("volume_level", float(0.25))]));
    let c = ok("media_player.tv", "setVolume", obj(vec![("level", integer(1))]));
    assert_eq!(c.data, obj(vec![("volume_level", float(1.0))]));
    let c = ok("climate.hall", "setTemperature", obj(vec![("temperature", integer(-50))]));
    assert_eq!(c.data, obj(vec![("temperature", float(-50.0))]));
    let c = ok("climate.hall", "setTemperature", obj(vec![("temperature", float(21.5))]));
    assert_eq!(c.data, obj(vec![("temperature", float(21.5))]));
}

#[test]
fn each_refusal_names_what_was_wrong() {
    assert_eq!(
        resolve("light.a", "setColor", &obj(vec![("saturation", integer(5))])),
        Err(Error::BadArgument("hue"))
    );
    assert_eq!(
        resolve("light.a", "setColor", &obj(vec![("hue", integer(5))])),
        Err(Error::BadArgument("saturation"))
    );
    assert_eq!(
        resolve("light.a", "setColor", &obj(vec![("hue", integer(5)), ("saturation", integer(101))])),
        Err(Error::BadArgument("hue/saturation"))
    );
    assert_eq!(
        resolve("climate.a", "setTemperatureRange", &obj(vec![("low", integer(5))])),
        Err(Error::BadArgument("high"))
    );
    assert_eq!(
        resolve("media_player.a", "setMuted", &obj(vec![("muted", text("yes"))])),
        Err(Error::BadArgument("muted"))
    );
    assert_eq!(
        resolve("media_player.a", "setVolume", &obj(vec![("level", float(f64::NAN))])),
        Err(Error::BadArgument("level"))
    );
    assert_eq!(
        resolve("media_player.a", "setVolume", &obj(vec![("level", float(f64::INFINITY))])),
        Err(Error::BadArgument("level"))
    );
    let unsupported = resolve("sensor.temperature", "toggle", &empty()).unwrap_err();
    assert_eq!(
        unsupported,
        Error::Unsupported { action: "toggle".to_string(), domain: "sensor".to_string() }
    );
    assert_eq!(unsupported.message(), "\u{201c}toggle\u{201d} is not something a sensor entity can do");
    assert_eq!(Error::BadEntityId.message(), "not a valid entity id");
    assert_eq!(Error::BadArgument("level").message(), "missing or invalid level");
}

#[test]
fn climate_modes_and_muting_carry_their_value() {
    let c = ok("climate.hall", "setHvacMode", obj(vec![("mode", text("heat"))]));
    assert_eq!(c.service, "set_hvac_mode");
    assert_eq!(c.data, obj(vec![("hvac_mode", text("heat"))]));
    let c = ok("climate.hall", "setFanMode", obj(vec![("mode", text("auto"))]));
    assert_eq!(c.data, obj(vec![("fan_mode", text("auto"))]));
    let c = ok("climate.hall", "setPresetMode", obj(vec![("mode", text("eco"))]));
    assert_eq!(c.data, obj(vec![("preset_mode", text("eco"))]));
    let c = ok("media_player.tv", "setMuted", obj(vec![("muted", Json::Bool(true))]));
    assert_eq!(c.service, "volume_mute");
    assert_eq!(c.data, obj(vec![("is_volume_muted", Json::Bool(true))]));
}
