use atriumd::device_icons::{for_binary_sensor, for_cover, for_media_player, for_sensor, for_switch};

#[test]
fn an_unmapped_class_falls_through_to_the_domain_default() {
    assert_eq!(for_sensor(Some("something_new")), None);
    assert_eq!(for_sensor(None), None);
    assert_eq!(for_binary_sensor(None, true), None);
}

#[test]
fn classes_map_onto_the_dashboards_icons() {
    assert_eq!(for_sensor(Some("power")), Some("mdi:flash"));
    assert_eq!(for_sensor(Some("reactive_power")), Some("mdi:flash"));
    assert_eq!(for_sensor(Some("pm25")), Some("mdi:molecule"));
    assert_eq!(for_sensor(Some("wind_speed")), Some("mdi:weather-windy"));
    assert_eq!(for_binary_sensor(Some("door"), true), Some("mdi:door-open"));
    assert_eq!(for_binary_sensor(Some("door"), false), Some("mdi:door-closed"));
    assert_eq!(for_binary_sensor(Some("smoke"), true), Some("mdi:alert-circle"));
    assert_eq!(for_switch(Some("outlet"), false), Some("mdi:power-plug-off"));
    assert_eq!(for_switch(Some("switch"), true), Some("mdi:toggle-switch-variant"));
    assert_eq!(for_switch(Some("other"), true), None);
    assert_eq!(for_cover(Some("garage"), true), Some("mdi:garage-open"));
    assert_eq!(for_cover(Some("garage"), false), Some("mdi:garage"));
    assert_eq!(for_media_player(Some("tv")), Some("mdi:television"));
    assert_eq!(for_media_player(Some("projector")), None);
}

#[test]
fn every_cover_class_resolves_in_both_states() {
    for class in ["awning", "blind", "curtain", "damper", "door", "garage", "gate", "shade", "shutter", "window"] {
        for active in [true, false] {
            assert!(for_cover(Some(class), active).is_some(), "cover/{class} unmapped");
        }
    }
}

#[test]
fn the_classes_seen_on_a_real_instance_are_all_mapped() {
    for class in ["power", "voltage", "current", "energy", "battery", "temperature", "humidity", "distance", "timestamp",
        "aqi", "pm25"] {
        assert!(for_sensor(Some(class)).is_some(), "{class} unmapped");
    }
    for class in ["connectivity", "occupancy", "problem"] {
        for active in [true, false] {
            assert!(for_binary_sensor(Some(class), active).is_some(), "{class} unmapped");
        }
    }
    for active in [true, false] {
        assert!(for_switch(Some("outlet"), active).is_some());
        assert!(for_cover(Some("garage"), active).is_some());
    }
    for class in ["speaker", "receiver"] {
        assert!(for_media_player(Some(class)).is_some());
    }
}

#[test]
fn binary_sensor_icons_come_in_distinct_pairs() {
    for class in [
        "battery", "battery_charging", "carbon_monoxide", "cold", "connectivity", "door", "garage_door", "gas",
        "heat", "light", "lock", "moisture", "motion", "occupancy", "opening", "plug", "power", "presence",
        "problem", "running", "safety", "smoke", "sound", "tamper", "update", "vibration", "window", "no_such_class",
    ] {
        let on = for_binary_sensor(Some(class), true);
        let off = for_binary_sensor(Some(class), false);
        assert_eq!(on.is_some(), off.is_some(), "{class}");
        if on.is_some() {
            assert_ne!(on, off, "{class}");
        }
    }
    assert_eq!(for_binary_sensor(Some("no_such_class"), true), None);
}
