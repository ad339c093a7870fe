use vstd::prelude::*;

use crate::chars::{chars_eq_str, chars_of, opt_str_view};

// Home Assistant picks an entity's icon from its domain, its device class and,
// for some classes, its state. These tables follow the frontend's entity-icon
// tables so that the panel shows the same mark as the dashboard.
verus! {

/// The icon of a sensor of the given device class, if the class has one.
pub open spec fn sensor_icon(c: Seq<char>) -> Option<Seq<char>> {
    if c == "apparent_power"@ || c == "power"@ || c == "reactive_power"@ {
        Some("mdi:flash"@)
    } else if c == "aqi"@ {
        Some("mdi:air-filter"@)
    } else if c == "atmospheric_pressure"@ {
        Some("mdi:thermometer-lines"@)
    } else if c == "battery"@ {
        Some("mdi:battery"@)
    } else if c == "carbon_dioxide"@ {
        Some("mdi:molecule-co2"@)
    } else if c == "carbon_monoxide"@ {
        Some("mdi:molecule-co"@)
    } else if c == "current"@ {
        Some("mdi:current-ac"@)
    } else if c == "data_rate"@ {
        Some("mdi:transmission-tower"@)
    } else if c == "data_size"@ {
        Some("mdi:database"@)
    } else if c == "date"@ {
        Some("mdi:calendar"@)
    } else if c == "distance"@ {
        Some("mdi:arrow-left-right"@)
    } else if c == "duration"@ {
        Some("mdi:progress-clock"@)
    } else if c == "energy"@ || c == "energy_distance"@ {
        Some("mdi:lightning-bolt"@)
    } else if c == "energy_storage"@ {
        Some("mdi:car-battery"@)
    } else if c == "frequency"@ || c == "voltage"@ {
        Some("mdi:sine-wave"@)
    } else if c == "gas"@ {
        Some("mdi:meter-gas"@)
    } else if c == "humidity"@ || c == "moisture"@ {
        Some("mdi:water-percent"@)
    } else if c == "illuminance"@ {
        Some("mdi:brightness-5"@)
    } else if c == "irradiance"@ {
        Some("mdi:sun-wireless"@)
    } else if c == "monetary"@ {
        Some("mdi:cash"@)
    } else if c == "nitrogen_dioxide"@ || c == "nitrogen_monoxide"@ || c == "nitrous_oxide"@ || c == "ozone"@ || c == "pm1"@ || c == "pm10"@ || c == "pm25"@ || c == "sulphur_dioxide"@ || c == "volatile_organic_compounds"@ {
        Some("mdi:molecule"@)
    } else if c == "ph"@ {
        Some("mdi:ph"@)
    } else if c == "power_factor"@ {
        Some("mdi:angle-acute"@)
    } else if c == "precipitation"@ {
        Some("mdi:weather-rainy"@)
    } else if c == "precipitation_intensity"@ {
        Some("mdi:weather-pouring"@)
    } else if c == "pressure"@ {
        Some("mdi:gauge"@)
    } else if c == "signal_strength"@ {
        Some("mdi:wifi"@)
    } else if c == "sound_pressure"@ {
        Some("mdi:ear-hearing"@)
    } else if c == "speed"@ {
        Some("mdi:speedometer"@)
    } else if c == "temperature"@ {
        Some("mdi:thermometer"@)
    } else if c == "timestamp"@ {
        Some("mdi:clock"@)
    } else if c == "water"@ {
        Some("mdi:water"@)
    } else if c == "weight"@ {
        Some("mdi:weight"@)
    } else if c == "wind_speed"@ {
        Some("mdi:weather-windy"@)
    } else {
        None
    }
}
/// The icon of a binary sensor of the given device class, by whether it is on.
pub open spec fn binary_sensor_icon(c: Seq<char>, active: bool) -> Option<Seq<char>> {
    if c == "battery"@ {
        Some(if active { "mdi:battery-outline"@ } else { "mdi:battery"@ })
    } else if c == "battery_charging"@ {
        Some(if active { "mdi:battery-charging"@ } else { "mdi:battery"@ })
    } else if c == "carbon_monoxide"@ || c == "gas"@ || c == "problem"@ || c == "safety"@ || c == "smoke"@ || c == "tamper"@ {
        Some(if active { "mdi:alert-circle"@ } else { "mdi:check-circle"@ })
    } else if c == "cold"@ {
        Some(if active { "mdi:snowflake"@ } else { "mdi:thermometer"@ })
    } else if c == "connectivity"@ {
        Some(if active { "mdi:check-network-outline"@ } else { "mdi:close-network-outline"@ })
    } else if c == "door"@ {
        Some(if active { "mdi:door-open"@ } else { "mdi:door-closed"@ })
    } else if c == "garage_door"@ {
        Some(if active { "mdi:garage-open"@ } else { "mdi:garage"@ })
    } else if c == "heat"@ {
        Some(if active { "mdi:fire"@ } else { "mdi:thermometer"@ })
    } else if c == "light"@ {
        Some(if active { "mdi:brightness-7"@ } else { "mdi:brightness-5"@ })
    } else if c == "lock"@ {
        Some(if active { "mdi:lock-open"@ } else { "mdi:lock"@ })
    } else if c == "moisture"@ {
        Some(if active { "mdi:water"@ } else { "mdi:water-off"@ })
    } else if c == "motion"@ {
        Some(if active { "mdi:motion-sensor"@ } else { "mdi:motion-sensor-off"@ })
    } else if c == "occupancy"@ || c == "presence"@ {
        Some(if active { "mdi:home"@ } else { "mdi:home-outline"@ })
    } else if c == "opening"@ {
        Some(if active { "mdi:square-outline"@ } else { "mdi:square"@ })
    } else if c == "plug"@ || c == "power"@ {
        Some(if active { "mdi:power-plug"@ } else { "mdi:power-plug-off"@ })
    } else if c == "running"@ {
        Some(if active { "mdi:play"@ } else { "mdi:stop"@ })
    } else if c == "sound"@ {
        Some(if active { "mdi:music-note"@ } else { "mdi:music-note-off"@ })
    } else if c == "update"@ {
        Some(if active { "mdi:package-up"@ } else { "mdi:package"@ })
    } else if c == "vibration"@ {
        Some(if active { "mdi:vibrate"@ } else { "mdi:crop-portrait"@ })
    } else if c == "window"@ {
        Some(if active { "mdi:window-open"@ } else { "mdi:window-closed"@ })
    } else {
        None
    }
}
/// The icon of a switch of the given device class, by whether it is on.
pub open spec fn switch_icon(c: Seq<char>, active: bool) -> Option<Seq<char>> {
    if c == "outlet"@ {
        Some(if active { "mdi:power-plug"@ } else { "mdi:power-plug-off"@ })
    } else if c == "switch"@ {
        Some(if active { "mdi:toggle-switch-variant"@ } else { "mdi:toggle-switch-variant-off"@ })
    } else {
        None
    }
}
/// The icon of a cover of the given device class, by whether it is open.
pub open spec fn cover_icon(c: Seq<char>, active: bool) -> Option<Seq<char>> {
    if c == "awning"@ {
        Some(if active { "mdi:window-open"@ } else { "mdi:window-closed"@ })
    } else if c == "blind"@ {
        Some(if active { "mdi:blinds-open"@ } else { "mdi:blinds"@ })
    } else if c == "curtain"@ {
        Some(if active { "mdi:curtains"@ } else { "mdi:curtains-closed"@ })
    } else if c == "damper"@ {
        Some(if active { "mdi:checkbox-blank-circle-outline"@ } else { "mdi:circle-slice-8"@ })
    } else if c == "door"@ {
        Some(if active { "mdi:door-open"@ } else { "mdi:door-closed"@ })
    } else if c == "garage"@ {
        Some(if active { "mdi:garage-open"@ } else { "mdi:garage"@ })
    } else if c == "gate"@ {
        Some(if active { "mdi:gate-open"@ } else { "mdi:gate"@ })
    } else if c == "shade"@ {
        Some(if active { "mdi:roller-shade"@ } else { "mdi:roller-shade-closed"@ })
    } else if c == "shutter"@ {
        Some(if active { "mdi:window-shutter-open"@ } else { "mdi:window-shutter"@ })
    } else if c == "window"@ {
        Some(if active { "mdi:window-open"@ } else { "mdi:window-closed"@ })
    } else {
        None
    }
}
/// The icon of a media player of the given device class, if the class has one.
pub open spec fn media_player_icon(c: Seq<char>) -> Option<Seq<char>> {
    if c == "receiver"@ {
        Some("mdi:audio-video"@)
    } else if c == "speaker"@ {
        Some("mdi:speaker"@)
    } else if c == "tv"@ {
        Some("mdi:television"@)
    } else {
        None
    }
}
/// The icon a sensor's device class calls for; `None` where the class has none or there is no class.
pub fn for_sensor(device_class: Option<&str>) -> (r: Option<&'static str>)
    ensures
        opt_str_view(r) == match device_class { Some(c) => sensor_icon(c@), None => None },
{
    let c = match device_class {
        Some(c) => chars_of(c),
        None => return None,
    };
    if chars_eq_str(&c, "apparent_power") || chars_eq_str(&c, "power") || chars_eq_str(&c, "reactive_power") {
        Some("mdi:flash")
    } else if chars_eq_str(&c, "aqi") {
        Some("mdi:air-filter")
    } else if chars_eq_str(&c, "atmospheric_pressure") {
        Some("mdi:thermometer-lines")
    } else if chars_eq_str(&c, "battery") {
        Some("mdi:battery")
    } else if chars_eq_str(&c, "carbon_dioxide") {
        Some("mdi:molecule-co2")
    } else if chars_eq_str(&c, "carbon_monoxide") {
        Some("mdi:molecule-co")
    } else if chars_eq_str(&c, "current") {
        Some("mdi:current-ac")
    } else if chars_eq_str(&c, "data_rate") {
        Some("mdi:transmission-tower")
    } else if chars_eq_str(&c, "data_size") {
        Some("mdi:database")
    } else if chars_eq_str(&c, "date") {
        Some("mdi:calendar")
    } else if chars_eq_str(&c, "distance") {
        Some("mdi:arrow-left-right")
    } else if chars_eq_str(&c, "duration") {
        Some("mdi:progress-clock")
    } else if chars_eq_str(&c, "energy") || chars_eq_str(&c, "energy_distance") {
        Some("mdi:lightning-bolt")
    } else if chars_eq_str(&c, "energy_storage") {
        Some("mdi:car-battery")
    } else if chars_eq_str(&c, "frequency") || chars_eq_str(&c, "voltage") {
        Some("mdi:sine-wave")
    } else if chars_eq_str(&c, "gas") {
        Some("mdi:meter-gas")
    } else if chars_eq_str(&c, "humidity") || chars_eq_str(&c, "moisture") {
        Some("mdi:water-percent")
    } else if chars_eq_str(&c, "illuminance") {
        Some("mdi:brightness-5")
    } else if chars_eq_str(&c, "irradiance") {
        Some("mdi:sun-wireless")
    } else if chars_eq_str(&c, "monetary") {
        Some("mdi:cash")
    } else if chars_eq_str(&c, "nitrogen_dioxide") || chars_eq_str(&c, "nitrogen_monoxide") || chars_eq_str(&c, "nitrous_oxide") || chars_eq_str(&c, "ozone") || chars_eq_str(&c, "pm1") || chars_eq_str(&c, "pm10") || chars_eq_str(&c, "pm25") || chars_eq_str(&c, "sulphur_dioxide") || chars_eq_str(&c, "volatile_organic_compounds") {
        Some("mdi:molecule")
    } else if chars_eq_str(&c, "ph") {
        Some("mdi:ph")
    } else if chars_eq_str(&c, "power_factor") {
        Some("mdi:angle-acute")
    } else if chars_eq_str(&c, "precipitation") {
        Some("mdi:weather-rainy")
    } else if chars_eq_str(&c, "precipitation_intensity") {
        Some("mdi:weather-pouring")
    } else if chars_eq_str(&c, "pressure") {
        Some("mdi:gauge")
    } else if chars_eq_str(&c, "signal_strength") {
        Some("mdi:wifi")
    } else if chars_eq_str(&c, "sound_pressure") {
        Some("mdi:ear-hearing")
    } else if chars_eq_str(&c, "speed") {
        Some("mdi:speedometer")
    } else if chars_eq_str(&c, "temperature") {
        Some("mdi:thermometer")
    } else if chars_eq_str(&c, "timestamp") {
        Some("mdi:clock")
    } else if chars_eq_str(&c, "water") {
        Some("mdi:water")
    } else if chars_eq_str(&c, "weight") {
        Some("mdi:weight")
    } else if chars_eq_str(&c, "wind_speed") {
        Some("mdi:weather-windy")
    } else {
        None
    }
}
/// The icon a binary sensor's device class calls for, in its on or off form.
pub fn for_binary_sensor(device_class: Option<&str>, active: bool) -> (r: Option<&'static str>)
    ensures
        opt_str_view(r) == match device_class { Some(c) => binary_sensor_icon(c@, active), None => None },
{
    let c = match device_class {
        Some(c) => chars_of(c),
        None => return None,
    };
    let (on, off) =
    if chars_eq_str(&c, "battery") {
        ("mdi:battery-outline", "mdi:battery")
    } else if chars_eq_str(&c, "battery_charging") {
        ("mdi:battery-charging", "mdi:battery")
    } else if chars_eq_str(&c, "carbon_monoxide") || chars_eq_str(&c, "gas") || chars_eq_str(&c, "problem") || chars_eq_str(&c, "safety") || chars_eq_str(&c, "smoke") || chars_eq_str(&c, "tamper") {
        ("mdi:alert-circle", "mdi:check-circle")
    } else if chars_eq_str(&c, "cold") {
        ("mdi:snowflake", "mdi:thermometer")
    } else if chars_eq_str(&c, "connectivity") {
        ("mdi:check-network-outline", "mdi:close-network-outline")
    } else if chars_eq_str(&c, "door") {
        ("mdi:door-open", "mdi:door-closed")
    } else if chars_eq_str(&c, "garage_door") {
        ("mdi:garage-open", "mdi:garage")
    } else if chars_eq_str(&c, "heat") {
        ("mdi:fire", "mdi:thermometer")
    } else if chars_eq_str(&c, "light") {
        ("mdi:brightness-7", "mdi:brightness-5")
    } else if chars_eq_str(&c, "lock") {
        ("mdi:lock-open", "mdi:lock")
    } else if chars_eq_str(&c, "moisture") {
        ("mdi:water", "mdi:water-off")
    } else if chars_eq_str(&c, "motion") {
        ("mdi:motion-sensor", "mdi:motion-sensor-off")
    } else if chars_eq_str(&c, "occupancy") || chars_eq_str(&c, "presence") {
        ("mdi:home", "mdi:home-outline")
    } else if chars_eq_str(&c, "opening") {
        ("mdi:square-outline", "mdi:square")
    } else if chars_eq_str(&c, "plug") || chars_eq_str(&c, "power") {
        ("mdi:power-plug", "mdi:power-plug-off")
    } else if chars_eq_str(&c, "running") {
        ("mdi:play", "mdi:stop")
    } else if chars_eq_str(&c, "sound") {
        ("mdi:music-note", "mdi:music-note-off")
    } else if chars_eq_str(&c, "update") {
        ("mdi:package-up", "mdi:package")
    } else if chars_eq_str(&c, "vibration") {
        ("mdi:vibrate", "mdi:crop-portrait")
    } else if chars_eq_str(&c, "window") {
        ("mdi:window-open", "mdi:window-closed")
    } else {
        return None;
    };
    Some(if active { on } else { off })
}
/// The icon a switch's device class calls for, in its on or off form.
pub fn for_switch(device_class: Option<&str>, active: bool) -> (r: Option<&'static str>)
    ensures
        opt_str_view(r) == match device_class { Some(c) => switch_icon(c@, active), None => None },
{
    let c = match device_class {
        Some(c) => chars_of(c),
        None => return None,
    };
    let (on, off) =
    if chars_eq_str(&c, "outlet") {
        ("mdi:power-plug", "mdi:power-plug-off")
    } else if chars_eq_str(&c, "switch") {
        ("mdi:toggle-switch-variant", "mdi:toggle-switch-variant-off")
    } else {
        return None;
    };
    Some(if active { on } else { off })
}
/// The icon a cover's device class calls for, in its open or closed form.
pub fn for_cover(device_class: Option<&str>, active: bool) -> (r: Option<&'static str>)
    ensures
        opt_str_view(r) == match device_class { Some(c) => cover_icon(c@, active), None => None },
{
    let c = match device_class {
        Some(c) => chars_of(c),
        None => return None,
    };
    let (on, off) =
    if chars_eq_str(&c, "awning") {
        ("mdi:window-open", "mdi:window-closed")
    } else if chars_eq_str(&c, "blind") {
        ("mdi:blinds-open", "mdi:blinds")
    } else if chars_eq_str(&c, "curtain") {
        ("mdi:curtains", "mdi:curtains-closed")
    } else if chars_eq_str(&c, "damper") {
        ("mdi:checkbox-blank-circle-outline", "mdi:circle-slice-8")
    } else if chars_eq_str(&c, "door") {
        ("mdi:door-open", "mdi:door-closed")
    } else if chars_eq_str(&c, "garage") {
        ("mdi:garage-open", "mdi:garage")
    } else if chars_eq_str(&c, "gate") {
        ("mdi:gate-open", "mdi:gate")
    } else if chars_eq_str(&c, "shade") {
        ("mdi:roller-shade", "mdi:roller-shade-closed")
    } else if chars_eq_str(&c, "shutter") {
        ("mdi:window-shutter-open", "mdi:window-shutter")
    } else if chars_eq_str(&c, "window") {
        ("mdi:window-open", "mdi:window-closed")
    } else {
        return None;
    };
    Some(if active { on } else { off })
}
/// The icon a media player's device class calls for.
pub fn for_media_player(device_class: Option<&str>) -> (r: Option<&'static str>)
    ensures
        opt_str_view(r) == match device_class { Some(c) => media_player_icon(c@), None => None },
{
    let c = match device_class {
        Some(c) => chars_of(c),
        None => return None,
    };
    if chars_eq_str(&c, "receiver") {
        Some("mdi:audio-video")
    } else if chars_eq_str(&c, "speaker") {
        Some("mdi:speaker")
    } else if chars_eq_str(&c, "tv") {
        Some("mdi:television")
    } else {
        None
    }
}

/// A binary sensor's device class has an icon for both of its states or for
/// neither, and where it has them, the on and the off icon differ.
pub proof fn law_binary_sensor_icons_come_in_distinct_pairs(c: Seq<char>)
    ensures
        binary_sensor_icon(c, true) is Some <==> binary_sensor_icon(c, false) is Some,
        binary_sensor_icon(c, true) is Some ==> binary_sensor_icon(c, true) != binary_sensor_icon(c, false),
{
    reveal_strlit("mdi:battery-outline");
    reveal_strlit("mdi:battery");
    reveal_strlit("mdi:battery-charging");
    reveal_strlit("mdi:alert-circle");
    reveal_strlit("mdi:check-circle");
    reveal_strlit("mdi:snowflake");
    reveal_strlit("mdi:thermometer");
    reveal_strlit("mdi:check-network-outline");
    reveal_strlit("mdi:close-network-outline");
    reveal_strlit("mdi:door-open");
    reveal_strlit("mdi:door-closed");
    reveal_strlit("mdi:garage-open");
    reveal_strlit("mdi:garage");
    reveal_strlit("mdi:fire");
    reveal_strlit("mdi:brightness-7");
    reveal_strlit("mdi:brightness-5");
    reveal_strlit("mdi:lock-open");
    reveal_strlit("mdi:lock");
    reveal_strlit("mdi:water");
    reveal_strlit("mdi:water-off");
    reveal_strlit("mdi:motion-sensor");
    reveal_strlit("mdi:motion-sensor-off");
    reveal_strlit("mdi:home");
    reveal_strlit("mdi:home-outline");
    reveal_strlit("mdi:square-outline");
    reveal_strlit("mdi:square");
    reveal_strlit("mdi:power-plug");
    reveal_strlit("mdi:power-plug-off");
    reveal_strlit("mdi:play");
    reveal_strlit("mdi:stop");
    reveal_strlit("mdi:music-note");
    reveal_strlit("mdi:music-note-off");
    reveal_strlit("mdi:package-up");
    reveal_strlit("mdi:package");
    reveal_strlit("mdi:vibrate");
    reveal_strlit("mdi:crop-portrait");
    reveal_strlit("mdi:window-open");
    reveal_strlit("mdi:window-closed");
    assert("mdi:battery-outline"@.len() != "mdi:battery"@.len());
    assert("mdi:battery-outline"@ != "mdi:battery"@);
    assert("mdi:battery-charging"@.len() != "mdi:battery"@.len());
    assert("mdi:battery-charging"@ != "mdi:battery"@);
    assert("mdi:alert-circle"@[4] != "mdi:check-circle"@[4]);
    assert("mdi:alert-circle"@ != "mdi:check-circle"@);
    assert("mdi:snowflake"@.len() != "mdi:thermometer"@.len());
    assert("mdi:snowflake"@ != "mdi:thermometer"@);
    assert("mdi:check-network-outline"@[5] != "mdi:close-network-outline"@[5]);
    assert("mdi:check-network-outline"@ != "mdi:close-network-outline"@);
    assert("mdi:door-open"@.len() != "mdi:door-closed"@.len());
    assert("mdi:door-open"@ != "mdi:door-closed"@);
    assert("mdi:garage-open"@.len() != "mdi:garage"@.len());
    assert("mdi:garage-open"@ != "mdi:garage"@);
    assert("mdi:fire"@.len() != "mdi:thermometer"@.len());
    assert("mdi:fire"@ != "mdi:thermometer"@);
    assert("mdi:brightness-7"@[15] != "mdi:brightness-5"@[15]);
    assert("mdi:brightness-7"@ != "mdi:brightness-5"@);
    assert("mdi:lock-open"@.len() != "mdi:lock"@.len());
    assert("mdi:lock-open"@ != "mdi:lock"@);
    assert("mdi:water"@.len() != "mdi:water-off"@.len());
    assert("mdi:water"@ != "mdi:water-off"@);
    assert("mdi:motion-sensor"@.len() != "mdi:motion-sensor-off"@.len());
    assert("mdi:motion-sensor"@ != "mdi:motion-sensor-off"@);
    assert("mdi:home"@.len() != "mdi:home-outline"@.len());
    assert("mdi:home"@ != "mdi:home-outline"@);
    assert("mdi:square-outline"@.len() != "mdi:square"@.len());
    assert("mdi:square-outline"@ != "mdi:square"@);
    assert("mdi:power-plug"@.len() != "mdi:power-plug-off"@.len());
    assert("mdi:power-plug"@ != "mdi:power-plug-off"@);
    assert("mdi:play"@[4] != "mdi:stop"@[4]);
    assert("mdi:play"@ != "mdi:stop"@);
    assert("mdi:music-note"@.len() != "mdi:music-note-off"@.len());
    assert("mdi:music-note"@ != "mdi:music-note-off"@);
    assert("mdi:package-up"@.len() != "mdi:package"@.len());
    assert("mdi:package-up"@ != "mdi:package"@);
    assert("mdi:vibrate"@.len() != "mdi:crop-portrait"@.len());
    assert("mdi:vibrate"@ != "mdi:crop-portrait"@);
    assert("mdi:window-open"@.len() != "mdi:window-closed"@.len());
    assert("mdi:window-open"@ != "mdi:window-closed"@);
}

} // verus!
