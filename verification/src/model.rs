use vstd::prelude::*;

use crate::action::{law_switching_entities_toggle_and_turn_on_and_off, obj, resolve_spec, CallView, Refusal};
use crate::chars::{append_str, chars_eq_str, chars_of, opt_str_view, str_eq, string_of, to_uppercase, uppercase};
use crate::device_icons::{
    binary_sensor_icon, cover_icon, for_binary_sensor, for_cover, for_media_player, for_sensor, for_switch,
    media_player_icon, sensor_icon, switch_icon,
};
use crate::filter::{domain_of, domain_spec};
use crate::icons::{glyph_lookup, Glyphs};
use crate::json::{as_str_opt, clone_json, get_opt, json_as_str, json_as_u64, json_get, map_get, members_view, Json, JsonMap, JsonView};
use crate::text::{plain, plain_spec, valid_entity_id_spec};

verus! {

pub const MEDIA_PAUSE: u64 = 1;
pub const MEDIA_VOLUME_SET: u64 = 4;
pub const MEDIA_VOLUME_MUTE: u64 = 8;
pub const MEDIA_PREVIOUS: u64 = 16;
pub const MEDIA_NEXT: u64 = 32;
pub const MEDIA_PLAY: u64 = 16384;
pub const COVER_OPEN: u64 = 1;
pub const COVER_CLOSE: u64 = 2;
pub const COVER_SET_POSITION: u64 = 4;
pub const COVER_STOP: u64 = 8;
pub const CLIMATE_TARGET_TEMPERATURE: u64 = 1;
pub const CLIMATE_TARGET_TEMPERATURE_RANGE: u64 = 2;
pub const CLIMATE_FAN_MODE: u64 = 8;
pub const CLIMATE_PRESET_MODE: u64 = 16;
pub const FAN_SET_SPEED: u64 = 1;

/// A control the panel offers for an entity.
#[derive(Debug, Clone, Copy, PartialEq, Eq, Structural)]
pub enum Control {
    Toggle,
    Brightness,
    ColorTemp,
    Color,
    Activate,
    Lock,
    OpenClose,
    Position,
    Stop,
    Transport,
    Volume,
    HvacMode,
    Temperature,
    TemperatureRange,
    FanMode,
    PresetMode,
    FanSpeed,
    ReadOnly,
}

/// What the panel draws for one entity.
#[derive(Debug, PartialEq)]
pub struct Row {
    pub entity_id: String,
    pub domain: String,
    pub name: String,
    pub icon: String,
    pub glyph: String,
    pub state: String,
    pub display_state: String,
    pub active: bool,
    pub unavailable: bool,
    pub controls: Vec<Control>,
    pub attributes: JsonMap,
}

// ---------------------------------------------------------------------------
// The model.

/// Attribute `key` of an entity state.
pub open spec fn attr_of(e: JsonView, key: Seq<char>) -> Option<JsonView> {
    get_opt(json_get(e, "attributes"@), key)
}

/// Attribute `key` as a non-negative integer, 0 where it is not one.
pub open spec fn attr_u64_of(e: JsonView, key: Seq<char>) -> u64 {
    match attr_of(e, key) {
        Some(v) => match json_as_u64(v) {
            Some(u) => u,
            None => 0,
        },
        None => 0,
    }
}

/// Attribute `key` as text.
pub open spec fn attr_str_of(e: JsonView, key: Seq<char>) -> Option<Seq<char>> {
    as_str_opt(attr_of(e, key))
}

/// Whether a feature flag is set.
pub open spec fn has(bits: u64, flag: u64) -> bool {
    bits & flag != 0
}

/// Whether an entity in `state` counts as on, by its domain's own meaning.
pub open spec fn is_active_spec(domain: Seq<char>, state: Seq<char>) -> bool {
    if domain == "lock"@ {
        state == "unlocked"@
    } else if domain == "cover"@ {
        state == "open"@ || state == "opening"@
    } else if domain == "climate"@ {
        state != "off"@
    } else if domain == "media_player"@ {
        state == "playing"@ || state == "on"@ || state == "buffering"@
    } else {
        state == "on"@
    }
}

/// The texts among a list of JSON values, in order.
pub open spec fn str_items(items: Seq<JsonView>) -> Seq<Seq<char>>
    decreases items.len(),
{
    if items.len() == 0 {
        Seq::empty()
    } else {
        match json_as_str(items.last()) {
            Some(s) => str_items(items.drop_last()).push(s),
            None => str_items(items.drop_last()),
        }
    }
}

/// The colour modes a light supports, as listed in `supported_color_modes`.
pub open spec fn color_modes_of(e: JsonView) -> Seq<Seq<char>> {
    match attr_of(e, "supported_color_modes"@) {
        Some(JsonView::Array(items)) => str_items(items),
        _ => Seq::empty(),
    }
}

pub open spec fn is_color_mode(m: Seq<char>) -> bool {
    m == "hs"@ || m == "rgb"@ || m == "rgbw"@ || m == "rgbww"@ || m == "xy"@
}

/// The controls of a light with the given colour modes: on/off always,
/// brightness for any mode but plain on/off, colour temperature and colour
/// where a mode offers them.
pub open spec fn light_controls_of(modes: Seq<Seq<char>>) -> Seq<Control> {
    seq![Control::Toggle] + (if exists|i: int| 0 <= i < modes.len() && modes[i] != "onoff"@ {
        seq![Control::Brightness]
    } else {
        seq![]
    }) + (if modes.contains("color_temp"@) {
        seq![Control::ColorTemp]
    } else {
        seq![]
    }) + (if exists|i: int| 0 <= i < modes.len() && is_color_mode(modes[i]) {
        seq![Control::Color]
    } else {
        seq![]
    })
}

/// `c` if `b`, else nothing.
pub open spec fn opt_control(b: bool, c: Control) -> Seq<Control> {
    if b {
        seq![c]
    } else {
        seq![]
    }
}

/// The controls a domain offers, given the supported-feature bits and colour modes.
pub open spec fn domain_controls(domain: Seq<char>, bits: u64, modes: Seq<Seq<char>>) -> Seq<Control> {
    if domain == "light"@ {
        light_controls_of(modes)
    } else if domain == "switch"@ || domain == "input_boolean"@ || domain == "humidifier"@ || domain == "siren"@
        || domain == "remote"@ {
        seq![Control::Toggle]
    } else if domain == "fan"@ {
        seq![Control::Toggle] + opt_control(has(bits, FAN_SET_SPEED), Control::FanSpeed)
    } else if domain == "lock"@ {
        seq![Control::Lock]
    } else if domain == "scene"@ || domain == "script"@ || domain == "button"@ || domain == "input_button"@ {
        seq![Control::Activate]
    } else if domain == "cover"@ {
        opt_control(has(bits, COVER_OPEN) || has(bits, COVER_CLOSE), Control::OpenClose) + opt_control(
            has(bits, COVER_STOP),
            Control::Stop,
        ) + opt_control(has(bits, COVER_SET_POSITION), Control::Position)
    } else if domain == "media_player"@ {
        opt_control(
            has(bits, MEDIA_PLAY) || has(bits, MEDIA_PAUSE) || has(bits, MEDIA_NEXT) || has(bits, MEDIA_PREVIOUS),
            Control::Transport,
        ) + opt_control(has(bits, MEDIA_VOLUME_SET) || has(bits, MEDIA_VOLUME_MUTE), Control::Volume)
    } else if domain == "climate"@ {
        seq![Control::HvacMode] + opt_control(has(bits, CLIMATE_TARGET_TEMPERATURE), Control::Temperature)
            + opt_control(has(bits, CLIMATE_TARGET_TEMPERATURE_RANGE), Control::TemperatureRange) + opt_control(
            has(bits, CLIMATE_FAN_MODE),
            Control::FanMode,
        ) + opt_control(has(bits, CLIMATE_PRESET_MODE), Control::PresetMode)
    } else {
        seq![]
    }
}

/// The controls of an entity state: those of its domain, or read-only where
/// there are none or the state names no entity.
pub open spec fn capabilities_spec(e: JsonView) -> Seq<Control> {
    match as_str_opt(json_get(e, "entity_id"@)) {
        None => seq![Control::ReadOnly],
        Some(id) => {
            let c = domain_controls(domain_spec(id), attr_u64_of(e, "supported_features"@), color_modes_of(e));
            if c.len() == 0 {
                seq![Control::ReadOnly]
            } else {
                c
            }
        },
    }
}

/// The attributes a control needs.
pub open spec fn control_keys(c: Control) -> Seq<Seq<char>> {
    match c {
        Control::Brightness => seq!["brightness"@],
        Control::ColorTemp => seq!["color_temp_kelvin"@, "min_color_temp_kelvin"@, "max_color_temp_kelvin"@],
        Control::Color => seq!["hs_color"@, "rgb_color"@],
        Control::Position => seq!["current_position"@],
        Control::Transport => seq!["media_title"@, "media_artist"@],
        Control::Volume => seq!["volume_level"@, "is_volume_muted"@],
        Control::HvacMode => seq!["hvac_modes"@, "hvac_action"@, "current_temperature"@],
        Control::Temperature => seq!["temperature"@, "min_temp"@, "max_temp"@, "target_temp_step"@],
        Control::TemperatureRange => seq!["target_temp_low"@, "target_temp_high"@, "min_temp"@, "max_temp"@],
        Control::FanMode => seq!["fan_mode"@, "fan_modes"@],
        Control::PresetMode => seq!["preset_mode"@, "preset_modes"@],
        Control::FanSpeed => seq!["percentage"@, "percentage_step"@],
        _ => seq![],
    }
}

/// The attributes every row carries, then those its controls need.
pub open spec fn needed_keys(controls: Seq<Control>) -> Seq<Seq<char>>
    decreases controls.len(),
{
    if controls.len() == 0 {
        seq!["friendly_name"@, "device_class"@, "unit_of_measurement"@]
    } else {
        needed_keys(controls.drop_last()) + control_keys(controls.last())
    }
}

/// The attribute `key` that a row with `controls` carries: the entity's own,
/// where the key is needed and the entity's attributes are an object.
pub open spec fn carried(controls: Seq<Control>, e: JsonView, key: Seq<char>) -> Option<JsonView> {
    match json_get(e, "attributes"@) {
        Some(JsonView::Object(m)) => if needed_keys(controls).contains(key) {
            map_get(m, key)
        } else {
            None
        },
        _ => None,
    }
}

/// The keys of a list of members.
pub open spec fn member_keys(m: Seq<(Seq<char>, JsonView)>) -> Seq<Seq<char>> {
    Seq::new(m.len(), |i: int| m[i].0)
}

/// `s` with every `_` turned into a space.
pub open spec fn underscores_to_spaces(s: Seq<char>) -> Seq<char> {
    Seq::new(s.len(), |i: int| if s[i] == '_' { ' ' } else { s[i] })
}

/// How a state reads: unavailable states read "Unavailable"; a state with a
/// unit carries it; locks read Locked/Unlocked; on/off read On/Off; anything
/// else gets an upper-case first letter and spaces for underscores.
pub open spec fn display_state_spec(e: JsonView, domain: Seq<char>, state: Seq<char>) -> Seq<char> {
    if state == "unavailable"@ || state == "unknown"@ {
        "Unavailable"@
    } else if attr_str_of(e, "unit_of_measurement"@) is Some {
        state + " "@ + attr_str_of(e, "unit_of_measurement"@)->0
    } else if domain == "lock"@ && state == "locked"@ {
        "Locked"@
    } else if domain == "lock"@ && state == "unlocked"@ {
        "Unlocked"@
    } else if state == "on"@ {
        "On"@
    } else if state == "off"@ {
        "Off"@
    } else if state.len() == 0 {
        Seq::empty()
    } else {
        uppercase(state[0]) + underscores_to_spaces(state.drop_first())
    }
}

/// The icon a domain shows by default, after what its device class calls for.
pub open spec fn default_icon_spec(domain: Seq<char>, device_class: Option<Seq<char>>, active: bool) -> Seq<char> {
    let by_class = match device_class {
        None => None,
        Some(c) => if domain == "sensor"@ {
            sensor_icon(c)
        } else if domain == "binary_sensor"@ {
            binary_sensor_icon(c, active)
        } else if domain == "switch"@ {
            switch_icon(c, active)
        } else if domain == "cover"@ {
            cover_icon(c, active)
        } else if domain == "media_player"@ {
            media_player_icon(c)
        } else {
            None
        },
    };
    if by_class is Some {
        by_class->0
    } else if domain == "light"@ {
        if active {
            "mdi:lightbulb"@
        } else {
            "mdi:lightbulb-off"@
        }
    } else if domain == "switch"@ {
        "mdi:toggle-switch-outline"@
    } else if domain == "fan"@ {
        "mdi:fan"@
    } else if domain == "lock"@ {
        "mdi:lock"@
    } else if domain == "cover"@ {
        "mdi:window-shutter"@
    } else if domain == "climate"@ {
        "mdi:thermostat"@
    } else if domain == "media_player"@ {
        "mdi:speaker"@
    } else if domain == "scene"@ {
        "mdi:palette"@
    } else if domain == "script"@ {
        "mdi:script-text"@
    } else if domain == "button"@ || domain == "input_button"@ {
        "mdi:gesture-tap-button"@
    } else if domain == "binary_sensor"@ {
        if active {
            "mdi:checkbox-marked-circle"@
        } else {
            "mdi:checkbox-blank-circle-outline"@
        }
    } else if domain == "sensor"@ {
        "mdi:eye"@
    } else if domain == "humidifier"@ {
        "mdi:air-humidifier"@
    } else if domain == "remote"@ {
        "mdi:remote"@
    } else {
        "mdi:help-circle-outline"@
    }
}

// ---------------------------------------------------------------------------
// The code.

fn has_flag(bits: u64, flag: u64) -> (r: bool)
    ensures
        r == has(bits, flag),
{
    bits & flag != 0
}

fn attr<'a>(entity: &'a Json, key: &str) -> (r: Option<&'a Json>)
    ensures
        crate::json::opt_view(r) == attr_of(entity@, key@),
{
    match entity.get("attributes") {
        Some(a) => a.get(key),
        None => None,
    }
}

fn attr_u64(entity: &Json, key: &str) -> (r: u64)
    ensures
        r == attr_u64_of(entity@, key@),
{
    match attr(entity, key) {
        Some(v) => match v.as_u64() {
            Some(u) => u,
            None => 0,
        },
        None => 0,
    }
}

fn attr_str<'a>(entity: &'a Json, key: &str) -> (r: Option<&'a str>)
    ensures
        opt_str_view(r) == attr_str_of(entity@, key@),
{
    match attr(entity, key) {
        Some(v) => v.as_str(),
        None => None,
    }
}

/// Whether an entity in `state` counts as on, by its domain's own meaning.
pub fn is_active(domain: &str, state: &str) -> (r: bool)
    ensures
        r == is_active_spec(domain@, state@),
{
    if str_eq(domain, "lock") {
        str_eq(state, "unlocked")
    } else if str_eq(domain, "cover") {
        str_eq(state, "open") || str_eq(state, "opening")
    } else if str_eq(domain, "climate") {
        !str_eq(state, "off")
    } else if str_eq(domain, "media_player") {
        str_eq(state, "playing") || str_eq(state, "on") || str_eq(state, "buffering")
    } else {
        str_eq(state, "on")
    }
}

/// The colour modes a light lists.
fn color_modes(entity: &Json) -> (r: Vec<Vec<char>>)
    ensures
        r@.len() == color_modes_of(entity@).len(),
        forall|i: int| 0 <= i < r@.len() ==> (#[trigger] r@[i])@ == color_modes_of(entity@)[i],
{
    let items = match attr(entity, "supported_color_modes") {
        Some(Json::Array(items)) => items,
        _ => {
            return Vec::new();
        },
    };
    let ghost iv = Seq::new(items@.len(), |i: int| items@[i]@);
    proof {
        let a = attr_of(entity@, "supported_color_modes"@)->0;
        assert(a == crate::json::jv(Json::Array(*items)));
        assert(a->Array_0 =~= iv);
    }
    let mut r: Vec<Vec<char>> = Vec::new();
    let mut i: usize = 0;
    while i < items.len()
        invariant
            iv == Seq::new(items@.len(), |i: int| items@[i]@),
            i <= items@.len(),
            r@.len() == str_items(iv.take(i as int)).len(),
            forall|j: int| 0 <= j < r@.len() ==> (#[trigger] r@[j])@ == str_items(iv.take(i as int))[j],
        decreases items@.len() - i,
    {
        proof {
            assert(iv.take(i + 1).drop_last() =~= iv.take(i as int));
            assert(iv.take(i + 1).last() == items@[i as int]@);
        }
        match items[i].as_str() {
            Some(s) => {
                r.push(chars_of(s));
            },
            None => {},
        }
        i = i + 1;
    }
    proof {
        assert(iv.take(items@.len() as int) =~= iv);
    }
    r
}

fn light_controls(modes: &Vec<Vec<char>>) -> (r: Vec<Control>)
    ensures
        r@ == light_controls_of(Seq::new(modes@.len(), |i: int| modes@[i]@)),
{
    let ghost mv = Seq::new(modes@.len(), |i: int| modes@[i]@);
    let mut any_dimmable = false;
    let mut has_temp = false;
    let mut any_color = false;
    let mut i: usize = 0;
    while i < modes.len()
        invariant
            mv == Seq::new(modes@.len(), |i: int| modes@[i]@),
            i <= modes@.len(),
            any_dimmable == exists|j: int| 0 <= j < i && mv[j] != "onoff"@,
            has_temp == exists|j: int| 0 <= j < i && mv[j] == "color_temp"@,
            any_color == exists|j: int| 0 <= j < i && is_color_mode(mv[j]),
        decreases modes@.len() - i,
    {
        let m = &modes[i];
        assert(mv[i as int] == m@);
        if !chars_eq_str(m, "onoff") {
            any_dimmable = true;
        }
        if chars_eq_str(m, "color_temp") {
            has_temp = true;
        }
        if chars_eq_str(m, "hs") || chars_eq_str(m, "rgb") || chars_eq_str(m, "rgbw") || chars_eq_str(m, "rgbww")
            || chars_eq_str(m, "xy") {
            any_color = true;
        }
        i = i + 1;
    }
    let mut r: Vec<Control> = Vec::new();
    r.push(Control::Toggle);
    if any_dimmable {
        r.push(Control::Brightness);
    }
    if has_temp {
        r.push(Control::ColorTemp);
    }
    if any_color {
        r.push(Control::Color);
    }
    proof {
        if has_temp {
            let j = choose|j: int| 0 <= j < modes@.len() && mv[j] == "color_temp"@;
            assert(mv.contains("color_temp"@));
        } else {
            if mv.contains("color_temp"@) {
                let j = choose|j: int| 0 <= j < mv.len() && mv[j] == "color_temp"@;
                assert(false);
            }
        }
        assert(r@ =~= light_controls_of(mv));
    }
    r
}

fn fan_controls(bits: u64) -> (r: Vec<Control>)
    ensures
        r@ == seq![Control::Toggle] + opt_control(has(bits, FAN_SET_SPEED), Control::FanSpeed),
{
    let mut c = Vec::new();
    c.push(Control::Toggle);
    if has_flag(bits, FAN_SET_SPEED) {
        c.push(Control::FanSpeed);
    }
    proof {
        assert(c@ =~= seq![Control::Toggle] + opt_control(has(bits, FAN_SET_SPEED), Control::FanSpeed));
    }
    c
}

fn cover_controls(bits: u64) -> (r: Vec<Control>)
    ensures
        r@ == opt_control(has(bits, COVER_OPEN) || has(bits, COVER_CLOSE), Control::OpenClose) + opt_control(
            has(bits, COVER_STOP),
            Control::Stop,
        ) + opt_control(has(bits, COVER_SET_POSITION), Control::Position),
{
    let mut c = Vec::new();
    if has_flag(bits, COVER_OPEN) || has_flag(bits, COVER_CLOSE) {
        c.push(Control::OpenClose);
    }
    if has_flag(bits, COVER_STOP) {
        c.push(Control::Stop);
    }
    if has_flag(bits, COVER_SET_POSITION) {
        c.push(Control::Position);
    }
    proof {
        assert(c@ =~= opt_control(has(bits, COVER_OPEN) || has(bits, COVER_CLOSE), Control::OpenClose) + opt_control(
            has(bits, COVER_STOP),
            Control::Stop,
        ) + opt_control(has(bits, COVER_SET_POSITION), Control::Position));
    }
    c
}

fn media_controls(bits: u64) -> (r: Vec<Control>)
    ensures
        r@ == opt_control(
            has(bits, MEDIA_PLAY) || has(bits, MEDIA_PAUSE) || has(bits, MEDIA_NEXT) || has(bits, MEDIA_PREVIOUS),
            Control::Transport,
        ) + opt_control(has(bits, MEDIA_VOLUME_SET) || has(bits, MEDIA_VOLUME_MUTE), Control::Volume),
{
    let mut c = Vec::new();
    if has_flag(bits, MEDIA_PLAY) || has_flag(bits, MEDIA_PAUSE) || has_flag(bits, MEDIA_NEXT) || has_flag(
        bits,
        MEDIA_PREVIOUS,
    ) {
        c.push(Control::Transport);
    }
    if has_flag(bits, MEDIA_VOLUME_SET) || has_flag(bits, MEDIA_VOLUME_MUTE) {
        c.push(Control::Volume);
    }
    proof {
        assert(c@ =~= opt_control(
            has(bits, MEDIA_PLAY) || has(bits, MEDIA_PAUSE) || has(bits, MEDIA_NEXT) || has(bits, MEDIA_PREVIOUS),
            Control::Transport,
        ) + opt_control(has(bits, MEDIA_VOLUME_SET) || has(bits, MEDIA_VOLUME_MUTE), Control::Volume));
    }
    c
}

fn climate_controls(bits: u64) -> (r: Vec<Control>)
    ensures
        r@ == seq![Control::HvacMode] + opt_control(has(bits, CLIMATE_TARGET_TEMPERATURE), Control::Temperature)
            + opt_control(has(bits, CLIMATE_TARGET_TEMPERATURE_RANGE), Control::TemperatureRange) + opt_control(
            has(bits, CLIMATE_FAN_MODE),
            Control::FanMode,
        ) + opt_control(has(bits, CLIMATE_PRESET_MODE), Control::PresetMode),
{
    let mut c = Vec::new();
    c.push(Control::HvacMode);
    if has_flag(bits, CLIMATE_TARGET_TEMPERATURE) {
        c.push(Control::Temperature);
    }
    if has_flag(bits, CLIMATE_TARGET_TEMPERATURE_RANGE) {
        c.push(Control::TemperatureRange);
    }
    if has_flag(bits, CLIMATE_FAN_MODE) {
        c.push(Control::FanMode);
    }
    if has_flag(bits, CLIMATE_PRESET_MODE) {
        c.push(Control::PresetMode);
    }
    proof {
        assert(c@ =~= seq![Control::HvacMode] + opt_control(has(bits, CLIMATE_TARGET_TEMPERATURE), Control::Temperature)
            + opt_control(has(bits, CLIMATE_TARGET_TEMPERATURE_RANGE), Control::TemperatureRange) + opt_control(
            has(bits, CLIMATE_FAN_MODE),
            Control::FanMode,
        ) + opt_control(has(bits, CLIMATE_PRESET_MODE), Control::PresetMode));
    }
    c
}

fn single(c: Control) -> (r: Vec<Control>)
    ensures
        r@ == seq![c],
{
    let mut v = Vec::new();
    v.push(c);
    proof {
        assert(v@ =~= seq![c]);
    }
    v
}

/// The controls a domain offers for an entity state.
fn domain_controls_of(domain: &str, bits: u64, entity: &Json) -> (r: Vec<Control>)
    ensures
        r@ == domain_controls(domain@, bits, color_modes_of(entity@)),
{
    if str_eq(domain, "light") {
        let modes = color_modes(entity);
        proof {
            assert(Seq::new(modes@.len(), |i: int| modes@[i]@) =~= color_modes_of(entity@));
        }
        light_controls(&modes)
    } else if str_eq(domain, "switch") || str_eq(domain, "input_boolean") || str_eq(domain, "humidifier")
        || str_eq(domain, "siren") || str_eq(domain, "remote") {
        single(Control::Toggle)
    } else if str_eq(domain, "fan") {
        fan_controls(bits)
    } else if str_eq(domain, "lock") {
        single(Control::Lock)
    } else if str_eq(domain, "scene") || str_eq(domain, "script") || str_eq(domain, "button") || str_eq(
        domain,
        "input_button",
    ) {
        single(Control::Activate)
    } else if str_eq(domain, "cover") {
        cover_controls(bits)
    } else if str_eq(domain, "media_player") {
        media_controls(bits)
    } else if str_eq(domain, "climate") {
        climate_controls(bits)
    } else {
        Vec::new()
    }
}

/// The controls the panel offers for an entity state; read-only where its
/// domain offers none or it names no entity.
pub fn capabilities(entity: &Json) -> (r: Vec<Control>)
    ensures
        r@ == capabilities_spec(entity@),
{
    let entity_id = match entity.get("entity_id") {
        Some(v) => match v.as_str() {
            Some(s) => s,
            None => {
                return single(Control::ReadOnly);
            },
        },
        None => {
            return single(Control::ReadOnly);
        },
    };
    let domain = domain_of(entity_id);
    let bits = attr_u64(entity, "supported_features");
    let mut controls = domain_controls_of(domain, bits, entity);
    if controls.len() == 0 {
        controls = single(Control::ReadOnly);
    }
    controls
}


/// `m` carries exactly the attributes a row with `controls` carries for `e`:
/// each key at most once, and for every key the entity's own value where the
/// key is needed, nothing otherwise.
pub open spec fn carries(controls: Seq<Control>, e: JsonView, m: Seq<(Seq<char>, JsonView)>) -> bool {
    &&& member_keys(m).no_duplicates()
    &&& forall|k: Seq<char>| #[trigger] map_get(m, k) == carried(controls, e, k)
}

proof fn lemma_map_get_push(m: Seq<(Seq<char>, JsonView)>, x: (Seq<char>, JsonView), k: Seq<char>)
    ensures
        map_get(m.push(x), k) == if map_get(m, k) is Some {
            map_get(m, k)
        } else if x.0 == k {
            Some(x.1)
        } else {
            None
        },
    decreases m.len(),
{
    let mx = m.push(x);
    if m.len() > 0 {
        assert(mx[0] == m[0]);
        assert(mx.drop_first() =~= m.drop_first().push(x));
        lemma_map_get_push(m.drop_first(), x, k);
        if m[0].0 != k {
            assert(map_get(mx, k) == map_get(mx.drop_first(), k));
            assert(map_get(m, k) == map_get(m.drop_first(), k));
        }
    } else {
        assert(mx[0] == x);
        assert(mx.drop_first() =~= Seq::<(Seq<char>, JsonView)>::empty());
        assert(map_get(mx.drop_first(), k) is None);
    }
}

proof fn lemma_map_get_found(m: Seq<(Seq<char>, JsonView)>, k: Seq<char>)
    ensures
        map_get(m, k) is Some <==> member_keys(m).contains(k),
    decreases m.len(),
{
    if m.len() > 0 {
        lemma_map_get_found(m.drop_first(), k);
        if member_keys(m).contains(k) && m[0].0 != k {
            let i = choose|i: int| 0 <= i < member_keys(m).len() && member_keys(m)[i] == k;
            assert(member_keys(m.drop_first())[i - 1] == k);
        }
        if member_keys(m.drop_first()).contains(k) {
            let i = choose|i: int| 0 <= i < member_keys(m.drop_first()).len() && member_keys(m.drop_first())[i] == k;
            assert(member_keys(m)[i + 1] == k);
        }
        if m[0].0 == k {
            assert(member_keys(m)[0] == k);
        }
    }
}

fn control_keys_of(c: Control) -> (r: Vec<&'static str>)
    ensures
        Seq::new(r@.len(), |i: int| r@[i]@) == control_keys(c),
{
    let mut v: Vec<&'static str> = Vec::new();
    match c {
        Control::Brightness => {
            v.push("brightness");
        },
        Control::ColorTemp => {
            v.push("color_temp_kelvin");
            v.push("min_color_temp_kelvin");
            v.push("max_color_temp_kelvin");
        },
        Control::Color => {
            v.push("hs_color");
            v.push("rgb_color");
        },
        Control::Position => {
            v.push("current_position");
        },
        Control::Transport => {
            v.push("media_title");
            v.push("media_artist");
        },
        Control::Volume => {
            v.push("volume_level");
            v.push("is_volume_muted");
        },
        Control::HvacMode => {
            v.push("hvac_modes");
            v.push("hvac_action");
            v.push("current_temperature");
        },
        Control::Temperature => {
            v.push("temperature");
            v.push("min_temp");
            v.push("max_temp");
            v.push("target_temp_step");
        },
        Control::TemperatureRange => {
            v.push("target_temp_low");
            v.push("target_temp_high");
            v.push("min_temp");
            v.push("max_temp");
        },
        Control::FanMode => {
            v.push("fan_mode");
            v.push("fan_modes");
        },
        Control::PresetMode => {
            v.push("preset_mode");
            v.push("preset_modes");
        },
        Control::FanSpeed => {
            v.push("percentage");
            v.push("percentage_step");
        },
        _ => {},
    }
    proof {
        assert(Seq::new(v@.len(), |i: int| v@[i]@) =~= control_keys(c));
    }
    v
}

/// The attributes every row carries, then those its controls need.
fn needed_key_list(controls: &Vec<Control>) -> (r: Vec<&'static str>)
    ensures
        Seq::new(r@.len(), |i: int| r@[i]@) == needed_keys(controls@),
{
    let mut keys: Vec<&'static str> = Vec::new();
    keys.push("friendly_name");
    keys.push("device_class");
    keys.push("unit_of_measurement");
    proof {
        assert(Seq::new(keys@.len(), |i: int| keys@[i]@) =~= needed_keys(controls@.take(0)));
    }
    let mut i: usize = 0;
    while i < controls.len()
        invariant
            i <= controls@.len(),
            Seq::new(keys@.len(), |j: int| keys@[j]@) == needed_keys(controls@.take(i as int)),
        decreases controls@.len() - i,
    {
        let more = control_keys_of(controls[i]);
        let ghost before = keys@;
        let mut j: usize = 0;
        while j < more.len()
            invariant
                j <= more@.len(),
                keys@ == before + more@.take(j as int),
            decreases more@.len() - j,
        {
            keys.push(more[j]);
            j = j + 1;
            proof {
                assert(keys@ =~= before + more@.take(j as int));
            }
        }
        proof {
            assert(controls@.take(i + 1).drop_last() =~= controls@.take(i as int));
            assert(controls@.take(i + 1).last() == controls@[i as int]);
            assert(more@.take(more@.len() as int) =~= more@);
            assert(Seq::new(keys@.len(), |k: int| keys@[k]@) =~= Seq::new(before.len(), |k: int| before[k]@)
                + Seq::new(more@.len(), |k: int| more@[k]@));
        }
        i = i + 1;
    }
    proof {
        assert(controls@.take(controls@.len() as int) =~= controls@);
    }
    keys
}

/// The attributes a row carries: only those its controls need, so that
/// access tokens, signed URLs and coordinates in an entity's attributes never
/// reach the panel.
pub fn needed_attributes(controls: &Vec<Control>, entity: &Json) -> (r: JsonMap)
    ensures
        carries(controls@, entity@, members_view(r.entries@)),
{
    let attributes = match entity.get("attributes") {
        Some(Json::Object(m)) => m,
        _ => {
            let out = JsonMap::new();
            proof {
                assert(members_view(out.entries@) =~= Seq::<(Seq<char>, JsonView)>::empty());
                assert(member_keys(members_view(out.entries@)) =~= Seq::<Seq<char>>::empty());
            }
            return out;
        },
    };
    let ghost am = members_view(attributes.entries@);
    proof {
        assert(json_get(entity@, "attributes"@) == Some(JsonView::Object(am)));
    }
    let keys = needed_key_list(controls);
    let ghost kv = Seq::new(keys@.len(), |i: int| keys@[i]@);
    let mut out: Vec<(String, Json)> = Vec::new();
    let mut i: usize = 0;
    while i < keys.len()
        invariant
            json_get(entity@, "attributes"@) == Some(JsonView::Object(am)),
            am == members_view(attributes.entries@),
            kv == Seq::new(keys@.len(), |j: int| keys@[j]@),
            kv == needed_keys(controls@),
            i <= keys@.len(),
            member_keys(members_view(out@)).no_duplicates(),
            forall|k: Seq<char>| #[trigger]
                map_get(members_view(out@), k) == if kv.take(i as int).contains(k) {
                    map_get(am, k)
                } else {
                    None
                },
        decreases keys@.len() - i,
    {
        let key = keys[i];
        let ghost before = members_view(out@);
        let present = JsonMap { entries: out }.contains_key_then(key);
        out = present.1;
        proof {
            assert(members_view(out@) == before);
            assert(kv[i as int] == key@);
        }
        if !present.0 {
            match attributes.get(key) {
                Some(v) => {
                    let c = clone_json(v);
                    out.push((String::from_str(key), c));
                    proof {
                        let x = (key@, c@);
                        assert(members_view(out@) =~= before.push(x));
                        lemma_map_get_found(before, key@);
                        assert(member_keys(members_view(out@)) =~= member_keys(before).push(key@));
                        assert forall|a: int, b: int| 0 <= a < b < member_keys(members_view(out@)).len() implies
                            member_keys(members_view(out@))[a] != member_keys(members_view(out@))[b] by {
                            if b == before.len() {
                                if member_keys(before)[a] == key@ {
                                    assert(member_keys(before).contains(key@));
                                }
                            }
                        }
                        assert forall|k: Seq<char>| #[trigger]
                            map_get(members_view(out@), k) == if kv.take(i + 1).contains(k) {
                                map_get(am, k)
                            } else {
                                None
                            } by {
                            lemma_map_get_push(before, x, k);
                            assert(kv.take(i + 1) =~= kv.take(i as int).push(key@));
                            if k == key@ {
                                assert(kv.take(i + 1)[i as int] == k);
                            } else if kv.take(i + 1).contains(k) {
                                let t = kv.take(i + 1);
                                let j = choose|j: int| 0 <= j < t.len() && t[j] == k;
                                assert(kv.take(i as int)[j] == k);
                            }
                        }
                    }
                },
                None => {
                    proof {
                        assert forall|k: Seq<char>| #[trigger]
                            map_get(members_view(out@), k) == if kv.take(i + 1).contains(k) {
                                map_get(am, k)
                            } else {
                                None
                            } by {
                            assert(kv.take(i + 1) =~= kv.take(i as int).push(key@));
                            if k == key@ {
                                assert(kv.take(i + 1)[i as int] == k);
                                if kv.take(i as int).contains(k) {
                                } else {
                                    assert(map_get(am, k) is None);
                                }
                            } else if kv.take(i + 1).contains(k) {
                                let t = kv.take(i + 1);
                                let j = choose|j: int| 0 <= j < t.len() && t[j] == k;
                                assert(kv.take(i as int)[j] == k);
                            }
                        }
                    }
                },
            }
        } else {
            proof {
                lemma_map_get_found(before, key@);
                assert forall|k: Seq<char>| #[trigger]
                    map_get(members_view(out@), k) == if kv.take(i + 1).contains(k) {
                        map_get(am, k)
                    } else {
                        None
                    } by {
                    assert(kv.take(i + 1) =~= kv.take(i as int).push(key@));
                    if k == key@ {
                        assert(kv.take(i + 1)[i as int] == k);
                        assert(kv.take(i as int).contains(k));
                    } else if kv.take(i + 1).contains(k) {
                        let t = kv.take(i + 1);
                                let j = choose|j: int| 0 <= j < t.len() && t[j] == k;
                        assert(kv.take(i as int)[j] == k);
                    }
                }
            }
        }
        i = i + 1;
    }
    proof {
        assert(kv.take(keys@.len() as int) =~= kv);
    }
    JsonMap { entries: out }
}

impl JsonMap {
    /// Whether there is a member named `key`, handing the map back.
    fn contains_key_then(self, key: &str) -> (r: (bool, Vec<(String, Json)>))
        ensures
            r.0 == (map_get(members_view(self.entries@), key@) is Some),
            r.1 == self.entries,
    {
        let b = self.contains_key(key);
        (b, self.entries)
    }
}


/// How a state reads; see `display_state_spec`.
fn display_state(entity: &Json, domain: &str, state: &str) -> (r: String)
    ensures
        r@ == display_state_spec(entity@, domain@, state@),
{
    if str_eq(state, "unavailable") || str_eq(state, "unknown") {
        return String::from_str("Unavailable");
    }
    match attr_str(entity, "unit_of_measurement") {
        Some(unit) => {
            let mut v = chars_of(state);
            append_str(&mut v, " ");
            append_str(&mut v, unit);
            return string_of(&v);
        },
        None => {},
    }
    if str_eq(domain, "lock") && str_eq(state, "locked") {
        return String::from_str("Locked");
    }
    if str_eq(domain, "lock") && str_eq(state, "unlocked") {
        return String::from_str("Unlocked");
    }
    if str_eq(state, "on") {
        return String::from_str("On");
    }
    if str_eq(state, "off") {
        return String::from_str("Off");
    }
    let chars = chars_of(state);
    if chars.len() == 0 {
        return String::new();
    }
    let mut out = to_uppercase(chars[0]);
    let ghost head = out@;
    let mut i: usize = 1;
    while i < chars.len()
        invariant
            1 <= i <= chars@.len(),
            out@ == head + underscores_to_spaces(chars@.subrange(1, i as int)),
        decreases chars@.len() - i,
    {
        let c = chars[i];
        out.push(if c == '_' { ' ' } else { c });
        i = i + 1;
        proof {
            assert(out@ =~= head + underscores_to_spaces(chars@.subrange(1, i as int)));
        }
    }
    proof {
        assert(chars@.subrange(1, chars@.len() as int) =~= chars@.drop_first());
    }
    string_of(&out)
}

/// The icon a domain shows by default; see `default_icon_spec`.
pub fn default_icon(domain: &str, device_class: Option<&str>, active: bool) -> (r: &'static str)
    ensures
        r@ == default_icon_spec(domain@, opt_str_view(device_class), active),
{
    let by_class = match device_class {
        None => None,
        Some(_) => if str_eq(domain, "sensor") {
            for_sensor(device_class)
        } else if str_eq(domain, "binary_sensor") {
            for_binary_sensor(device_class, active)
        } else if str_eq(domain, "switch") {
            for_switch(device_class, active)
        } else if str_eq(domain, "cover") {
            for_cover(device_class, active)
        } else if str_eq(domain, "media_player") {
            for_media_player(device_class)
        } else {
            None
        },
    };
    match by_class {
        Some(icon) => {
            return icon;
        },
        None => {},
    }
    if str_eq(domain, "light") {
        if active {
            "mdi:lightbulb"
        } else {
            "mdi:lightbulb-off"
        }
    } else if str_eq(domain, "switch") {
        "mdi:toggle-switch-outline"
    } else if str_eq(domain, "fan") {
        "mdi:fan"
    } else if str_eq(domain, "lock") {
        "mdi:lock"
    } else if str_eq(domain, "cover") {
        "mdi:window-shutter"
    } else if str_eq(domain, "climate") {
        "mdi:thermostat"
    } else if str_eq(domain, "media_player") {
        "mdi:speaker"
    } else if str_eq(domain, "scene") {
        "mdi:palette"
    } else if str_eq(domain, "script") {
        "mdi:script-text"
    } else if str_eq(domain, "button") || str_eq(domain, "input_button") {
        "mdi:gesture-tap-button"
    } else if str_eq(domain, "binary_sensor") {
        if active {
            "mdi:checkbox-marked-circle"
        } else {
            "mdi:checkbox-blank-circle-outline"
        }
    } else if str_eq(domain, "sensor") {
        "mdi:eye"
    } else if str_eq(domain, "humidifier") {
        "mdi:air-humidifier"
    } else if str_eq(domain, "remote") {
        "mdi:remote"
    } else {
        "mdi:help-circle-outline"
    }
}

/// The state an entity reports, `unknown` where it reports none.
pub open spec fn row_state(e: JsonView) -> Seq<char> {
    match as_str_opt(json_get(e, "state"@)) {
        Some(s) => s,
        None => "unknown"@,
    }
}

/// The name a row shows: the registry's name, else the friendly name, each
/// cleaned and only where it cleans to something; else the entity id.
pub open spec fn row_name(e: JsonView, id: Seq<char>, registry_name: Option<Seq<char>>) -> Seq<char> {
    if registry_name is Some && plain_spec(registry_name->0).len() > 0 {
        plain_spec(registry_name->0)
    } else if attr_str_of(e, "friendly_name"@) is Some && plain_spec(attr_str_of(e, "friendly_name"@)->0).len() > 0 {
        plain_spec(attr_str_of(e, "friendly_name"@)->0)
    } else {
        id
    }
}

/// The icon a row shows: the registry's non-empty icon, else the entity's
/// own, else the default of its domain and class.
pub open spec fn row_icon(e: JsonView, domain: Seq<char>, registry_icon: Option<Seq<char>>, active: bool) -> Seq<char> {
    if registry_icon is Some && registry_icon->0.len() > 0 {
        registry_icon->0
    } else if attr_str_of(e, "icon"@) is Some {
        attr_str_of(e, "icon"@)->0
    } else {
        default_icon_spec(domain, attr_str_of(e, "device_class"@), active)
    }
}

/// The glyph of a row's icon, else that of its default icon, else nothing.
pub open spec fn row_glyph(glyphs: Glyphs, icon: Seq<char>, fallback: Seq<char>) -> Seq<char> {
    match glyph_lookup(glyphs.entries@, icon) {
        Some(g) => g,
        None => match glyph_lookup(glyphs.entries@, fallback) {
            Some(g) => g,
            None => Seq::empty(),
        },
    }
}

/// `row` is what the panel draws for entity state `e`.
pub open spec fn is_row_of(
    e: JsonView,
    registry_name: Option<Seq<char>>,
    registry_icon: Option<Seq<char>>,
    glyphs: Glyphs,
    row: Row,
) -> bool {
    let id = row.entity_id@;
    let domain = domain_spec(id);
    let state = row_state(e);
    let active = is_active_spec(domain, state);
    let fallback = default_icon_spec(domain, attr_str_of(e, "device_class"@), active);
    &&& as_str_opt(json_get(e, "entity_id"@)) == Some(id)
    &&& row.domain@ == domain
    &&& row.state@ == state
    &&& row.active == active
    &&& row.unavailable == (state == "unavailable"@ || state == "unknown"@)
    &&& row.name@ == row_name(e, id, registry_name)
    &&& row.icon@ == row_icon(e, domain, registry_icon, active)
    &&& row.glyph@ == row_glyph(glyphs, row.icon@, fallback)
    &&& row.display_state@ == plain_spec(display_state_spec(e, domain, state))
    &&& row.controls@ == capabilities_spec(e)
    &&& carries(capabilities_spec(e), e, members_view(row.attributes.entries@))
}

/// What the panel draws for an entity state: `None` where the state names no
/// entity. Names and the display state are cleaned of markup and control
/// characters; only the attributes its controls need are carried.
pub fn row(entity: &Json, registry_name: Option<&str>, registry_icon: Option<&str>, glyphs: &Glyphs) -> (r: Option<Row>)
    ensures
        r is None <==> as_str_opt(json_get(entity@, "entity_id"@)) is None,
        r matches Some(row) ==> is_row_of(entity@, opt_str_view(registry_name), opt_str_view(registry_icon), *glyphs, row),
{
    let entity_id: &str = match entity.get("entity_id") {
        Some(v) => match v.as_str() {
            Some(s) => s,
            None => return None,
        },
        None => return None,
    };
    let domain = domain_of(entity_id);
    let state: &str = match entity.get("state") {
        Some(v) => match v.as_str() {
            Some(s) => s,
            None => "unknown",
        },
        None => "unknown",
    };
    let active = is_active(domain, state);
    let unavailable = str_eq(state, "unavailable") || str_eq(state, "unknown");

    let mut name: Option<String> = match registry_name {
        Some(n) => {
            let p = plain(n);
            if p.as_str().is_empty() {
                None
            } else {
                Some(p)
            }
        },
        None => None,
    };
    if name.is_none() {
        name = match attr_str(entity, "friendly_name") {
            Some(f) => {
                let p = plain(f);
                if p.as_str().is_empty() {
                    None
                } else {
                    Some(p)
                }
            },
            None => None,
        };
    }
    let name = match name {
        Some(n) => n,
        None => String::from_str(entity_id),
    };

    let device_class = attr_str(entity, "device_class");
    let fallback = default_icon(domain, device_class, active);
    let icon: String = match registry_icon {
        Some(i) if !i.is_empty() => String::from_str(i),
        _ => match attr_str(entity, "icon") {
            Some(i) => String::from_str(i),
            None => String::from_str(fallback),
        },
    };

    let controls = capabilities(entity);
    let attributes = needed_attributes(&controls, entity);

    let glyph = match glyphs.glyph(icon.as_str()) {
        Some(g) => g,
        None => match glyphs.glyph(fallback) {
            Some(g) => g,
            None => String::new(),
        },
    };
    let shown_state = display_state(entity, domain, state);
    Some(
        Row {
            entity_id: String::from_str(entity_id),
            domain: String::from_str(domain),
            name,
            icon,
            glyph,
            state: String::from_str(state),
            display_state: plain(shown_state.as_str()),
            active,
            unavailable,
            controls,
            attributes,
        },
    )
}

proof fn lemma_absent_key_is_not_a_member(m: Seq<(Seq<char>, JsonView)>, k: Seq<char>)
    requires
        map_get(m, k) is None,
    ensures
        !member_keys(m).contains(k),
    decreases m.len(),
{
    if m.len() > 0 {
        lemma_absent_key_is_not_a_member(m.drop_first(), k);
        if member_keys(m).contains(k) {
            let i = choose|i: int| 0 <= i < member_keys(m).len() && member_keys(m)[i] == k;
            if i > 0 {
                assert(member_keys(m.drop_first())[i - 1] == k);
            }
        }
    }
}

/// A row carries no attribute that its controls do not need, so nothing
/// sensitive that an entity exposes (a token, a camera URL, a location)
/// reaches the panel unless a control reads it; and no attribute twice.
pub proof fn law_rows_carry_only_needed_attributes(
    e: JsonView,
    registry_name: Option<Seq<char>>,
    registry_icon: Option<Seq<char>>,
    glyphs: Glyphs,
    row: Row,
)
    requires
        is_row_of(e, registry_name, registry_icon, glyphs, row),
    ensures
        forall|k: Seq<char>|
            #[trigger] member_keys(members_view(row.attributes.entries@)).contains(k) ==> needed_keys(row.controls@).contains(k),
        member_keys(members_view(row.attributes.entries@)).no_duplicates(),
{
    let m = members_view(row.attributes.entries@);
    assert forall|k: Seq<char>| #[trigger] member_keys(m).contains(k) implies needed_keys(row.controls@).contains(k) by {
        if !needed_keys(row.controls@).contains(k) {
            assert(map_get(m, k) == carried(capabilities_spec(e), e, k));
            lemma_absent_key_is_not_a_member(m, k);
        }
    }
}

/// The names of the domains that have controls are all different.
proof fn lemma_domain_names_differ()
    ensures
        "light"@ != "switch"@,
        "light"@ != "fan"@,
        "light"@ != "input_boolean"@,
        "light"@ != "humidifier"@,
        "light"@ != "siren"@,
        "light"@ != "remote"@,
        "light"@ != "lock"@,
        "light"@ != "scene"@,
        "light"@ != "script"@,
        "light"@ != "button"@,
        "light"@ != "input_button"@,
        "light"@ != "cover"@,
        "light"@ != "media_player"@,
        "light"@ != "climate"@,
        "switch"@ != "fan"@,
        "switch"@ != "input_boolean"@,
        "switch"@ != "humidifier"@,
        "switch"@ != "siren"@,
        "switch"@ != "remote"@,
        "switch"@ != "lock"@,
        "switch"@ != "scene"@,
        "switch"@ != "script"@,
        "switch"@ != "button"@,
        "switch"@ != "input_button"@,
        "switch"@ != "cover"@,
        "switch"@ != "media_player"@,
        "switch"@ != "climate"@,
        "fan"@ != "input_boolean"@,
        "fan"@ != "humidifier"@,
        "fan"@ != "siren"@,
        "fan"@ != "remote"@,
        "fan"@ != "lock"@,
        "fan"@ != "scene"@,
        "fan"@ != "script"@,
        "fan"@ != "button"@,
        "fan"@ != "input_button"@,
        "fan"@ != "cover"@,
        "fan"@ != "media_player"@,
        "fan"@ != "climate"@,
        "input_boolean"@ != "humidifier"@,
        "input_boolean"@ != "siren"@,
        "input_boolean"@ != "remote"@,
        "input_boolean"@ != "lock"@,
        "input_boolean"@ != "scene"@,
        "input_boolean"@ != "script"@,
        "input_boolean"@ != "button"@,
        "input_boolean"@ != "input_button"@,
        "input_boolean"@ != "cover"@,
        "input_boolean"@ != "media_player"@,
        "input_boolean"@ != "climate"@,
        "humidifier"@ != "siren"@,
        "humidifier"@ != "remote"@,
        "humidifier"@ != "lock"@,
        "humidifier"@ != "scene"@,
        "humidifier"@ != "script"@,
        "humidifier"@ != "button"@,
        "humidifier"@ != "input_button"@,
        "humidifier"@ != "cover"@,
        "humidifier"@ != "media_player"@,
        "humidifier"@ != "climate"@,
        "siren"@ != "remote"@,
        "siren"@ != "lock"@,
        "siren"@ != "scene"@,
        "siren"@ != "script"@,
        "siren"@ != "button"@,
        "siren"@ != "input_button"@,
        "siren"@ != "cover"@,
        "siren"@ != "media_player"@,
        "siren"@ != "climate"@,
        "remote"@ != "lock"@,
        "remote"@ != "scene"@,
        "remote"@ != "script"@,
        "remote"@ != "button"@,
        "remote"@ != "input_button"@,
        "remote"@ != "cover"@,
        "remote"@ != "media_player"@,
        "remote"@ != "climate"@,
        "lock"@ != "scene"@,
        "lock"@ != "script"@,
        "lock"@ != "button"@,
        "lock"@ != "input_button"@,
        "lock"@ != "cover"@,
        "lock"@ != "media_player"@,
        "lock"@ != "climate"@,
        "scene"@ != "script"@,
        "scene"@ != "button"@,
        "scene"@ != "input_button"@,
        "scene"@ != "cover"@,
        "scene"@ != "media_player"@,
        "scene"@ != "climate"@,
        "script"@ != "button"@,
        "script"@ != "input_button"@,
        "script"@ != "cover"@,
        "script"@ != "media_player"@,
        "script"@ != "climate"@,
        "button"@ != "input_button"@,
        "button"@ != "cover"@,
        "button"@ != "media_player"@,
        "button"@ != "climate"@,
        "input_button"@ != "cover"@,
        "input_button"@ != "media_player"@,
        "input_button"@ != "climate"@,
        "cover"@ != "media_player"@,
        "cover"@ != "climate"@,
        "media_player"@ != "climate"@,
{
    reveal_strlit("light");
    reveal_strlit("switch");
    reveal_strlit("fan");
    reveal_strlit("input_boolean");
    reveal_strlit("humidifier");
    reveal_strlit("siren");
    reveal_strlit("remote");
    reveal_strlit("lock");
    reveal_strlit("scene");
    reveal_strlit("script");
    reveal_strlit("button");
    reveal_strlit("input_button");
    reveal_strlit("cover");
    reveal_strlit("media_player");
    reveal_strlit("climate");
    assert("light"@.len() != "switch"@.len());
    assert("light"@.len() != "fan"@.len());
    assert("light"@.len() != "input_boolean"@.len());
    assert("light"@.len() != "humidifier"@.len());
    assert("light"@[0] != "siren"@[0]);
    assert("light"@.len() != "remote"@.len());
    assert("light"@.len() != "lock"@.len());
    assert("light"@[0] != "scene"@[0]);
    assert("light"@.len() != "script"@.len());
    assert("light"@.len() != "button"@.len());
    assert("light"@.len() != "input_button"@.len());
    assert("light"@[0] != "cover"@[0]);
    assert("light"@.len() != "media_player"@.len());
    assert("light"@.len() != "climate"@.len());
    assert("switch"@.len() != "fan"@.len());
    assert("switch"@.len() != "input_boolean"@.len());
    assert("switch"@.len() != "humidifier"@.len());
    assert("switch"@.len() != "siren"@.len());
    assert("switch"@[0] != "remote"@[0]);
    assert("switch"@.len() != "lock"@.len());
    assert("switch"@.len() != "scene"@.len());
    assert("switch"@[1] != "script"@[1]);
    assert("switch"@[0] != "button"@[0]);
    assert("switch"@.len() != "input_button"@.len());
    assert("switch"@.len() != "cover"@.len());
    assert("switch"@.len() != "media_player"@.len());
    assert("switch"@.len() != "climate"@.len());
    assert("fan"@.len() != "input_boolean"@.len());
    assert("fan"@.len() != "humidifier"@.len());
    assert("fan"@.len() != "siren"@.len());
    assert("fan"@.len() != "remote"@.len());
    assert("fan"@.len() != "lock"@.len());
    assert("fan"@.len() != "scene"@.len());
    assert("fan"@.len() != "script"@.len());
    assert("fan"@.len() != "button"@.len());
    assert("fan"@.len() != "input_button"@.len());
    assert("fan"@.len() != "cover"@.len());
    assert("fan"@.len() != "media_player"@.len());
    assert("fan"@.len() != "climate"@.len());
    assert("input_boolean"@.len() != "humidifier"@.len());
    assert("input_boolean"@.len() != "siren"@.len());
    assert("input_boolean"@.len() != "remote"@.len());
    assert("input_boolean"@.len() != "lock"@.len());
    assert("input_boolean"@.len() != "scene"@.len());
    assert("input_boolean"@.len() != "script"@.len());
    assert("input_boolean"@.len() != "button"@.len());
    assert("input_boolean"@.len() != "input_button"@.len());
    assert("input_boolean"@.len() != "cover"@.len());
    assert("input_boolean"@.len() != "media_player"@.len());
    assert("input_boolean"@.len() != "climate"@.len());
    assert("humidifier"@.len() != "siren"@.len());
    assert("humidifier"@.len() != "remote"@.len());
    assert("humidifier"@.len() != "lock"@.len());
    assert("humidifier"@.len() != "scene"@.len());
    assert("humidifier"@.len() != "script"@.len());
    assert("humidifier"@.len() != "button"@.len());
    assert("humidifier"@.len() != "input_button"@.len());
    assert("humidifier"@.len() != "cover"@.len());
    assert("humidifier"@.len() != "media_player"@.len());
    assert("humidifier"@.len() != "climate"@.len());
    assert("siren"@.len() != "remote"@.len());
    assert("siren"@.len() != "lock"@.len());
    assert("siren"@[1] != "scene"@[1]);
    assert("siren"@.len() != "script"@.len());
    assert("siren"@.len() != "button"@.len());
    assert("siren"@.len() != "input_button"@.len());
    assert("siren"@[0] != "cover"@[0]);
    assert("siren"@.len() != "media_player"@.len());
    assert("siren"@.len() != "climate"@.len());
    assert("remote"@.len() != "lock"@.len());
    assert("remote"@.len() != "scene"@.len());
    assert("remote"@[0] != "script"@[0]);
    assert("remote"@[0] != "button"@[0]);
    assert("remote"@.len() != "input_button"@.len());
    assert("remote"@.len() != "cover"@.len());
    assert("remote"@.len() != "media_player"@.len());
    assert("remote"@.len() != "climate"@.len());
    assert("lock"@.len() != "scene"@.len());
    assert("lock"@.len() != "script"@.len());
    assert("lock"@.len() != "button"@.len());
    assert("lock"@.len() != "input_button"@.len());
    assert("lock"@.len() != "cover"@.len());
    assert("lock"@.len() != "media_player"@.len());
    assert("lock"@.len() != "climate"@.len());
    assert("scene"@.len() != "script"@.len());
    assert("scene"@.len() != "button"@.len());
    assert("scene"@.len() != "input_button"@.len());
    assert("scene"@[0] != "cover"@[0]);
    assert("scene"@.len() != "media_player"@.len());
    assert("scene"@.len() != "climate"@.len());
    assert("script"@[0] != "button"@[0]);
    assert("script"@.len() != "input_button"@.len());
    assert("script"@.len() != "cover"@.len());
    assert("script"@.len() != "media_player"@.len());
    assert("script"@.len() != "climate"@.len());
    assert("button"@.len() != "input_button"@.len());
    assert("button"@.len() != "cover"@.len());
    assert("button"@.len() != "media_player"@.len());
    assert("button"@.len() != "climate"@.len());
    assert("input_button"@.len() != "cover"@.len());
    assert("input_button"@[0] != "media_player"@[0]);
    assert("input_button"@.len() != "climate"@.len());
    assert("cover"@.len() != "media_player"@.len());
    assert("cover"@.len() != "climate"@.len());
    assert("media_player"@.len() != "climate"@.len());
}

proof fn lemma_concat_contains(a: Seq<Control>, b: Seq<Control>, x: Control)
    ensures
        (a + b).contains(x) <==> a.contains(x) || b.contains(x),
{
    if a.contains(x) {
        let i = choose|i: int| 0 <= i < a.len() && a[i] == x;
        assert((a + b)[i] == x);
    }
    if b.contains(x) {
        let i = choose|i: int| 0 <= i < b.len() && b[i] == x;
        assert((a + b)[a.len() + i] == x);
    }
    if (a + b).contains(x) {
        let i = choose|i: int| 0 <= i < (a + b).len() && (a + b)[i] == x;
        if i < a.len() {
            assert(a[i] == x);
        } else {
            assert(b[i - a.len()] == x);
        }
    }
}

proof fn lemma_one_contains(c: Control, x: Control)
    ensures
        seq![c].contains(x) <==> x == c,
{
    if x == c {
        assert(seq![c][0] == x);
    }
}

proof fn lemma_opt_contains(b: bool, c: Control, x: Control)
    ensures
        opt_control(b, c).contains(x) <==> b && x == c,
{
    lemma_one_contains(c, x);
}

/// The supported-feature bits of an entity state.
pub open spec fn supported_features(e: JsonView) -> u64 {
    attr_u64_of(e, "supported_features"@)
}

/// A row is active by its domain's own meaning of "on": a climate device in
/// any state but `off`; a lock that is `unlocked`; a cover that is `open` or
/// `opening`; a media player that is `playing`, `on` or `buffering`; and
/// anything else that is `on`.
pub proof fn law_rows_are_active_by_their_domains_meaning(
    e: JsonView,
    registry_name: Option<Seq<char>>,
    registry_icon: Option<Seq<char>>,
    glyphs: Glyphs,
    row: Row,
)
    requires
        is_row_of(e, registry_name, registry_icon, glyphs, row),
    ensures
        row.domain@ == "climate"@ ==> (row.active <==> row.state@ != "off"@),
        row.domain@ == "lock"@ ==> (row.active <==> row.state@ == "unlocked"@),
        row.domain@ == "cover"@ ==> (row.active <==> row.state@ == "open"@ || row.state@ == "opening"@),
        row.domain@ == "media_player"@ ==> (row.active <==> row.state@ == "playing"@ || row.state@ == "on"@
            || row.state@ == "buffering"@),
        !(row.domain@ == "climate"@ || row.domain@ == "lock"@ || row.domain@ == "cover"@ || row.domain@
            == "media_player"@) ==> (row.active <==> row.state@ == "on"@),
{
    reveal_strlit("climate");
    reveal_strlit("lock");
    reveal_strlit("cover");
    reveal_strlit("media_player");
    lemma_domain_names_differ();
}

/// The controls an entity offers follow its domain and the feature bits it
/// reports: a fan can be switched, and its speed set exactly where it
/// supports setting the speed (bit 1); a cover opens and closes, stops and
/// takes a position exactly where it supports opening or closing (bits 1, 2),
/// stopping (bit 8) and setting a position (bit 4); a media player offers
/// transport where it can play, pause, skip forward or back (bits 16384, 1,
/// 32, 16) and volume where it can set or mute it (bits 4, 8); a climate
/// device always offers its mode, and a target temperature, a temperature
/// range, a fan mode and a preset exactly where it supports them (bits 1, 2,
/// 8, 16); switches, input booleans, humidifiers, sirens and remotes switch
/// on and off; a lock locks; scenes, scripts and buttons are activated; a
/// light switches on and off; anything else is read-only.
pub proof fn law_feature_bits_offer_their_controls(e: JsonView, id: Seq<char>)
    requires
        as_str_opt(json_get(e, "entity_id"@)) == Some(id),
    ensures
        domain_spec(id) == "fan"@ ==> capabilities_spec(e) == if supported_features(e) & 1 != 0 {
            seq![Control::Toggle, Control::FanSpeed]
        } else {
            seq![Control::Toggle]
        },
        domain_spec(id) == "cover"@ ==> {
            &&& capabilities_spec(e).contains(Control::OpenClose) <==> (supported_features(e) & 1 != 0
                || supported_features(e) & 2 != 0)
            &&& capabilities_spec(e).contains(Control::Stop) <==> supported_features(e) & 8 != 0
            &&& capabilities_spec(e).contains(Control::Position) <==> supported_features(e) & 4 != 0
        },
        domain_spec(id) == "media_player"@ ==> {
            &&& capabilities_spec(e).contains(Control::Transport) <==> (supported_features(e) & 16384 != 0
                || supported_features(e) & 1 != 0 || supported_features(e) & 32 != 0 || supported_features(e) & 16
                != 0)
            &&& capabilities_spec(e).contains(Control::Volume) <==> (supported_features(e) & 4 != 0
                || supported_features(e) & 8 != 0)
        },
        domain_spec(id) == "climate"@ ==> {
            &&& capabilities_spec(e).contains(Control::HvacMode)
            &&& capabilities_spec(e).contains(Control::Temperature) <==> supported_features(e) & 1 != 0
            &&& capabilities_spec(e).contains(Control::TemperatureRange) <==> supported_features(e) & 2 != 0
            &&& capabilities_spec(e).contains(Control::FanMode) <==> supported_features(e) & 8 != 0
            &&& capabilities_spec(e).contains(Control::PresetMode) <==> supported_features(e) & 16 != 0
        },
        domain_spec(id) == "switch"@ || domain_spec(id) == "input_boolean"@ || domain_spec(id) == "humidifier"@
            || domain_spec(id) == "siren"@ || domain_spec(id) == "remote"@ ==> capabilities_spec(e) == seq![
            Control::Toggle,
        ],
        domain_spec(id) == "lock"@ ==> capabilities_spec(e) == seq![Control::Lock],
        domain_spec(id) == "scene"@ || domain_spec(id) == "script"@ || domain_spec(id) == "button"@
            || domain_spec(id) == "input_button"@ ==> capabilities_spec(e) == seq![Control::Activate],
        domain_spec(id) == "light"@ ==> capabilities_spec(e).contains(Control::Toggle),
        !(domain_spec(id) == "fan"@ || domain_spec(id) == "cover"@ || domain_spec(id) == "media_player"@
            || domain_spec(id) == "climate"@ || domain_spec(id) == "switch"@ || domain_spec(id) == "input_boolean"@
            || domain_spec(id) == "humidifier"@ || domain_spec(id) == "siren"@ || domain_spec(id) == "remote"@
            || domain_spec(id) == "lock"@ || domain_spec(id) == "scene"@ || domain_spec(id) == "script"@
            || domain_spec(id) == "button"@ || domain_spec(id) == "input_button"@ || domain_spec(id) == "light"@)
            ==> capabilities_spec(e) == seq![Control::ReadOnly],
{
    reveal_strlit("light");
    reveal_strlit("switch");
    reveal_strlit("fan");
    reveal_strlit("input_boolean");
    reveal_strlit("humidifier");
    reveal_strlit("siren");
    reveal_strlit("remote");
    reveal_strlit("lock");
    reveal_strlit("scene");
    reveal_strlit("script");
    reveal_strlit("button");
    reveal_strlit("input_button");
    reveal_strlit("cover");
    reveal_strlit("media_player");
    reveal_strlit("climate");
    lemma_domain_names_differ();
    let d = domain_spec(id);
    let bits = supported_features(e);
    let modes = color_modes_of(e);
    let c = domain_controls(d, bits, modes);
    if d == "fan"@ {
        assert(c =~= if bits & 1 != 0 { seq![Control::Toggle, Control::FanSpeed] } else { seq![Control::Toggle] });
    } else if d == "cover"@ {
        let a = opt_control(has(bits, COVER_OPEN) || has(bits, COVER_CLOSE), Control::OpenClose);
        let b = opt_control(has(bits, COVER_STOP), Control::Stop);
        let p = opt_control(has(bits, COVER_SET_POSITION), Control::Position);
        assert forall|x: Control| x != Control::ReadOnly implies (capabilities_spec(e).contains(x) <==> a.contains(x)
            || b.contains(x) || p.contains(x)) by {
            lemma_concat_contains(a + b, p, x);
            lemma_concat_contains(a, b, x);
            lemma_one_contains(Control::ReadOnly, x);
        }
        lemma_opt_contains(has(bits, COVER_OPEN) || has(bits, COVER_CLOSE), Control::OpenClose, Control::OpenClose);
        lemma_opt_contains(has(bits, COVER_STOP), Control::Stop, Control::OpenClose);
        lemma_opt_contains(has(bits, COVER_SET_POSITION), Control::Position, Control::OpenClose);
        lemma_opt_contains(has(bits, COVER_OPEN) || has(bits, COVER_CLOSE), Control::OpenClose, Control::Stop);
        lemma_opt_contains(has(bits, COVER_STOP), Control::Stop, Control::Stop);
        lemma_opt_contains(has(bits, COVER_SET_POSITION), Control::Position, Control::Stop);
        lemma_opt_contains(has(bits, COVER_OPEN) || has(bits, COVER_CLOSE), Control::OpenClose, Control::Position);
        lemma_opt_contains(has(bits, COVER_STOP), Control::Stop, Control::Position);
        lemma_opt_contains(has(bits, COVER_SET_POSITION), Control::Position, Control::Position);
    } else if d == "media_player"@ {
        let t = opt_control(
            has(bits, MEDIA_PLAY) || has(bits, MEDIA_PAUSE) || has(bits, MEDIA_NEXT) || has(bits, MEDIA_PREVIOUS),
            Control::Transport,
        );
        let v = opt_control(has(bits, MEDIA_VOLUME_SET) || has(bits, MEDIA_VOLUME_MUTE), Control::Volume);
        assert forall|x: Control| x != Control::ReadOnly implies (capabilities_spec(e).contains(x) <==> t.contains(x)
            || v.contains(x)) by {
            lemma_concat_contains(t, v, x);
            lemma_one_contains(Control::ReadOnly, x);
        }
        lemma_one_contains(Control::Transport, Control::Volume);
        lemma_one_contains(Control::Volume, Control::Transport);
        lemma_one_contains(Control::Transport, Control::Transport);
        lemma_one_contains(Control::Volume, Control::Volume);
    } else if d == "climate"@ {
        let h = seq![Control::HvacMode];
        let t = opt_control(has(bits, CLIMATE_TARGET_TEMPERATURE), Control::Temperature);
        let r = opt_control(has(bits, CLIMATE_TARGET_TEMPERATURE_RANGE), Control::TemperatureRange);
        let f = opt_control(has(bits, CLIMATE_FAN_MODE), Control::FanMode);
        let p = opt_control(has(bits, CLIMATE_PRESET_MODE), Control::PresetMode);
        assert(c == h + t + r + f + p);
        assert forall|x: Control| #[trigger] capabilities_spec(e).contains(x) <==> h.contains(x) || t.contains(x)
            || r.contains(x) || f.contains(x) || p.contains(x) by {
            lemma_concat_contains(h + t + r + f, p, x);
            lemma_concat_contains(h + t + r, f, x);
            lemma_concat_contains(h + t, r, x);
            lemma_concat_contains(h, t, x);
            lemma_one_contains(Control::HvacMode, x);
            lemma_opt_contains(has(bits, CLIMATE_TARGET_TEMPERATURE), Control::Temperature, x);
            lemma_opt_contains(has(bits, CLIMATE_TARGET_TEMPERATURE_RANGE), Control::TemperatureRange, x);
            lemma_opt_contains(has(bits, CLIMATE_FAN_MODE), Control::FanMode, x);
            lemma_opt_contains(has(bits, CLIMATE_PRESET_MODE), Control::PresetMode, x);
        }
        lemma_one_contains(Control::HvacMode, Control::HvacMode);
        lemma_opt_contains(has(bits, CLIMATE_TARGET_TEMPERATURE), Control::Temperature, Control::HvacMode);
        lemma_opt_contains(has(bits, CLIMATE_TARGET_TEMPERATURE_RANGE), Control::TemperatureRange, Control::HvacMode);
        lemma_opt_contains(has(bits, CLIMATE_FAN_MODE), Control::FanMode, Control::HvacMode);
        lemma_opt_contains(has(bits, CLIMATE_PRESET_MODE), Control::PresetMode, Control::HvacMode);
        lemma_one_contains(Control::HvacMode, Control::Temperature);
        lemma_opt_contains(has(bits, CLIMATE_TARGET_TEMPERATURE), Control::Temperature, Control::Temperature);
        lemma_opt_contains(has(bits, CLIMATE_TARGET_TEMPERATURE_RANGE), Control::TemperatureRange, Control::Temperature);
        lemma_opt_contains(has(bits, CLIMATE_FAN_MODE), Control::FanMode, Control::Temperature);
        lemma_opt_contains(has(bits, CLIMATE_PRESET_MODE), Control::PresetMode, Control::Temperature);
        lemma_one_contains(Control::HvacMode, Control::TemperatureRange);
        lemma_opt_contains(has(bits, CLIMATE_TARGET_TEMPERATURE), Control::Temperature, Control::TemperatureRange);
        lemma_opt_contains(has(bits, CLIMATE_TARGET_TEMPERATURE_RANGE), Control::TemperatureRange, Control::TemperatureRange);
        lemma_opt_contains(has(bits, CLIMATE_FAN_MODE), Control::FanMode, Control::TemperatureRange);
        lemma_opt_contains(has(bits, CLIMATE_PRESET_MODE), Control::PresetMode, Control::TemperatureRange);
        lemma_one_contains(Control::HvacMode, Control::FanMode);
        lemma_opt_contains(has(bits, CLIMATE_TARGET_TEMPERATURE), Control::Temperature, Control::FanMode);
        lemma_opt_contains(has(bits, CLIMATE_TARGET_TEMPERATURE_RANGE), Control::TemperatureRange, Control::FanMode);
        lemma_opt_contains(has(bits, CLIMATE_FAN_MODE), Control::FanMode, Control::FanMode);
        lemma_opt_contains(has(bits, CLIMATE_PRESET_MODE), Control::PresetMode, Control::FanMode);
        lemma_one_contains(Control::HvacMode, Control::PresetMode);
        lemma_opt_contains(has(bits, CLIMATE_TARGET_TEMPERATURE), Control::Temperature, Control::PresetMode);
        lemma_opt_contains(has(bits, CLIMATE_TARGET_TEMPERATURE_RANGE), Control::TemperatureRange, Control::PresetMode);
        lemma_opt_contains(has(bits, CLIMATE_FAN_MODE), Control::FanMode, Control::PresetMode);
        lemma_opt_contains(has(bits, CLIMATE_PRESET_MODE), Control::PresetMode, Control::PresetMode);
        assert(has(bits, CLIMATE_TARGET_TEMPERATURE) == (bits & 1 != 0));
        assert(has(bits, CLIMATE_TARGET_TEMPERATURE_RANGE) == (bits & 2 != 0));
        assert(has(bits, CLIMATE_FAN_MODE) == (bits & 8 != 0));
        assert(has(bits, CLIMATE_PRESET_MODE) == (bits & 16 != 0));
        assert(capabilities_spec(e).contains(Control::HvacMode) <==> h.contains(Control::HvacMode) || t.contains(
            Control::HvacMode,
        ) || r.contains(Control::HvacMode) || f.contains(Control::HvacMode) || p.contains(Control::HvacMode));
        assert(capabilities_spec(e).contains(Control::Temperature) <==> h.contains(Control::Temperature)
            || t.contains(Control::Temperature) || r.contains(Control::Temperature) || f.contains(Control::Temperature)
            || p.contains(Control::Temperature));
        assert(capabilities_spec(e).contains(Control::PresetMode) <==> h.contains(Control::PresetMode)
            || t.contains(Control::PresetMode) || r.contains(Control::PresetMode) || f.contains(Control::PresetMode)
            || p.contains(Control::PresetMode));
        assert(capabilities_spec(e).contains(Control::HvacMode));
        assert(capabilities_spec(e).contains(Control::Temperature) <==> bits & 1 != 0);
        assert(capabilities_spec(e).contains(Control::TemperatureRange) <==> bits & 2 != 0);
        assert(capabilities_spec(e).contains(Control::FanMode) <==> bits & 8 != 0);
        assert(capabilities_spec(e).contains(Control::PresetMode) <==> bits & 16 != 0);
    } else if d == "light"@ {
        assert(c[0] == Control::Toggle);
        assert(capabilities_spec(e)[0] == Control::Toggle);
    }
}

/// Every entity that the panel offers to switch can be switched: where its
/// controls hold a toggle, toggling it resolves to its own domain's `toggle`
/// service, whatever the data.
pub proof fn law_what_offers_a_toggle_can_be_toggled(e: JsonView, id: Seq<char>, data: JsonView)
    requires
        as_str_opt(json_get(e, "entity_id"@)) == Some(id),
        valid_entity_id_spec(id),
        capabilities_spec(e).contains(Control::Toggle),
    ensures
        resolve_spec(id, "toggle"@, data) == Ok::<CallView, Refusal>(
            CallView { domain: domain_spec(id), service: "toggle"@, entity_id: id, data: obj(seq![]) },
        ),
{
    law_feature_bits_offer_their_controls(e, id);
    let d = domain_spec(id);
    if !(d == "light"@ || d == "switch"@ || d == "fan"@ || d == "input_boolean"@ || d == "humidifier"@ || d
        == "siren"@ || d == "remote"@ || d == "media_player"@ || d == "climate"@) {
    reveal_strlit("light");
    reveal_strlit("switch");
    reveal_strlit("fan");
    reveal_strlit("input_boolean");
    reveal_strlit("humidifier");
    reveal_strlit("siren");
    reveal_strlit("remote");
    reveal_strlit("lock");
    reveal_strlit("scene");
    reveal_strlit("script");
    reveal_strlit("button");
    reveal_strlit("input_button");
    reveal_strlit("cover");
    reveal_strlit("media_player");
    reveal_strlit("climate");
        lemma_domain_names_differ();
        lemma_one_contains(Control::Lock, Control::Toggle);
        lemma_one_contains(Control::Activate, Control::Toggle);
        lemma_one_contains(Control::ReadOnly, Control::Toggle);
        assert(!capabilities_spec(e).contains(Control::Toggle));
    }
    law_switching_entities_toggle_and_turn_on_and_off(id, data);
}

} // verus!
