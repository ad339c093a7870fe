use vstd::prelude::*;

use crate::chars::{concat, str_eq};
use crate::filter::{domain_of, domain_spec};
use crate::json::{json_get, members_view, Json, JsonMap, JsonView, Number};
use crate::number::{
    as_float, in_range, in_range_exec, int_number, is_finite, is_finite_number, le, num_le, round_exec,
    round_nonneg, to_float, dyadic, int_number_exec,
};
use crate::text::{valid_entity_id, valid_entity_id_spec};

verus! {

broadcast use vstd::std_specs::vec::group_vec_axioms;

/// A Home Assistant service call that a panel action resolves to.
#[derive(Debug, PartialEq)]
pub struct ServiceCall {
    pub domain: String,
    pub service: String,
    pub entity_id: String,
    pub data: Json,
}

/// Why a panel action was refused.
#[derive(Debug, PartialEq)]
pub enum Error {
    BadEntityId,
    Unsupported { action: String, domain: String },
    BadArgument(&'static str),
}

/// The value of a service call.
pub struct CallView {
    pub domain: Seq<char>,
    pub service: Seq<char>,
    pub entity_id: Seq<char>,
    pub data: JsonView,
}

/// The value of a refusal.
pub enum Refusal {
    BadEntityId,
    Unsupported { action: Seq<char>, domain: Seq<char> },
    BadArgument(Seq<char>),
}

impl View for ServiceCall {
    type V = CallView;

    open spec fn view(&self) -> CallView {
        CallView { domain: self.domain@, service: self.service@, entity_id: self.entity_id@, data: self.data@ }
    }
}

impl View for Error {
    type V = Refusal;

    open spec fn view(&self) -> Refusal {
        match self {
            Error::BadEntityId => Refusal::BadEntityId,
            Error::Unsupported { action, domain } => Refusal::Unsupported { action: action@, domain: domain@ },
            Error::BadArgument(what) => Refusal::BadArgument(what@),
        }
    }
}

/// The value of an outcome.
pub open spec fn outcome_view(r: Result<ServiceCall, Error>) -> Result<CallView, Refusal> {
    match r {
        Ok(c) => Ok(c@),
        Err(e) => Err(e@),
    }
}

/// The value of an outcome that may not have been decided.
pub open spec fn partial_view(r: Option<Result<ServiceCall, Error>>) -> Option<Result<CallView, Refusal>> {
    match r {
        Some(r) => Some(outcome_view(r)),
        None => None,
    }
}

/// The domains whose entities switch on and off.
pub open spec fn is_switchable(d: Seq<char>) -> bool {
    ||| d == "light"@
    ||| d == "switch"@
    ||| d == "fan"@
    ||| d == "input_boolean"@
    ||| d == "humidifier"@
    ||| d == "siren"@
    ||| d == "remote"@
    ||| d == "media_player"@
    ||| d == "climate"@
}

/// The service of an action that takes no argument, with the domain that
/// offers it.
pub open spec fn plain_service(domain: Seq<char>, action: Seq<char>) -> Option<(Seq<char>, Seq<char>)> {
    if is_switchable(domain) && action == "toggle"@ {
        Some((domain, "toggle"@))
    } else if is_switchable(domain) && action == "turnOn"@ {
        Some((domain, "turn_on"@))
    } else if is_switchable(domain) && action == "turnOff"@ {
        Some((domain, "turn_off"@))
    } else if domain == "scene"@ && action == "activate"@ {
        Some(("scene"@, "turn_on"@))
    } else if domain == "script"@ && action == "activate"@ {
        Some(("script"@, "turn_on"@))
    } else if (domain == "button"@ || domain == "input_button"@) && action == "activate"@ {
        Some((domain, "press"@))
    } else if domain == "lock"@ && action == "lock"@ {
        Some(("lock"@, "lock"@))
    } else if domain == "lock"@ && action == "unlock"@ {
        Some(("lock"@, "unlock"@))
    } else if domain == "cover"@ && action == "open"@ {
        Some(("cover"@, "open_cover"@))
    } else if domain == "cover"@ && action == "close"@ {
        Some(("cover"@, "close_cover"@))
    } else if domain == "cover"@ && action == "stop"@ {
        Some(("cover"@, "stop_cover"@))
    } else if domain == "media_player"@ && action == "playPause"@ {
        Some(("media_player"@, "media_play_pause"@))
    } else if domain == "media_player"@ && action == "next"@ {
        Some(("media_player"@, "media_next_track"@))
    } else if domain == "media_player"@ && action == "previous"@ {
        Some(("media_player"@, "media_previous_track"@))
    } else {
        None
    }
}

/// The finite number under `key`.
pub open spec fn number_arg(data: JsonView, key: Seq<char>) -> Option<Number> {
    match json_get(data, key) {
        Some(JsonView::Number(n)) => if is_finite_number(n) {
            Some(n)
        } else {
            None
        },
        _ => None,
    }
}

/// The non-empty text under `key`.
pub open spec fn text_arg(data: JsonView, key: Seq<char>) -> Option<Seq<char>> {
    match json_get(data, key) {
        Some(JsonView::Str(s)) => if s.len() > 0 {
            Some(s)
        } else {
            None
        },
        _ => None,
    }
}

/// An object with the given members.
pub open spec fn obj(members: Seq<(Seq<char>, JsonView)>) -> JsonView {
    JsonView::Object(members)
}

/// A non-negative integer as a JSON value.
pub open spec fn uint(v: int) -> JsonView {
    JsonView::Number(Number::PosInt(v as u64))
}

/// A number as a JSON float.
pub open spec fn float(x: Number) -> JsonView {
    JsonView::Number(as_float(x))
}

pub open spec fn made(domain: Seq<char>, service: Seq<char>, entity_id: Seq<char>, data: JsonView) -> Result<CallView, Refusal> {
    Ok(CallView { domain, service, entity_id, data })
}

pub open spec fn bad(what: Seq<char>) -> Result<CallView, Refusal> {
    Err(Refusal::BadArgument(what))
}

/// `setBrightness`: a level in [0, 255]; below 1 the light is turned off.
pub open spec fn brightness_call(id: Seq<char>, data: JsonView) -> Result<CallView, Refusal> {
    match number_arg(data, "brightness"@) {
        None => bad("brightness"@),
        Some(v) => if !in_range(v, 0, 255) {
            bad("brightness"@)
        } else if !num_le(int_number(1), v) {
            made("light"@, "turn_off"@, id, obj(seq![]))
        } else {
            made("light"@, "turn_on"@, id, obj(seq![("brightness"@, uint(round_nonneg(v)))]))
        },
    }
}

/// `setColorTemp`: a colour temperature in [1000, 10000] kelvin.
pub open spec fn color_temp_call(id: Seq<char>, data: JsonView) -> Result<CallView, Refusal> {
    match number_arg(data, "kelvin"@) {
        None => bad("kelvin"@),
        Some(v) => if !in_range(v, 1000, 10000) {
            bad("kelvin"@)
        } else {
            made("light"@, "turn_on"@, id, obj(seq![("color_temp_kelvin"@, uint(round_nonneg(v)))]))
        },
    }
}

/// `setColor`: a hue in [0, 360] and a saturation in [0, 100].
pub open spec fn color_call(id: Seq<char>, data: JsonView) -> Result<CallView, Refusal> {
    match number_arg(data, "hue"@) {
        None => bad("hue"@),
        Some(h) => match number_arg(data, "saturation"@) {
            None => bad("saturation"@),
            Some(s) => if !in_range(h, 0, 360) || !in_range(s, 0, 100) {
                bad("hue/saturation"@)
            } else {
                made(
                    "light"@,
                    "turn_on"@,
                    id,
                    obj(seq![("hs_color"@, JsonView::Array(seq![float(h), float(s)]))]),
                )
            },
        },
    }
}

/// `setPosition`: a cover position in [0, 100].
pub open spec fn position_call(id: Seq<char>, data: JsonView) -> Result<CallView, Refusal> {
    match number_arg(data, "position"@) {
        None => bad("position"@),
        Some(v) => if !in_range(v, 0, 100) {
            bad("position"@)
        } else {
            made("cover"@, "set_cover_position"@, id, obj(seq![("position"@, uint(round_nonneg(v)))]))
        },
    }
}

/// `setVolume`: a level in [0, 1].
pub open spec fn volume_call(id: Seq<char>, data: JsonView) -> Result<CallView, Refusal> {
    match number_arg(data, "level"@) {
        None => bad("level"@),
        Some(v) => if !in_range(v, 0, 1) {
            bad("level"@)
        } else {
            made("media_player"@, "volume_set"@, id, obj(seq![("volume_level"@, float(v))]))
        },
    }
}

/// `setMuted`: a boolean.
pub open spec fn muted_call(id: Seq<char>, data: JsonView) -> Result<CallView, Refusal> {
    match json_get(data, "muted"@) {
        Some(JsonView::Bool(b)) => made(
            "media_player"@,
            "volume_mute"@,
            id,
            obj(seq![("is_volume_muted"@, JsonView::Bool(b))]),
        ),
        _ => bad("muted"@),
    }
}

/// `setSpeed`: a fan percentage in [0, 100].
pub open spec fn speed_call(id: Seq<char>, data: JsonView) -> Result<CallView, Refusal> {
    match number_arg(data, "percentage"@) {
        None => bad("percentage"@),
        Some(v) => if !in_range(v, 0, 100) {
            bad("percentage"@)
        } else {
            made("fan"@, "set_percentage"@, id, obj(seq![("percentage"@, uint(round_nonneg(v)))]))
        },
    }
}

/// A climate mode setting: the non-empty text under `mode`, sent as `field`.
pub open spec fn mode_call(id: Seq<char>, data: JsonView, service: Seq<char>, field: Seq<char>) -> Result<CallView, Refusal> {
    match text_arg(data, "mode"@) {
        None => bad("mode"@),
        Some(m) => made("climate"@, service, id, obj(seq![(field, JsonView::Str(m))])),
    }
}

/// The setpoints a thermostat may be given, in either unit.
pub open spec fn plausible_temperature(v: Number) -> bool {
    in_range(v, -50, 150)
}

/// `setTemperature`: a setpoint in [-50, 150].
pub open spec fn temperature_call(id: Seq<char>, data: JsonView) -> Result<CallView, Refusal> {
    match number_arg(data, "temperature"@) {
        None => bad("temperature"@),
        Some(v) => if !plausible_temperature(v) {
            bad("temperature"@)
        } else {
            made("climate"@, "set_temperature"@, id, obj(seq![("temperature"@, float(v))]))
        },
    }
}

/// `setTemperatureRange`: a band whose low end is not above its high end,
/// both plausible setpoints.
pub open spec fn temperature_range_call(id: Seq<char>, data: JsonView) -> Result<CallView, Refusal> {
    match number_arg(data, "low"@) {
        None => bad("low"@),
        Some(lo) => match number_arg(data, "high"@) {
            None => bad("high"@),
            Some(hi) => if !num_le(lo, hi) || !plausible_temperature(lo) || !plausible_temperature(hi) {
                bad("low/high"@)
            } else {
                made(
                    "climate"@,
                    "set_temperature"@,
                    id,
                    obj(seq![("target_temp_low"@, float(lo)), ("target_temp_high"@, float(hi))]),
                )
            },
        },
    }
}

/// The outcome of an action that takes arguments, where the domain offers it.
pub open spec fn argument_call(id: Seq<char>, domain: Seq<char>, action: Seq<char>, data: JsonView) -> Option<Result<CallView, Refusal>> {
    if domain == "light"@ && action == "setBrightness"@ {
        Some(brightness_call(id, data))
    } else if domain == "light"@ && action == "setColorTemp"@ {
        Some(color_temp_call(id, data))
    } else if domain == "light"@ && action == "setColor"@ {
        Some(color_call(id, data))
    } else if domain == "cover"@ && action == "setPosition"@ {
        Some(position_call(id, data))
    } else if domain == "media_player"@ && action == "setVolume"@ {
        Some(volume_call(id, data))
    } else if domain == "media_player"@ && action == "setMuted"@ {
        Some(muted_call(id, data))
    } else if domain == "fan"@ && action == "setSpeed"@ {
        Some(speed_call(id, data))
    } else if domain == "climate"@ && action == "setHvacMode"@ {
        Some(mode_call(id, data, "set_hvac_mode"@, "hvac_mode"@))
    } else if domain == "climate"@ && action == "setTemperature"@ {
        Some(temperature_call(id, data))
    } else if domain == "climate"@ && action == "setTemperatureRange"@ {
        Some(temperature_range_call(id, data))
    } else if domain == "climate"@ && action == "setFanMode"@ {
        Some(mode_call(id, data, "set_fan_mode"@, "fan_mode"@))
    } else if domain == "climate"@ && action == "setPresetMode"@ {
        Some(mode_call(id, data, "set_preset_mode"@, "preset_mode"@))
    } else {
        None
    }
}

/// What a panel action on an entity resolves to: a refusal of a malformed
/// entity id, the service call of an action that the entity's domain offers,
/// a refusal of a missing or out-of-range argument, or a refusal of an
/// action the domain does not offer.
pub open spec fn resolve_spec(id: Seq<char>, action: Seq<char>, data: JsonView) -> Result<CallView, Refusal> {
    if !valid_entity_id_spec(id) {
        Err(Refusal::BadEntityId)
    } else {
        let domain = domain_spec(id);
        match plain_service(domain, action) {
            Some((d, s)) => made(d, s, id, obj(seq![])),
            None => match argument_call(id, domain, action, data) {
                Some(r) => r,
                None => Err(Refusal::Unsupported { action, domain }),
            },
        }
    }
}

/// A refusal in words.
pub open spec fn refusal_text(e: Refusal) -> Seq<char> {
    match e {
        Refusal::BadEntityId => "not a valid entity id"@,
        Refusal::Unsupported { action, domain } => "\u{201c}"@ + action + "\u{201d} is not something a "@ + domain
            + " entity can do"@,
        Refusal::BadArgument(what) => "missing or invalid "@ + what,
    }
}

impl Error {
    /// The refusal in words.
    pub fn message(&self) -> (r: String)
        ensures
            r@ == refusal_text(self@),
    {
        match self {
            Error::BadEntityId => String::from_str("not a valid entity id"),
            Error::Unsupported { action, domain } => {
                let a = concat("\u{201c}", action.as_str());
                let b = concat(a.as_str(), "\u{201d} is not something a ");
                let c = concat(b.as_str(), domain.as_str());
                concat(c.as_str(), " entity can do")
            },
            Error::BadArgument(what) => concat("missing or invalid ", what),
        }
    }
}

fn bad_argument(what: &'static str) -> (r: Error)
    ensures
        r@ == Refusal::BadArgument(what@),
{
    Error::BadArgument(what)
}

/// The finite number under `key`, or a refusal that names `key`.
fn number(data: &Json, key: &'static str) -> (r: Result<Number, Error>)
    ensures
        match r {
            Ok(n) => number_arg(data@, key@) == Some(n),
            Err(e) => number_arg(data@, key@) is None && e@ == Refusal::BadArgument(key@),
        },
{
    match data.get(key) {
        Some(v) => match v {
            Json::Number(n) => if is_finite(*n) {
                Ok(*n)
            } else {
                Err(bad_argument(key))
            },
            _ => Err(bad_argument(key)),
        },
        None => Err(bad_argument(key)),
    }
}

/// The non-empty text under `key`, or a refusal that names `key`.
fn text(data: &Json, key: &'static str) -> (r: Result<String, Error>)
    ensures
        match r {
            Ok(s) => text_arg(data@, key@) == Some(s@),
            Err(e) => text_arg(data@, key@) is None && e@ == Refusal::BadArgument(key@),
        },
{
    match data.get(key) {
        Some(v) => match v {
            Json::Str(s) => if !s.as_str().is_empty() {
                Ok(s.clone())
            } else {
                Err(bad_argument(key))
            },
            _ => Err(bad_argument(key)),
        },
        None => Err(bad_argument(key)),
    }
}

fn empty_object() -> (r: Json)
    ensures
        r@ == obj(seq![]),
{
    let r = Json::Object(JsonMap { entries: Vec::new() });
    proof {
        assert(members_view(Seq::<(String, Json)>::empty()) =~= seq![]);
    }
    r
}

fn object1(key: &str, value: Json) -> (r: Json)
    ensures
        r@ == obj(seq![(key@, value@)]),
{
    let ghost vv = value@;
    let mut entries: Vec<(String, Json)> = Vec::new();
    entries.push((String::from_str(key), value));
    proof {
        assert(members_view(entries@) =~= seq![(key@, vv)]);
    }
    Json::Object(JsonMap { entries })
}

fn object2(k1: &str, v1: Json, k2: &str, v2: Json) -> (r: Json)
    ensures
        r@ == obj(seq![(k1@, v1@), (k2@, v2@)]),
{
    let ghost w1 = v1@;
    let ghost w2 = v2@;
    let mut entries: Vec<(String, Json)> = Vec::new();
    entries.push((String::from_str(k1), v1));
    entries.push((String::from_str(k2), v2));
    proof {
        assert(members_view(entries@) =~= seq![(k1@, w1), (k2@, w2)]);
    }
    Json::Object(JsonMap { entries })
}

fn array2(a: Json, b: Json) -> (r: Json)
    ensures
        r@ == JsonView::Array(seq![a@, b@]),
{
    let ghost wa = a@;
    let ghost wb = b@;
    let mut items: Vec<Json> = Vec::new();
    items.push(a);
    items.push(b);
    let r = Json::Array(items);
    proof {
        assert(r@->Array_0 =~= seq![wa, wb]);
    }
    r
}

fn call(domain: &str, service: &str, entity_id: &str, data: Json) -> (r: ServiceCall)
    ensures
        r@ == (CallView { domain: domain@, service: service@, entity_id: entity_id@, data: data@ }),
{
    ServiceCall {
        domain: String::from_str(domain),
        service: String::from_str(service),
        entity_id: String::from_str(entity_id),
        data,
    }
}

proof fn lemma_small_range(x: Number, lo: int, hi: int)
    requires
        in_range(x, lo, hi),
        -1000 <= lo <= hi <= 1000,
    ensures
        x is Float || dyadic(x).1 < 0x20_0000_0000_0000,
{
    let (n1, m1, k1) = dyadic(int_number(lo));
    let (n2, m2, k2) = dyadic(int_number(hi));
    assert(k1 == 0 && k2 == 0);
    assert(m1 <= 1000 && m2 <= 1000);
    assert(n2 ==> hi < 0);
    assert(!n1 ==> lo >= 0);
    match x {
        Number::Float(_) => {
            assert(x is Float);
        },
        Number::PosInt(u) => {
            assert(num_le(x, int_number(hi)));
            crate::number::lemma_mag_le_same_scale(u as nat, m2, 0);
            assert(dyadic(x).1 < 0x20_0000_0000_0000);
        },
        Number::NegInt(i) => {
            if i >= 0 {
                crate::number::lemma_mag_le_same_scale(i as nat, m2, 0);
                assert(num_le(x, int_number(hi)));
                assert(dyadic(x).1 < 0x20_0000_0000_0000);
            } else {
                crate::number::lemma_mag_le_same_scale((-i) as nat, m1, 0);
                assert(num_le(int_number(lo), x));
                assert(dyadic(x).1 < 0x20_0000_0000_0000);
            }
        },
    }
}

/// A number in a small range as a JSON float.
fn float_value(x: Number, lo: i64, hi: i64) -> (r: Json)
    requires
        in_range(x, lo as int, hi as int),
        -1000 <= lo <= hi <= 1000,
    ensures
        r@ == float(x),
{
    proof {
        lemma_small_range(x, lo as int, hi as int);
    }
    Json::Number(to_float(x))
}

/// A number in `[lo, hi]` within `[0, 10000]`, rounded, as a JSON integer.
fn rounded_value(x: Number, lo: i64, hi: i64) -> (r: Json)
    requires
        in_range(x, lo as int, hi as int),
        0 <= lo <= hi <= 10000,
    ensures
        r@ == uint(round_nonneg(x)),
{
    proof {
        crate::number::lemma_in_range_within(x, lo as int, hi as int, 10000);
    }
    Json::Number(Number::PosInt(round_exec(x)))
}

fn is_switchable_exec(d: &str) -> (r: bool)
    ensures
        r == is_switchable(d@),
{
    str_eq(d, "light") || str_eq(d, "switch") || str_eq(d, "fan") || str_eq(d, "input_boolean") || str_eq(
        d,
        "humidifier",
    ) || str_eq(d, "siren") || str_eq(d, "remote") || str_eq(d, "media_player") || str_eq(d, "climate")
}

/// The service call of an action that takes no argument.
fn plain_call(domain: &str, action: &str, entity_id: &str) -> (r: Option<ServiceCall>)
    ensures
        match r {
            Some(c) => plain_service(domain@, action@) matches Some((d, s)) && c@ == (CallView {
                domain: d,
                service: s,
                entity_id: entity_id@,
                data: obj(seq![]),
            }),
            None => plain_service(domain@, action@) is None,
        },
{
    let switchable = is_switchable_exec(domain);
    let service = if switchable && str_eq(action, "toggle") {
        Some((domain, "toggle"))
    } else if switchable && str_eq(action, "turnOn") {
        Some((domain, "turn_on"))
    } else if switchable && str_eq(action, "turnOff") {
        Some((domain, "turn_off"))
    } else if str_eq(domain, "scene") && str_eq(action, "activate") {
        Some(("scene", "turn_on"))
    } else if str_eq(domain, "script") && str_eq(action, "activate") {
        Some(("script", "turn_on"))
    } else if (str_eq(domain, "button") || str_eq(domain, "input_button")) && str_eq(action, "activate") {
        Some((domain, "press"))
    } else if str_eq(domain, "lock") && str_eq(action, "lock") {
        Some(("lock", "lock"))
    } else if str_eq(domain, "lock") && str_eq(action, "unlock") {
        Some(("lock", "unlock"))
    } else if str_eq(domain, "cover") && str_eq(action, "open") {
        Some(("cover", "open_cover"))
    } else if str_eq(domain, "cover") && str_eq(action, "close") {
        Some(("cover", "close_cover"))
    } else if str_eq(domain, "cover") && str_eq(action, "stop") {
        Some(("cover", "stop_cover"))
    } else if str_eq(domain, "media_player") && str_eq(action, "playPause") {
        Some(("media_player", "media_play_pause"))
    } else if str_eq(domain, "media_player") && str_eq(action, "next") {
        Some(("media_player", "media_next_track"))
    } else if str_eq(domain, "media_player") && str_eq(action, "previous") {
        Some(("media_player", "media_previous_track"))
    } else {
        None
    };
    match service {
        Some((d, s)) => Some(call(d, s, entity_id, empty_object())),
        None => None,
    }
}

fn brightness(entity_id: &str, data: &Json) -> (r: Result<ServiceCall, Error>)
    ensures
        outcome_view(r) == brightness_call(entity_id@, data@),
{
    let value = match number(data, "brightness") {
        Ok(v) => v,
        Err(e) => return Err(e),
    };
    if !in_range_exec(value, 0, 255) {
        return Err(bad_argument("brightness"));
    }
    // Home Assistant refuses brightness 0; the intent is off.
    if !le(int_number_exec(1), value) {
        return Ok(call("light", "turn_off", entity_id, empty_object()));
    }
    Ok(call("light", "turn_on", entity_id, object1("brightness", rounded_value(value, 0, 255))))
}

fn color_temp(entity_id: &str, data: &Json) -> (r: Result<ServiceCall, Error>)
    ensures
        outcome_view(r) == color_temp_call(entity_id@, data@),
{
    let kelvin = match number(data, "kelvin") {
        Ok(v) => v,
        Err(e) => return Err(e),
    };
    if !in_range_exec(kelvin, 1000, 10000) {
        return Err(bad_argument("kelvin"));
    }
    Ok(call("light", "turn_on", entity_id, object1("color_temp_kelvin", rounded_value(kelvin, 1000, 10000))))
}

fn color(entity_id: &str, data: &Json) -> (r: Result<ServiceCall, Error>)
    ensures
        outcome_view(r) == color_call(entity_id@, data@),
{
    let hue = match number(data, "hue") {
        Ok(v) => v,
        Err(e) => return Err(e),
    };
    let saturation = match number(data, "saturation") {
        Ok(v) => v,
        Err(e) => return Err(e),
    };
    if !in_range_exec(hue, 0, 360) || !in_range_exec(saturation, 0, 100) {
        return Err(bad_argument("hue/saturation"));
    }
    let pair = array2(float_value(hue, 0, 360), float_value(saturation, 0, 100));
    Ok(call("light", "turn_on", entity_id, object1("hs_color", pair)))
}

fn position(entity_id: &str, data: &Json) -> (r: Result<ServiceCall, Error>)
    ensures
        outcome_view(r) == position_call(entity_id@, data@),
{
    let value = match number(data, "position") {
        Ok(v) => v,
        Err(e) => return Err(e),
    };
    if !in_range_exec(value, 0, 100) {
        return Err(bad_argument("position"));
    }
    Ok(call("cover", "set_cover_position", entity_id, object1("position", rounded_value(value, 0, 100))))
}

fn volume(entity_id: &str, data: &Json) -> (r: Result<ServiceCall, Error>)
    ensures
        outcome_view(r) == volume_call(entity_id@, data@),
{
    let level = match number(data, "level") {
        Ok(v) => v,
        Err(e) => return Err(e),
    };
    if !in_range_exec(level, 0, 1) {
        return Err(bad_argument("level"));
    }
    Ok(call("media_player", "volume_set", entity_id, object1("volume_level", float_value(level, 0, 1))))
}

fn muted(entity_id: &str, data: &Json) -> (r: Result<ServiceCall, Error>)
    ensures
        outcome_view(r) == muted_call(entity_id@, data@),
{
    let muted = match data.get("muted") {
        Some(v) => match v {
            Json::Bool(b) => *b,
            _ => return Err(bad_argument("muted")),
        },
        None => return Err(bad_argument("muted")),
    };
    Ok(call("media_player", "volume_mute", entity_id, object1("is_volume_muted", Json::Bool(muted))))
}

fn speed(entity_id: &str, data: &Json) -> (r: Result<ServiceCall, Error>)
    ensures
        outcome_view(r) == speed_call(entity_id@, data@),
{
    let value = match number(data, "percentage") {
        Ok(v) => v,
        Err(e) => return Err(e),
    };
    if !in_range_exec(value, 0, 100) {
        return Err(bad_argument("percentage"));
    }
    Ok(call("fan", "set_percentage", entity_id, object1("percentage", rounded_value(value, 0, 100))))
}

fn mode(entity_id: &str, data: &Json, service: &str, field: &str) -> (r: Result<ServiceCall, Error>)
    ensures
        outcome_view(r) == mode_call(entity_id@, data@, service@, field@),
{
    let m = match text(data, "mode") {
        Ok(m) => m,
        Err(e) => return Err(e),
    };
    Ok(call("climate", service, entity_id, object1(field, Json::Str(m))))
}

fn plausible_temperature_exec(v: Number) -> (r: bool)
    ensures
        r == plausible_temperature(v),
{
    in_range_exec(v, -50, 150)
}

fn temperature(entity_id: &str, data: &Json) -> (r: Result<ServiceCall, Error>)
    ensures
        outcome_view(r) == temperature_call(entity_id@, data@),
{
    let value = match number(data, "temperature") {
        Ok(v) => v,
        Err(e) => return Err(e),
    };
    if !plausible_temperature_exec(value) {
        return Err(bad_argument("temperature"));
    }
    Ok(call("climate", "set_temperature", entity_id, object1("temperature", float_value(value, -50, 150))))
}

fn temperature_range(entity_id: &str, data: &Json) -> (r: Result<ServiceCall, Error>)
    ensures
        outcome_view(r) == temperature_range_call(entity_id@, data@),
{
    let low = match number(data, "low") {
        Ok(v) => v,
        Err(e) => return Err(e),
    };
    let high = match number(data, "high") {
        Ok(v) => v,
        Err(e) => return Err(e),
    };
    if !le(low, high) || !plausible_temperature_exec(low) || !plausible_temperature_exec(high) {
        return Err(bad_argument("low/high"));
    }
    let band = object2("target_temp_low", float_value(low, -50, 150), "target_temp_high", float_value(high, -50, 150));
    Ok(call("climate", "set_temperature", entity_id, band))
}

/// The outcome of an action that takes arguments, where the domain offers it.
fn argument_call_exec(entity_id: &str, domain: &str, action: &str, data: &Json) -> (r: Option<Result<ServiceCall, Error>>)
    ensures
        partial_view(r) == argument_call(entity_id@, domain@, action@, data@),
{
    if str_eq(domain, "light") && str_eq(action, "setBrightness") {
        Some(brightness(entity_id, data))
    } else if str_eq(domain, "light") && str_eq(action, "setColorTemp") {
        Some(color_temp(entity_id, data))
    } else if str_eq(domain, "light") && str_eq(action, "setColor") {
        Some(color(entity_id, data))
    } else if str_eq(domain, "cover") && str_eq(action, "setPosition") {
        Some(position(entity_id, data))
    } else if str_eq(domain, "media_player") && str_eq(action, "setVolume") {
        Some(volume(entity_id, data))
    } else if str_eq(domain, "media_player") && str_eq(action, "setMuted") {
        Some(muted(entity_id, data))
    } else if str_eq(domain, "fan") && str_eq(action, "setSpeed") {
        Some(speed(entity_id, data))
    } else if str_eq(domain, "climate") && str_eq(action, "setHvacMode") {
        Some(mode(entity_id, data, "set_hvac_mode", "hvac_mode"))
    } else if str_eq(domain, "climate") && str_eq(action, "setTemperature") {
        Some(temperature(entity_id, data))
    } else if str_eq(domain, "climate") && str_eq(action, "setTemperatureRange") {
        Some(temperature_range(entity_id, data))
    } else if str_eq(domain, "climate") && str_eq(action, "setFanMode") {
        Some(mode(entity_id, data, "set_fan_mode", "fan_mode"))
    } else if str_eq(domain, "climate") && str_eq(action, "setPresetMode") {
        Some(mode(entity_id, data, "set_preset_mode", "preset_mode"))
    } else {
        None
    }
}

/// Resolves a panel action on an entity to the Home Assistant service call
/// that carries it out. The service is never taken from the request: it
/// follows from the entity's domain and the action alone, and every argument
/// is checked against the range the device accepts.
pub fn resolve(entity_id: &str, action: &str, data: &Json) -> (r: Result<ServiceCall, Error>)
    ensures
        outcome_view(r) == resolve_spec(entity_id@, action@, data@),
{
    if !valid_entity_id(entity_id) {
        return Err(Error::BadEntityId);
    }
    let domain = domain_of(entity_id);
    match plain_call(domain, action, entity_id) {
        Some(c) => return Ok(c),
        None => {},
    }
    match argument_call_exec(entity_id, domain, action, data) {
        Some(r) => r,
        None => Err(Error::Unsupported { action: String::from_str(action), domain: String::from_str(domain) }),
    }
}

/// The services that a panel action can reach.
pub open spec fn is_known_service(s: Seq<char>) -> bool {
    ||| s == "toggle"@
    ||| s == "turn_on"@
    ||| s == "turn_off"@
    ||| s == "press"@
    ||| s == "lock"@
    ||| s == "unlock"@
    ||| s == "open_cover"@
    ||| s == "close_cover"@
    ||| s == "stop_cover"@
    ||| s == "set_cover_position"@
    ||| s == "media_play_pause"@
    ||| s == "media_next_track"@
    ||| s == "media_previous_track"@
    ||| s == "volume_set"@
    ||| s == "volume_mute"@
    ||| s == "set_percentage"@
    ||| s == "set_hvac_mode"@
    ||| s == "set_temperature"@
    ||| s == "set_fan_mode"@
    ||| s == "set_preset_mode"@
}

/// A malformed entity id is refused whatever the action; a call that is
/// resolved targets exactly the entity it was asked for, in that entity's own
/// domain, and names one of the fixed services, so nothing in a request can
/// reach another domain or a service of its own choosing.
pub proof fn law_calls_stay_on_their_entity(id: Seq<char>, action: Seq<char>, data: JsonView)
    ensures
        !valid_entity_id_spec(id) ==> resolve_spec(id, action, data) == Err::<CallView, Refusal>(Refusal::BadEntityId),
        resolve_spec(id, action, data) matches Ok(c) ==> {
            &&& valid_entity_id_spec(id)
            &&& c.entity_id == id
            &&& c.domain == domain_spec(id)
            &&& is_known_service(c.service)
        },
{
}

/// The service that an action resolves to follows from the entity and the
/// action alone; the data can only refuse it, except that a brightness below
/// one turns the light off rather than on.
pub proof fn law_data_never_picks_the_service(id: Seq<char>, action: Seq<char>, d1: JsonView, d2: JsonView)
    requires
        resolve_spec(id, action, d1) is Ok,
        resolve_spec(id, action, d2) is Ok,
        action != "setBrightness"@,
    ensures
        resolve_spec(id, action, d1)->Ok_0.service == resolve_spec(id, action, d2)->Ok_0.service,
{
}

/// Two request bodies that differ at most in members named `domain` or
/// `service`.
pub open spec fn same_but_domain_and_service(d1: JsonView, d2: JsonView) -> bool {
    forall|k: Seq<char>| k != "domain"@ && k != "service"@ ==> #[trigger] json_get(d1, k) == json_get(d2, k)
}

/// A request cannot name its own domain or service: members called `domain`
/// or `service` in its data change nothing about what it resolves to.
pub proof fn law_data_cannot_name_a_service(id: Seq<char>, action: Seq<char>, d1: JsonView, d2: JsonView)
    requires
        same_but_domain_and_service(d1, d2),
    ensures
        resolve_spec(id, action, d1) == resolve_spec(id, action, d2),
{
    reveal_strlit("domain");
    reveal_strlit("service");
    reveal_strlit("brightness");
    reveal_strlit("kelvin");
    reveal_strlit("hue");
    reveal_strlit("saturation");
    reveal_strlit("position");
    reveal_strlit("level");
    reveal_strlit("muted");
    reveal_strlit("percentage");
    reveal_strlit("mode");
    reveal_strlit("temperature");
    reveal_strlit("low");
    reveal_strlit("high");
    lemma_key_read_alike(d1, d2, "brightness"@, 0);
    lemma_key_read_alike(d1, d2, "kelvin"@, 0);
    lemma_key_read_alike(d1, d2, "hue"@, 0);
    lemma_key_read_alike(d1, d2, "saturation"@, 1);
    lemma_key_read_alike(d1, d2, "position"@, 0);
    lemma_key_read_alike(d1, d2, "level"@, 0);
    lemma_key_read_alike(d1, d2, "muted"@, 0);
    lemma_key_read_alike(d1, d2, "percentage"@, 0);
    lemma_key_read_alike(d1, d2, "mode"@, 0);
    lemma_key_read_alike(d1, d2, "temperature"@, 0);
    lemma_key_read_alike(d1, d2, "low"@, 0);
    lemma_key_read_alike(d1, d2, "high"@, 0);
}

proof fn lemma_key_read_alike(d1: JsonView, d2: JsonView, k: Seq<char>, i: int)
    requires
        same_but_domain_and_service(d1, d2),
        0 <= i < k.len(),
        i < 6,
        k[i] != "domain"@[i],
        k[i] != "service"@[i],
    ensures
        json_get(d1, k) == json_get(d2, k),
{
    reveal_strlit("domain");
    reveal_strlit("service");
    assert(k != "domain"@);
    assert(k != "service"@);
}

/// An entity of a domain that switches on and off (lights, switches, fans,
/// input booleans, humidifiers, sirens, remotes, media players and climate
/// devices) can always be toggled, turned on and turned off, whatever the
/// data: by its own domain's `toggle`, `turn_on` and `turn_off` service, with
/// no data.
pub proof fn law_switching_entities_toggle_and_turn_on_and_off(id: Seq<char>, data: JsonView)
    requires
        valid_entity_id_spec(id),
        domain_spec(id) == "light"@ || domain_spec(id) == "switch"@ || domain_spec(id) == "fan"@ || domain_spec(id)
            == "input_boolean"@ || domain_spec(id) == "humidifier"@ || domain_spec(id) == "siren"@ || domain_spec(id)
            == "remote"@ || domain_spec(id) == "media_player"@ || domain_spec(id) == "climate"@,
    ensures
        resolve_spec(id, "toggle"@, data) == Ok::<CallView, Refusal>(
            CallView { domain: domain_spec(id), service: "toggle"@, entity_id: id, data: obj(seq![]) },
        ),
        resolve_spec(id, "turnOn"@, data) == Ok::<CallView, Refusal>(
            CallView { domain: domain_spec(id), service: "turn_on"@, entity_id: id, data: obj(seq![]) },
        ),
        resolve_spec(id, "turnOff"@, data) == Ok::<CallView, Refusal>(
            CallView { domain: domain_spec(id), service: "turn_off"@, entity_id: id, data: obj(seq![]) },
        ),
{
    reveal_strlit("toggle");
    reveal_strlit("turnOn");
    reveal_strlit("turnOff");
    assert("turnOn"@[1] != "toggle"@[1]);
    assert("turnOn"@ != "toggle"@);
    assert("turnOff"@.len() != "toggle"@.len());
    assert("turnOff"@.len() != "turnOn"@.len());
}

} // verus!
