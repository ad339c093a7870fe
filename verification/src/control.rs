use vstd::prelude::*;

use crate::action::{refusal_text, resolve, resolve_spec, CallView, ServiceCall};
use crate::chars::concat;
use crate::config::Config;
use crate::daemon::{
    display_name, display_name_spec, registry_icon, registry_icon_spec, registry_name, registry_name_spec, visible,
    States, REGISTRY_REFRESH_FLOOR_SECS,
};
use crate::filter::is_visible_spec;
use crate::icons::Glyphs;
use crate::json::{as_str_opt, clone_json, json_as_bool, json_get, Json, JsonView};
use crate::keyring;
use crate::model::{is_row_of, row, Row};
use crate::protocol::{Command, ConnectionState, Level};
use crate::registry::{entry_of, AreaPrefs, Registry};
use crate::text::{trim, trim_text, valid_entity_id, valid_entity_id_spec};
use crate::url::{parse, parse_spec, url_error_text};

verus! {

/// Something the daemon does besides changing its settings.
#[derive(Debug)]
pub enum Effect {
    /// Write the settings to disk.
    Save,
    /// Tell the panel the settings.
    EmitConfig,
    /// Tell the panel the tabs and the room picker's list.
    EmitProjection,
    /// Tell the panel the log entries kept so far.
    ReplayHistory,
    /// Tell the panel where the connection stands, and why where that helps.
    EmitStatus(ConnectionState, Option<String>),
    /// Log an entry, and tell the panel.
    Log { level: Level, text: String, entity_id: Option<String> },
    /// Tell the panel an entity's new row.
    EmitRow(Row),
    /// Tell the panel an entity is gone.
    EmitDropped(String),
}

/// The value of an effect.
pub enum EffectView {
    Save,
    EmitConfig,
    EmitProjection,
    ReplayHistory,
    EmitStatus(ConnectionState, Option<Seq<char>>),
    Log(Level, Seq<char>, Option<Seq<char>>),
    EmitRow(Row),
    EmitDropped(Seq<char>),
}

pub open spec fn effect_view(e: Effect) -> EffectView {
    match e {
        Effect::Save => EffectView::Save,
        Effect::EmitConfig => EffectView::EmitConfig,
        Effect::EmitProjection => EffectView::EmitProjection,
        Effect::ReplayHistory => EffectView::ReplayHistory,
        Effect::EmitStatus(s, m) => EffectView::EmitStatus(
            s,
            match m {
                Some(m) => Some(m@),
                None => None,
            },
        ),
        Effect::Log { level, text, entity_id } => EffectView::Log(
            level,
            text@,
            match entity_id {
                Some(id) => Some(id@),
                None => None,
            },
        ),
        Effect::EmitRow(r) => EffectView::EmitRow(r),
        Effect::EmitDropped(id) => EffectView::EmitDropped(id@),
    }
}

/// The values of a list of effects.
pub open spec fn effects_view(effects: Seq<Effect>) -> Seq<EffectView> {
    Seq::new(effects.len(), |i: int| effect_view(effects[i]))
}

/// Where the connection goes after a command.
#[derive(Debug, Clone, Copy, PartialEq, Eq, Structural)]
pub enum Outcome {
    /// Nothing about the connection changes.
    Lost,
    /// Connect afresh with the current settings.
    Reconfigure,
    /// The daemon stops.
    Stop,
}

/// How a command is handled while no connection is up.
#[derive(Debug)]
pub enum Step {
    /// Finished: these effects, in order, then this outcome.
    Done { effects: Vec<Effect>, outcome: Outcome },
    /// The token goes into the keyring under `origin`; `token_stored` finishes
    /// with `target`, the address it was entered against.
    StoreToken { origin: String, token: String, target: String },
    /// The keyring forgets the token of `origin`; `token_cleared` finishes, and
    /// the daemon connects afresh.
    ClearToken { origin: String },
}

/// The value of a step.
pub enum StepView {
    Done(Seq<EffectView>, Outcome),
    StoreToken { origin: Seq<char>, token: Seq<char>, target: Seq<char> },
    ClearToken { origin: Seq<char> },
}

pub open spec fn step_view(s: Step) -> StepView {
    match s {
        Step::Done { effects, outcome } => StepView::Done(effects_view(effects@), outcome),
        Step::StoreToken { origin, token, target } => StepView::StoreToken {
            origin: origin@,
            token: token@,
            target: target@,
        },
        Step::ClearToken { origin } => StepView::ClearToken { origin: origin@ },
    }
}

pub open spec fn log(level: Level, text: Seq<char>) -> EffectView {
    EffectView::Log(level, text, None)
}

pub open spec fn done(effects: Seq<EffectView>, outcome: Outcome) -> StepView {
    StepView::Done(effects, outcome)
}

/// The address a token is meant for: the one entered with it, else the one
/// configured.
pub open spec fn token_target(c: Config, url: Option<String>) -> Seq<char> {
    match url {
        Some(u) => u@,
        None => c.base_url@,
    }
}

/// The settings after a command handled offline.
pub open spec fn offline_config(c: Config, command: Command) -> Config {
    match command {
        Command::SetUrl { url } => if parse_spec(url@) is Ok {
            Config { base_url: url, ..c }
        } else {
            c
        },
        Command::SetAreaPrefs { order, hidden, hide_empty_areas, hide_entities_without_area } => Config {
            areas: AreaPrefs {
                order: match order {
                    Some(o) => o,
                    None => c.areas.order,
                },
                hidden: match hidden {
                    Some(h) => h,
                    None => c.areas.hidden,
                },
                hide_empty_areas: match hide_empty_areas {
                    Some(b) => b,
                    None => c.areas.hide_empty_areas,
                },
                hide_entities_without_area: match hide_entities_without_area {
                    Some(b) => b,
                    None => c.areas.hide_entities_without_area,
                },
            },
            imported_dashboard_prefs: true,
            ..c
        },
        Command::SetFavorites { ids, show } => Config {
            favorites: ids,
            show_favorites: match show {
                Some(b) => b,
                None => c.show_favorites,
            },
            ..c
        },
        Command::SetPinnedTabs { ids } => Config { pinned_tabs: ids, ..c },
        Command::SetSelectedTab { tab } => Config { selected_tab: tab, ..c },
        _ => c,
    }
}

/// What a command does while no connection is up.
pub open spec fn offline_spec(c: Config, command: Command) -> StepView {
    match command {
        Command::Connect => done(seq![], Outcome::Reconfigure),
        Command::Refresh => done(seq![], Outcome::Reconfigure),
        Command::Disconnect => done(seq![EffectView::EmitStatus(ConnectionState::Offline, None)], Outcome::Lost),
        Command::SetUrl { url } => match parse_spec(url@) {
            Err(e) => done(seq![log(Level::Warn, url_error_text(e))], Outcome::Lost),
            Ok(_) => done(seq![EffectView::Save, EffectView::EmitConfig], Outcome::Reconfigure),
        },
        Command::SetToken { token, url } => match parse_spec(token_target(c, url)) {
            Err(e) => done(seq![log(Level::Error, url_error_text(e))], Outcome::Lost),
            Ok(endpoint) => if trim(token@).len() == 0 {
                done(seq![log(Level::Warn, "That token is empty."@)], Outcome::Lost)
            } else {
                StepView::StoreToken { origin: endpoint.0, token: trim(token@), target: token_target(c, url) }
            },
        },
        Command::ForgetToken => match parse_spec(c.base_url@) {
            Ok(endpoint) => StepView::ClearToken { origin: endpoint.0 },
            Err(_) => done(seq![], Outcome::Reconfigure),
        },
        Command::SetAreaPrefs { .. } => done(
            seq![EffectView::Save, EffectView::EmitProjection, EffectView::EmitConfig],
            Outcome::Lost,
        ),
        Command::SetFavorites { .. } => done(seq![EffectView::Save, EffectView::EmitConfig], Outcome::Lost),
        Command::SetPinnedTabs { .. } => done(seq![EffectView::Save, EffectView::EmitConfig], Outcome::Lost),
        Command::SetSelectedTab { .. } => done(seq![EffectView::Save], Outcome::Lost),
        Command::Status => done(
            seq![EffectView::EmitConfig, EffectView::EmitProjection, EffectView::ReplayHistory],
            Outcome::Lost,
        ),
        Command::Action { entity_id, .. } => done(
            seq![EffectView::Log(Level::Warn, "Not connected to Home Assistant."@, Some(entity_id@))],
            Outcome::Lost,
        ),
        Command::ImportDashboardPrefs => done(seq![log(Level::Warn, "Not connected to Home Assistant."@)], Outcome::Lost),
    }
}

pub(crate) fn effects1(a: Effect) -> (r: Vec<Effect>)
    ensures
        effects_view(r@) == seq![effect_view(a)],
{
    let ghost va = effect_view(a);
    let mut v = Vec::new();
    v.push(a);
    proof {
        assert(effects_view(v@) =~= seq![va]);
    }
    v
}

pub(crate) fn effects2(a: Effect, b: Effect) -> (r: Vec<Effect>)
    ensures
        effects_view(r@) == seq![effect_view(a), effect_view(b)],
{
    let ghost va = effect_view(a);
    let ghost vb = effect_view(b);
    let mut v = Vec::new();
    v.push(a);
    v.push(b);
    proof {
        assert(effects_view(v@) =~= seq![va, vb]);
    }
    v
}

pub(crate) fn effects3(a: Effect, b: Effect, c: Effect) -> (r: Vec<Effect>)
    ensures
        effects_view(r@) == seq![effect_view(a), effect_view(b), effect_view(c)],
{
    let ghost va = effect_view(a);
    let ghost vb = effect_view(b);
    let ghost vc = effect_view(c);
    let mut v = Vec::new();
    v.push(a);
    v.push(b);
    v.push(c);
    proof {
        assert(effects_view(v@) =~= seq![va, vb, vc]);
    }
    v
}

pub(crate) fn no_effects() -> (r: Vec<Effect>)
    ensures
        effects_view(r@) == Seq::<EffectView>::empty(),
{
    let v = Vec::new();
    proof {
        assert(effects_view(v@) =~= Seq::<EffectView>::empty());
    }
    v
}

pub(crate) fn log_effect(level: Level, text: String) -> (r: Effect)
    ensures
        effect_view(r) == log(level, text@),
{
    Effect::Log { level, text, entity_id: None }
}

/// Handles a command while no connection is up: the settings change as
/// `offline_config` says, and the step is `offline_spec`'s.
pub fn offline(config: &mut Config, command: Command) -> (r: Step)
    ensures
        *final(config) == offline_config(*old(config), command),
        step_view(r) == offline_spec(*old(config), command),
{
    match command {
        Command::Connect | Command::Refresh => Step::Done { effects: no_effects(), outcome: Outcome::Reconfigure },
        Command::Disconnect => Step::Done {
            effects: effects1(Effect::EmitStatus(ConnectionState::Offline, None)),
            outcome: Outcome::Lost,
        },
        Command::SetUrl { url } => {
            match parse(url.as_str()) {
                Err(e) => {
                    return Step::Done { effects: effects1(log_effect(Level::Warn, e.message())), outcome: Outcome::Lost };
                },
                Ok(_) => {},
            }
            config.base_url = url;
            Step::Done { effects: effects2(Effect::Save, Effect::EmitConfig), outcome: Outcome::Reconfigure }
        },
        Command::SetToken { token, url } => {
            let target = match url {
                Some(u) => u,
                None => config.base_url.clone(),
            };
            let endpoint = match parse(target.as_str()) {
                Ok(endpoint) => endpoint,
                Err(e) => {
                    return Step::Done { effects: effects1(log_effect(Level::Error, e.message())), outcome: Outcome::Lost };
                },
            };
            let token = trim_text(token.as_str());
            if token.as_str().is_empty() {
                return Step::Done {
                    effects: effects1(log_effect(Level::Warn, String::from_str("That token is empty."))),
                    outcome: Outcome::Lost,
                };
            }
            Step::StoreToken { origin: endpoint.origin, token, target }
        },
        Command::ForgetToken => match parse(config.base_url.as_str()) {
            Ok(endpoint) => Step::ClearToken { origin: endpoint.origin },
            Err(_) => Step::Done { effects: no_effects(), outcome: Outcome::Reconfigure },
        },
        Command::SetAreaPrefs { order, hidden, hide_empty_areas, hide_entities_without_area } => {
            match order {
                Some(o) => config.areas.order = o,
                None => {},
            }
            match hidden {
                Some(h) => config.areas.hidden = h,
                None => {},
            }
            match hide_empty_areas {
                Some(b) => config.areas.hide_empty_areas = b,
                None => {},
            }
            match hide_entities_without_area {
                Some(b) => config.areas.hide_entities_without_area = b,
                None => {},
            }
            config.imported_dashboard_prefs = true;
            Step::Done {
                effects: effects3(Effect::Save, Effect::EmitProjection, Effect::EmitConfig),
                outcome: Outcome::Lost,
            }
        },
        Command::SetFavorites { ids, show } => {
            config.favorites = ids;
            match show {
                Some(b) => config.show_favorites = b,
                None => {},
            }
            Step::Done { effects: effects2(Effect::Save, Effect::EmitConfig), outcome: Outcome::Lost }
        },
        Command::SetPinnedTabs { ids } => {
            config.pinned_tabs = ids;
            Step::Done { effects: effects2(Effect::Save, Effect::EmitConfig), outcome: Outcome::Lost }
        },
        Command::SetSelectedTab { tab } => {
            config.selected_tab = tab;
            Step::Done { effects: effects1(Effect::Save), outcome: Outcome::Lost }
        },
        Command::Status => Step::Done {
            effects: effects3(Effect::EmitConfig, Effect::EmitProjection, Effect::ReplayHistory),
            outcome: Outcome::Lost,
        },
        Command::Action { entity_id, .. } => Step::Done {
            effects: effects1(
                Effect::Log {
                    level: Level::Warn,
                    text: String::from_str("Not connected to Home Assistant."),
                    entity_id: Some(entity_id),
                },
            ),
            outcome: Outcome::Lost,
        },
        Command::ImportDashboardPrefs => Step::Done {
            effects: effects1(log_effect(Level::Warn, String::from_str("Not connected to Home Assistant."))),
            outcome: Outcome::Lost,
        },
    }
}

/// The settings and effects after the keyring stored a token for `target`:
/// on success the address becomes the configured one (saved and told where it
/// changed) and the daemon connects afresh; a failure is logged.
pub fn token_stored(config: &mut Config, target: String, stored: Result<(), keyring::Error>) -> (r: (Vec<Effect>, Outcome))
    ensures
        stored is Ok && old(config).base_url@ != target@ ==> {
            &&& *final(config) == Config { base_url: target, ..*old(config) }
            &&& effects_view(r.0@) == seq![EffectView::Save, EffectView::EmitConfig]
            &&& r.1 == Outcome::Reconfigure
        },
        stored is Ok && old(config).base_url@ == target@ ==> {
            &&& *final(config) == *old(config)
            &&& effects_view(r.0@) == Seq::<EffectView>::empty()
            &&& r.1 == Outcome::Reconfigure
        },
        stored matches Err(e) ==> {
            &&& *final(config) == *old(config)
            &&& effects_view(r.0@) == seq![log(Level::Error, keyring::error_text(e))]
            &&& r.1 == Outcome::Lost
        },
{
    match stored {
        Ok(()) => {
            if !crate::chars::str_eq(config.base_url.as_str(), target.as_str()) {
                config.base_url = target;
                (effects2(Effect::Save, Effect::EmitConfig), Outcome::Reconfigure)
            } else {
                (no_effects(), Outcome::Reconfigure)
            }
        },
        Err(e) => (effects1(log_effect(Level::Error, e.message())), Outcome::Lost),
    }
}

/// The effects after the keyring was asked to forget a token: a failure is
/// logged. The daemon connects afresh either way.
pub fn token_cleared(cleared: Result<(), keyring::Error>) -> (r: Vec<Effect>)
    ensures
        cleared is Ok ==> effects_view(r@) == Seq::<EffectView>::empty(),
        cleared matches Err(e) ==> effects_view(r@) == seq![log(Level::Error, keyring::error_text(e))],
{
    match cleared {
        Ok(()) => no_effects(),
        Err(e) => effects1(log_effect(Level::Error, e.message())),
    }
}

/// Whether a command is of a kind that changes the credential: a token, an
/// address, or forgetting the token.
pub open spec fn changes_credential(command: Command) -> bool {
    command is SetToken || command is SetUrl || command is ForgetToken
}

/// Whether a command changes the credential: only then is a rejected token
/// worth another try.
pub fn is_credential_change(command: &Command) -> (r: bool)
    ensures
        r == changes_credential(*command),
{
    match command {
        Command::SetToken { .. } | Command::SetUrl { .. } | Command::ForgetToken => true,
        _ => false,
    }
}

/// How a command is handled while connected.
#[derive(Debug)]
pub enum Online {
    /// Send this call; once it is sent, log `done` about `entity_id`. A failed
    /// send loses the connection.
    Call { call: ServiceCall, done: String, entity_id: String },
    /// Finished: these effects, in order; then, where there is one, this outcome.
    Done { effects: Vec<Effect>, outcome: Option<Outcome> },
    /// Handled as offline, with `stay_online` deciding what its outcome means.
    Offline(Step),
}

/// The value of an online step.
pub enum OnlineView {
    Call(CallView, Seq<char>, Seq<char>),
    Done(Seq<EffectView>, Option<Outcome>),
    Offline(StepView),
}

pub open spec fn online_view(o: Online) -> OnlineView {
    match o {
        Online::Call { call, done, entity_id } => OnlineView::Call(call@, done@, entity_id@),
        Online::Done { effects, outcome } => OnlineView::Done(effects_view(effects@), outcome),
        Online::Offline(s) => OnlineView::Offline(step_view(s)),
    }
}

/// The settings after a command handled while connected.
pub open spec fn online_config(c: Config, command: Command) -> Config {
    match command {
        Command::Action { .. } => c,
        Command::Refresh => c,
        Command::Disconnect => c,
        Command::Status => c,
        Command::ImportDashboardPrefs => Config { imported_dashboard_prefs: false, ..c },
        _ => offline_config(c, command),
    }
}

/// What a command does while connected. An action is resolved, and either
/// sent with a log line naming the entity and the service, or refused with a
/// warning about the entity.
pub open spec fn online_spec(c: Config, states: Map<Seq<char>, JsonView>, command: Command) -> OnlineView {
    match command {
        Command::Action { entity_id, action, data } => match resolve_spec(entity_id@, action@, data@) {
            Ok(call) => OnlineView::Call(
                call,
                display_name_spec(c.display_name_overrides@, states, entity_id@) + " \u{2014} "@ + call.domain + "."@
                    + call.service,
                entity_id@,
            ),
            Err(e) => OnlineView::Done(
                seq![EffectView::Log(Level::Warn, refusal_text(e), Some(entity_id@))],
                None,
            ),
        },
        Command::Refresh => OnlineView::Done(seq![], Some(Outcome::Reconfigure)),
        Command::Disconnect => OnlineView::Done(seq![EffectView::EmitStatus(ConnectionState::Offline, None)], Some(Outcome::Stop)),
        Command::ImportDashboardPrefs => OnlineView::Done(
            seq![log(Level::Info, "Re-reading your Home Assistant dashboard."@), EffectView::Save],
            Some(Outcome::Reconfigure),
        ),
        Command::Status => OnlineView::Done(
            seq![EffectView::EmitConfig, EffectView::EmitProjection, EffectView::ReplayHistory],
            None,
        ),
        _ => OnlineView::Offline(offline_spec(c, command)),
    }
}

/// Handles a command while connected: the settings change as
/// `online_config` says, and the step is `online_spec`'s.
pub fn online(config: &mut Config, states: &States, command: Command) -> (r: Online)
    ensures
        *final(config) == online_config(*old(config), command),
        online_view(r) == online_spec(*old(config), states.view(), command),
{
    match command {
        Command::Action { entity_id, action, data } => {
            match resolve(entity_id.as_str(), action.as_str(), &data) {
                Ok(call) => {
                    let name = display_name(config, states, entity_id.as_str());
                    let a = concat(name.as_str(), " \u{2014} ");
                    let b = concat(a.as_str(), call.domain.as_str());
                    let c = concat(b.as_str(), ".");
                    let done = concat(c.as_str(), call.service.as_str());
                    Online::Call { call, done, entity_id }
                },
                Err(e) => {
                    let text = e.message();
                    Online::Done {
                        effects: effects1(Effect::Log { level: Level::Warn, text, entity_id: Some(entity_id) }),
                        outcome: None,
                    }
                },
            }
        },
        Command::Refresh => Online::Done { effects: no_effects(), outcome: Some(Outcome::Reconfigure) },
        Command::Disconnect => Online::Done {
            effects: effects1(Effect::EmitStatus(ConnectionState::Offline, None)),
            outcome: Some(Outcome::Stop),
        },
        Command::ImportDashboardPrefs => {
            config.imported_dashboard_prefs = false;
            Online::Done {
                effects: effects2(
                    log_effect(Level::Info, String::from_str("Re-reading your Home Assistant dashboard.")),
                    Effect::Save,
                ),
                outcome: Some(Outcome::Reconfigure),
            }
        },
        Command::Status => Online::Done {
            effects: effects3(Effect::EmitConfig, Effect::EmitProjection, Effect::ReplayHistory),
            outcome: None,
        },
        other => Online::Offline(offline(config, other)),
    }
}

/// What an offline outcome means while connected: a stop or a fresh
/// connection ends the stream; anything else keeps it.
pub fn stay_online(outcome: Outcome) -> (r: Option<Outcome>)
    ensures
        outcome == Outcome::Lost ==> r is None,
        outcome != Outcome::Lost ==> r == Some(outcome),
{
    match outcome {
        Outcome::Lost => None,
        other => Some(other),
    }
}

/// The text under `key`, if there is text there.
pub open spec fn text_at(m: JsonView, key: Seq<char>) -> Option<Seq<char>> {
    as_str_opt(json_get(m, key))
}

/// Why Home Assistant refused a request, as the answer says it; a stock
/// sentence where it says nothing.
pub open spec fn refusal_message(m: JsonView) -> Seq<char> {
    let said = match json_get(m, "error"@) {
        Some(e) => text_at(e, "message"@),
        None => None,
    };
    match said {
        Some(t) => t,
        None => "Home Assistant refused the request"@,
    }
}

/// Whether an answer reports a failure.
pub open spec fn reports_failure(m: JsonView) -> bool {
    match json_get(m, "success"@) {
        Some(v) => json_as_bool(v) == Some(false),
        None => false,
    }
}

/// The registry events that make the daemon reload.
pub open spec fn is_registry_event(t: Seq<char>) -> bool {
    t == "area_registry_updated"@ || t == "entity_registry_updated"@ || t == "device_registry_updated"@
}

/// A `state_changed` event as the daemon takes it in. Nothing happens unless
/// the event names a well-formed, visible entity and carries a new state. A
/// null state drops the entity: the panel is told, and the tabs are
/// re-projected. Any other state is kept; the panel gets its row, where the
/// state names an entity, and, where the entity is new, fresh tabs.
pub open spec fn state_change_done(
    event: JsonView,
    before: Map<Seq<char>, JsonView>,
    after: Map<Seq<char>, JsonView>,
    reg: Registry,
    overrides: Seq<(String, String)>,
    glyphs: Glyphs,
    effects: Seq<EffectView>,
) -> bool {
    let data = json_get(event, "data"@);
    let id = match data {
        Some(d) => text_at(d, "entity_id"@),
        None => None,
    };
    let new_state = match data {
        Some(d) => json_get(d, "new_state"@),
        None => None,
    };
    if id is None || !valid_entity_id_spec(id->0) || !is_visible_spec(id->0, entry_of(reg.entities@, id->0))
        || new_state is None {
        after == before && effects.len() == 0
    } else {
        let id = id->0;
        let state = new_state->0;
        if state is Null {
            &&& after == before.remove(id)
            &&& effects == seq![EffectView::EmitDropped(id), EffectView::EmitProjection]
        } else {
            let tail: Seq<EffectView> = if before.dom().contains(id) {
                seq![]
            } else {
                seq![EffectView::EmitProjection]
            };
            &&& after == before.insert(id, state)
            &&& if text_at(state, "entity_id"@) is Some {
                &&& effects.len() == tail.len() + 1
                &&& effects.drop_first() == tail
                &&& effects[0] matches EffectView::EmitRow(r) && is_row_of(
                    state,
                    registry_name_spec(overrides, reg, id),
                    registry_icon_spec(reg, id),
                    glyphs,
                    r,
                )
            } else {
                effects == tail
            }
        }
    }
}

/// A message from Home Assistant as the daemon takes it in. An answer that
/// reports a failure is logged as a warning; other answers are ignored. Of
/// events, state changes are taken in (`state_change_done`), and a change to
/// the areas, devices or entities marks the registry stale, unless the
/// connection is younger than `REGISTRY_REFRESH_FLOOR_SECS`; others are
/// ignored.
pub open spec fn event_handled(
    m: JsonView,
    connected_secs: u64,
    before: Map<Seq<char>, JsonView>,
    after: Map<Seq<char>, JsonView>,
    reg: Registry,
    overrides: Seq<(String, String)>,
    glyphs: Glyphs,
    effects: Seq<EffectView>,
    stale: bool,
) -> bool {
    if text_at(m, "type"@) != Some("event"@) {
        &&& after == before
        &&& !stale
        &&& effects == if reports_failure(m) {
            seq![log(Level::Warn, refusal_message(m))]
        } else {
            seq![]
        }
    } else {
        match json_get(m, "event"@) {
            None => after == before && !stale && effects.len() == 0,
            Some(event) => {
                let kind = text_at(event, "event_type"@);
                if kind == Some("state_changed"@) {
                    !stale && state_change_done(event, before, after, reg, overrides, glyphs, effects)
                } else if kind matches Some(t) && is_registry_event(t) && connected_secs >= REGISTRY_REFRESH_FLOOR_SECS {
                    &&& after == before
                    &&& stale
                    &&& effects == seq![log(Level::Info, "Home Assistant areas or devices changed; reloading."@)]
                } else {
                    after == before && !stale && effects.len() == 0
                }
            },
        }
    }
}

fn text_at_exec<'a>(m: &'a Json, key: &str) -> (r: Option<&'a str>)
    ensures
        crate::chars::opt_str_view(r) == text_at(m@, key@),
{
    match m.get(key) {
        Some(v) => v.as_str(),
        None => None,
    }
}

fn state_changed(event: &Json, states: &mut States, registry: &Registry, config: &Config, glyphs: &Glyphs) -> (r: Vec<Effect>)
    ensures
        state_change_done(
            event@,
            old(states).view(),
            final(states).view(),
            *registry,
            config.display_name_overrides@,
            *glyphs,
            effects_view(r@),
        ),
{
    let data = match event.get("data") {
        Some(d) => d,
        None => return no_effects(),
    };
    let entity_id = match text_at_exec(data, "entity_id") {
        Some(id) => id,
        None => return no_effects(),
    };
    // Ingested ids become keys on both sides of the protocol, so a
    // server-supplied `__proto__` or `constructor` must never get that far.
    if !valid_entity_id(entity_id) {
        return no_effects();
    }
    if !visible(registry, entity_id) {
        return no_effects();
    }
    let new_state = match data.get("new_state") {
        Some(s) => s,
        None => return no_effects(),
    };
    if new_state.is_null() {
        let _ = states.remove(entity_id);
        return effects2(Effect::EmitDropped(String::from_str(entity_id)), Effect::EmitProjection);
    }
    let is_new = states.insert(String::from_str(entity_id), clone_json(new_state));
    let name = registry_name(config, registry, entity_id);
    let icon = registry_icon(registry, entity_id);
    let name_ref: Option<&str> = match &name {
        Some(n) => Some(n.as_str()),
        None => None,
    };
    let icon_ref: Option<&str> = match &icon {
        Some(n) => Some(n.as_str()),
        None => None,
    };
    let mut effects: Vec<Effect> = Vec::new();
    match row(new_state, name_ref, icon_ref, glyphs) {
        Some(r) => effects.push(Effect::EmitRow(r)),
        None => {},
    }
    if is_new {
        effects.push(Effect::EmitProjection);
    }
    proof {
        let ev = effects_view(effects@);
        if text_at(new_state@, "entity_id"@) is Some {
            assert(ev.drop_first() =~= if is_new { seq![EffectView::EmitProjection] } else { seq![] });
        } else {
            assert(ev =~= if is_new { seq![EffectView::EmitProjection] } else { seq![] });
        }
    }
    effects
}

/// Takes in a message from Home Assistant; see `event_handled`. Tells whether
/// the registry went stale, which calls for a fresh connection.
pub fn handle_event(
    message: &Json,
    connected_secs: u64,
    states: &mut States,
    registry: &Registry,
    config: &Config,
    glyphs: &Glyphs,
) -> (r: (Vec<Effect>, bool))
    ensures
        event_handled(
            message@,
            connected_secs,
            old(states).view(),
            final(states).view(),
            *registry,
            config.display_name_overrides@,
            *glyphs,
            effects_view(r.0@),
            r.1,
        ),
{
    let is_event = match text_at_exec(message, "type") {
        Some(t) => crate::chars::str_eq(t, "event"),
        None => false,
    };
    if !is_event {
        let refused = match message.get("success") {
            Some(v) => v.as_bool() == Some(false),
            None => false,
        };
        if refused {
            let said: Option<&str> = match message.get("error") {
                Some(e) => text_at_exec(e, "message"),
                None => None,
            };
            let text = match said {
                Some(t) => String::from_str(t),
                None => String::from_str("Home Assistant refused the request"),
            };
            return (effects1(log_effect(Level::Warn, text)), false);
        }
        return (no_effects(), false);
    }
    let event = match message.get("event") {
        Some(e) => e,
        None => return (no_effects(), false),
    };
    let kind = text_at_exec(event, "event_type");
    match kind {
        Some(t) => {
            if crate::chars::str_eq(t, "state_changed") {
                return (state_changed(event, states, registry, config, glyphs), false);
            }
            // Re-projecting would reuse the registry fetched when connecting,
            // so a renamed or added area would never appear; a fresh
            // connection fetches it again.
            if (crate::chars::str_eq(t, "area_registry_updated") || crate::chars::str_eq(t, "entity_registry_updated")
                || crate::chars::str_eq(t, "device_registry_updated")) && connected_secs >= REGISTRY_REFRESH_FLOOR_SECS {
                return (
                    effects1(
                        log_effect(Level::Info, String::from_str("Home Assistant areas or devices changed; reloading.")),
                    ),
                    true,
                );
            }
            (no_effects(), false)
        },
        None => (no_effects(), false),
    }
}

/// A partial update of the room preferences changes exactly the fields it
/// carries: an omitted list is never read as an instruction to clear a
/// hand-built room order. Nothing else in the settings changes, but that the
/// preferences now count as chosen.
pub proof fn law_omitted_preferences_are_left_alone(
    c: Config,
    order: Option<Vec<String>>,
    hidden: Option<Vec<String>>,
    hide_empty_areas: Option<bool>,
    hide_entities_without_area: Option<bool>,
)
    ensures
        ({
            let after = offline_config(
                c,
                Command::SetAreaPrefs { order, hidden, hide_empty_areas, hide_entities_without_area },
            );
            &&& order is None ==> after.areas.order == c.areas.order
            &&& hidden is None ==> after.areas.hidden == c.areas.hidden
            &&& hide_empty_areas is None ==> after.areas.hide_empty_areas == c.areas.hide_empty_areas
            &&& hide_entities_without_area is None ==> after.areas.hide_entities_without_area
                == c.areas.hide_entities_without_area
            &&& order matches Some(o) ==> after.areas.order == o
            &&& hidden matches Some(h) ==> after.areas.hidden == h
            &&& after.imported_dashboard_prefs
            &&& after.base_url == c.base_url && after.favorites == c.favorites && after.pinned_tabs == c.pinned_tabs
            &&& after.selected_tab == c.selected_tab && after.show_favorites == c.show_favorites
        }),
{
}

/// A token is stored only under the origin of the address it was entered
/// against (the configured one where none was given), only if that address
/// parses and the token is not blank; the stored token is the one typed,
/// trimmed. Only once the keyring has it does that address become the
/// configured one.
pub proof fn law_a_token_is_kept_for_its_own_address(c: Config, token: String, url: Option<String>)
    ensures
        offline_spec(c, Command::SetToken { token, url }) matches StepView::StoreToken { origin, token: kept, target } ==> {
            &&& target == token_target(c, url)
            &&& parse_spec(target) matches Ok(endpoint) && endpoint.0 == origin
            &&& kept == trim(token@) && kept.len() > 0
        },
        offline_spec(c, Command::SetToken { token, url }) is StoreToken <==> (parse_spec(token_target(c, url)) is Ok
            && trim(token@).len() > 0),
        offline_config(c, Command::SetToken { token, url }) == c,
{
}

/// The configured address changes only through `SetUrl`, and then only to an
/// address that parses.
pub proof fn law_only_set_url_moves_the_address(c: Config, command: Command)
    ensures
        offline_config(c, command).base_url != c.base_url ==> (command matches Command::SetUrl { url }
            && parse_spec(url@) is Ok && offline_config(c, command).base_url == url),
        online_config(c, command).base_url != c.base_url ==> (command matches Command::SetUrl { url }
            && parse_spec(url@) is Ok && online_config(c, command).base_url == url),
{
}

/// Whatever changes the settings saves them.
pub proof fn law_changed_settings_are_saved(c: Config, command: Command)
    ensures
        offline_config(c, command) != c ==> (offline_spec(c, command) matches StepView::Done(effects, _)
            && effects.contains(EffectView::Save)),
{
    if offline_config(c, command) != c {
        match command {
            Command::SetUrl { .. } => {
                assert(seq![EffectView::Save, EffectView::EmitConfig][0] == EffectView::Save);
            },
            Command::SetAreaPrefs { .. } => {
                assert(seq![EffectView::Save, EffectView::EmitProjection, EffectView::EmitConfig][0] == EffectView::Save);
            },
            Command::SetFavorites { .. } => {
                assert(seq![EffectView::Save, EffectView::EmitConfig][0] == EffectView::Save);
            },
            Command::SetPinnedTabs { .. } => {
                assert(seq![EffectView::Save, EffectView::EmitConfig][0] == EffectView::Save);
            },
            Command::SetSelectedTab { .. } => {
                assert(seq![EffectView::Save][0] == EffectView::Save);
            },
            _ => {},
        }
    }
}

} // verus!
