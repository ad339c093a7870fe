use vstd::prelude::*;

use crate::chars::{append_chars, append_str, decimal, decimal_chars, string_of};
use crate::client::Error as ClientError;
use crate::config::Config;
use crate::control::{changes_credential, effects1, effects2, effects_view, log, log_effect, Effect, EffectView, Outcome};
use crate::daemon::{BACKOFF_MAX_SECS, BACKOFF_START_SECS};
use crate::number::two_pow;
use crate::protocol::Command;
use crate::json::Json;
use crate::keyring;
use crate::prefs::{from_lovelace_config, prefs_spec};
use crate::protocol::{ConnectionState, Event, Level};
use crate::registry::strings_view;
use crate::url::{parse, parse_spec, Endpoint};

verus! {

/// A copy of a list of strings.
pub fn copy_strings(v: &Vec<String>) -> (r: Vec<String>)
    ensures
        r@ == v@,
{
    let mut r: Vec<String> = Vec::new();
    let mut i: usize = 0;
    while i < v.len()
        invariant
            i <= v@.len(),
            r@ == v@.take(i as int),
        decreases v@.len() - i,
    {
        r.push(v[i].clone());
        i = i + 1;
        proof {
            assert(r@ =~= v@.take(i as int));
        }
    }
    proof {
        assert(v@.take(v@.len() as int) =~= v@);
    }
    r
}

/// The event that tells the panel the settings.
pub fn config_event(config: &Config) -> (r: Event)
    ensures
        r matches Event::Config {
            favorites,
            pinned_tabs,
            allow_sensitive_ipc,
            show_favorites,
            selected_tab,
            imported_dashboard_prefs,
            base_url,
            hide_empty_areas,
            hide_entities_without_area,
        } && favorites@ == config.favorites@ && pinned_tabs@ == config.pinned_tabs@ && allow_sensitive_ipc
            == config.allow_sensitive_ipc && show_favorites == config.show_favorites && selected_tab
            == config.selected_tab && imported_dashboard_prefs == config.imported_dashboard_prefs && base_url
            == config.base_url && hide_empty_areas == config.areas.hide_empty_areas && hide_entities_without_area
            == config.areas.hide_entities_without_area,
{
    Event::Config {
        favorites: copy_strings(&config.favorites),
        pinned_tabs: copy_strings(&config.pinned_tabs),
        allow_sensitive_ipc: config.allow_sensitive_ipc,
        show_favorites: config.show_favorites,
        selected_tab: config.selected_tab.clone(),
        imported_dashboard_prefs: config.imported_dashboard_prefs,
        base_url: config.base_url.clone(),
        hide_empty_areas: config.areas.hide_empty_areas,
        hide_entities_without_area: config.areas.hide_entities_without_area,
    }
}

/// The event that tells the panel where the connection stands: with the
/// origin of the configured address, and whether it is plaintext, where that
/// address parses.
pub fn status_event(config: &Config, state: ConnectionState, message: Option<String>) -> (r: Event)
    ensures
        r matches Event::Status { state: s, message: m, origin, ha_version, plaintext } && s == state && m == message
            && ha_version is None && match parse_spec(config.base_url@) {
            Ok(e) => origin matches Some(o) && o@ == e.0 && plaintext == e.3,
            Err(_) => origin is None && !plaintext,
        },
{
    match parse(config.base_url.as_str()) {
        Ok(e) => Event::Status { state, message, origin: Some(e.origin), ha_version: None, plaintext: e.plaintext },
        Err(_) => Event::Status { state, message, origin: None, ha_version: None, plaintext: false },
    }
}

/// The event that tells the panel the connection is up.
pub fn connected_event(endpoint: &Endpoint, ha_version: &str) -> (r: Event)
    ensures
        r matches Event::Status { state, message, origin: Some(o), ha_version: Some(v), plaintext } && state
            == ConnectionState::Connected && message is None && o@ == endpoint.origin@ && v@ == ha_version@ && plaintext
            == endpoint.plaintext,
{
    Event::Status {
        state: ConnectionState::Connected,
        message: None,
        origin: Some(endpoint.origin.clone()),
        ha_version: Some(String::from_str(ha_version)),
        plaintext: endpoint.plaintext,
    }
}

/// What the keyring's answer means for connecting: the token to connect
/// with, or the status to show while waiting: a token is needed, or the
/// keyring failed.
pub fn after_lookup(found: Result<Option<String>, keyring::Error>) -> (r: Result<String, Vec<Effect>>)
    ensures
        match found {
            Ok(Some(t)) => r == Ok::<String, Vec<Effect>>(t),
            Ok(None) => r matches Err(e) && effects_view(e@) == seq![EffectView::EmitStatus(ConnectionState::NeedsToken, None)],
            Err(k) => r matches Err(e) && effects_view(e@) == seq![
                EffectView::EmitStatus(ConnectionState::Failed, Some(keyring::error_text(k))),
            ],
        },
{
    match found {
        Ok(Some(t)) => Ok(t),
        Ok(None) => Err(effects1(Effect::EmitStatus(ConnectionState::NeedsToken, None))),
        Err(k) => Err(effects1(Effect::EmitStatus(ConnectionState::Failed, Some(k.message())))),
    }
}

/// What is shown as a connection starts.
pub fn connecting(origin: &str) -> (r: Vec<Effect>)
    ensures
        effects_view(r@) == seq![
            EffectView::EmitStatus(ConnectionState::Connecting, None),
            log(Level::Info, "Connecting to "@ + origin@),
        ],
{
    effects2(
        Effect::EmitStatus(ConnectionState::Connecting, None),
        log_effect(Level::Info, crate::chars::concat("Connecting to ", origin)),
    )
}

/// How the daemon recovers from a lost connection.
#[derive(Debug, PartialEq)]
pub enum Recovery {
    /// Wait until the credential changes: retrying a rejected token only
    /// produces failed logins, which Home Assistant answers by banning the
    /// address.
    AwaitCredentials,
    /// Try again after this many seconds.
    RetryAfter(u64),
}

/// What follows a lost connection: a rejected token is reported and waits
/// for a new credential; anything else is retried after `backoff_secs`.
pub fn after_loss(e: &ClientError, backoff_secs: u64) -> (r: (Vec<Effect>, Recovery))
    ensures
        e is Auth ==> {
            &&& r.1 == Recovery::AwaitCredentials
            &&& effects_view(r.0@) == seq![
                log(Level::Error, crate::client::error_text(*e) + ". Enter a new token to try again."@),
                EffectView::EmitStatus(ConnectionState::Failed, Some(crate::client::error_text(*e))),
            ]
        },
        !(e is Auth) ==> {
            &&& r.1 == Recovery::RetryAfter(backoff_secs)
            &&& effects_view(r.0@) == seq![
                log(Level::Warn, crate::client::error_text(*e) + ". Retrying in "@ + decimal(backoff_secs as nat) + "s."@),
                EffectView::EmitStatus(ConnectionState::Reconnecting, Some(crate::client::error_text(*e))),
            ]
        },
{
    let text = e.message();
    if !e.is_retryable() {
        let line = crate::chars::concat(text.as_str(), ". Enter a new token to try again.");
        return (
            effects2(log_effect(Level::Error, line), Effect::EmitStatus(ConnectionState::Failed, Some(text))),
            Recovery::AwaitCredentials,
        );
    }
    let mut v: Vec<char> = Vec::new();
    append_str(&mut v, text.as_str());
    append_str(&mut v, ". Retrying in ");
    let digits = decimal_chars(backoff_secs);
    append_chars(&mut v, &digits);
    append_str(&mut v, "s.");
    proof {
        assert(v@ =~= text@ + ". Retrying in "@ + decimal(backoff_secs as nat) + "s."@);
    }
    let line = string_of(&v);
    (
        effects2(log_effect(Level::Warn, line), Effect::EmitStatus(ConnectionState::Reconnecting, Some(text))),
        Recovery::RetryAfter(backoff_secs),
    )
}

/// After `silent_secs` without a frame: nothing where a ping may still get an
/// answer, else the timeout that ends the connection.
pub fn after_silence(silent_secs: u64) -> (r: Option<ClientError>)
    ensures
        silent_secs < crate::daemon::IDLE_LIMIT_SECS ==> r is None,
        silent_secs >= crate::daemon::IDLE_LIMIT_SECS ==> (r matches Some(ClientError::Timeout(what)) && what@
            == "waiting for Home Assistant"@),
{
    if silent_secs >= crate::daemon::IDLE_LIMIT_SECS {
        Some(ClientError::Timeout("waiting for Home Assistant"))
    } else {
        None
    }
}

/// Adopts the room preferences of the instance's generated dashboard, once:
/// where they were not imported yet and the dashboard is a generated one, its
/// preferences replace the current ones (keeping the user's own choice about
/// empty rooms), count as imported, and are saved and told.
pub fn adopt_dashboard(config: &mut Config, lovelace: Option<&Json>) -> (r: Vec<Effect>)
    ensures
        old(config).imported_dashboard_prefs ==> *final(config) == *old(config) && r@.len() == 0,
        !old(config).imported_dashboard_prefs ==> match lovelace {
            Some(l) => match prefs_spec(l@) {
                Some((order, hidden, arealess)) => {
                    &&& strings_view(final(config).areas.order@) == order
                    &&& strings_view(final(config).areas.hidden@) == hidden
                    &&& final(config).areas.hide_entities_without_area == arealess
                    &&& final(config).areas.hide_empty_areas == old(config).areas.hide_empty_areas
                    &&& *final(config) == Config { areas: final(config).areas, imported_dashboard_prefs: true, ..*old(config) }
                    &&& effects_view(r@) == seq![EffectView::Save, EffectView::EmitConfig]
                },
                None => *final(config) == *old(config) && r@.len() == 0,
            },
            None => *final(config) == *old(config) && r@.len() == 0,
        },
{
    if config.imported_dashboard_prefs {
        return Vec::new();
    }
    let l = match lovelace {
        Some(l) => l,
        None => return Vec::new(),
    };
    match from_lovelace_config(l, config.areas.hide_empty_areas) {
        Some(p) => {
            config.areas = p;
            config.imported_dashboard_prefs = true;
            effects2(Effect::Save, Effect::EmitConfig)
        },
        None => Vec::new(),
    }
}

/// The log line once connected.
pub fn connected_text(ha_version: &str, areas: u64, devices: u64, entities: u64) -> (r: String)
    ensures
        r@ == "Connected to Home Assistant "@ + ha_version@ + " \u{2014} "@ + decimal(areas as nat) + " areas, "@ + decimal(
            devices as nat,
        ) + " devices, "@ + decimal(entities as nat) + " entities"@,
{
    let mut v: Vec<char> = Vec::new();
    append_str(&mut v, "Connected to Home Assistant ");
    append_str(&mut v, ha_version);
    append_str(&mut v, " \u{2014} ");
    append_chars(&mut v, &decimal_chars(areas));
    append_str(&mut v, " areas, ");
    append_chars(&mut v, &decimal_chars(devices));
    append_str(&mut v, " devices, ");
    append_chars(&mut v, &decimal_chars(entities));
    append_str(&mut v, " entities");
    proof {
        assert(v@ =~= "Connected to Home Assistant "@ + ha_version@ + " \u{2014} "@ + decimal(areas as nat) + " areas, "@
            + decimal(devices as nat) + " devices, "@ + decimal(entities as nat) + " entities"@);
    }
    string_of(&v)
}

/// What the daemon does next while it waits between connections.
#[derive(Debug, Clone, Copy, PartialEq, Eq, Structural)]
pub enum Next {
    /// Keep waiting for commands.
    Wait,
    /// Connect afresh.
    Connect,
    /// The daemon stops.
    Stop,
}

/// While no address or token is usable, after a command handled offline:
/// one that stops stops, one that calls for a fresh connection connects, any
/// other keeps the wait.
pub fn idle_step(outcome: Outcome) -> (r: Next)
    ensures
        r == match outcome {
            Outcome::Stop => Next::Stop,
            Outcome::Reconfigure => Next::Connect,
            Outcome::Lost => Next::Wait,
        },
{
    match outcome {
        Outcome::Stop => Next::Stop,
        Outcome::Reconfigure => Next::Connect,
        Outcome::Lost => Next::Wait,
    }
}

/// What follows a command after a rejected token; see
/// `credential_wait_step`.
pub open spec fn credential_wait_spec(credential_change: bool, outcome: Outcome) -> Next {
    if outcome == Outcome::Stop {
        Next::Stop
    } else if credential_change && outcome == Outcome::Reconfigure {
        Next::Connect
    } else {
        Next::Wait
    }
}

/// After a rejected token, once a command was handled offline
/// (`credential_change` tells whether it was of a kind that changes the
/// credential): the daemon connects again only for a credential change that
/// called for a fresh connection, since retrying the rejected token only
/// produces failed logins, which Home Assistant answers by banning the address.
pub fn credential_wait_step(credential_change: bool, outcome: Outcome) -> (r: Next)
    ensures
        r == credential_wait_spec(credential_change, outcome),
{
    match outcome {
        Outcome::Stop => Next::Stop,
        Outcome::Reconfigure => if credential_change {
            Next::Connect
        } else {
            Next::Wait
        },
        Outcome::Lost => Next::Wait,
    }
}

/// After a rejected token, no command connects again but one that changes the
/// credential (a token, an address, or forgetting the token) and whose
/// handling called for a fresh connection; a refresh or a connect command
/// does not.
pub proof fn law_a_rejected_token_waits_for_a_new_credential(command: Command, outcome: Outcome)
    ensures
        credential_wait_spec(changes_credential(command), outcome) == Next::Connect ==> changes_credential(command)
            && outcome == Outcome::Reconfigure,
        command is Refresh || command is Connect ==> credential_wait_spec(changes_credential(command), outcome)
            != Next::Connect,
{
}

/// The wait before reconnecting after a connection was lost.
pub struct Backoff {
    secs: u64,
}

/// The wait after `failures` lost connections in a row, each waited out in
/// full: one second, doubled each time, at most a minute.
pub open spec fn backoff_after(failures: nat) -> int {
    if two_pow(failures) <= BACKOFF_MAX_SECS {
        two_pow(failures) as int
    } else {
        BACKOFF_MAX_SECS as int
    }
}

impl Backoff {
    #[verifier::type_invariant]
    spec fn bounded(self) -> bool {
        BACKOFF_START_SECS <= self.secs <= BACKOFF_MAX_SECS
    }

    /// The current wait, in seconds.
    pub closed spec fn view(self) -> u64 {
        self.secs
    }

    /// The first wait.
    pub fn new() -> (r: Backoff)
        ensures
            r.view() == BACKOFF_START_SECS,
    {
        Backoff { secs: BACKOFF_START_SECS }
    }

    /// The current wait, in seconds.
    pub fn secs(&self) -> (r: u64)
        ensures
            r == self.view(),
            BACKOFF_START_SECS <= r <= BACKOFF_MAX_SECS,
    {
        proof {
            use_type_invariant(self);
        }
        self.secs
    }

    /// A fresh connection was asked for: the next loss waits the first wait.
    pub fn reset(&mut self)
        ensures
            final(self).view() == BACKOFF_START_SECS,
    {
        self.secs = BACKOFF_START_SECS;
    }

    /// What follows a wait after a lost connection: `interrupted` is the
    /// outcome of a command that came before the wait was over, if one did. A
    /// wait waited out connects again and doubles the next wait (at most a
    /// minute); a command that stops stops; any other command connects again
    /// at once, and the next wait is the first.
    pub fn after_wait(&mut self, interrupted: Option<Outcome>) -> (r: Next)
        ensures
            interrupted is None ==> r == Next::Connect && final(self).view() == if 2 * old(self).view()
                <= BACKOFF_MAX_SECS {
                2 * old(self).view()
            } else {
                BACKOFF_MAX_SECS as int
            },
            interrupted == Some(Outcome::Stop) ==> r == Next::Stop && final(self).view() == old(self).view(),
            interrupted matches Some(o) && o != Outcome::Stop ==> r == Next::Connect && final(self).view()
                == BACKOFF_START_SECS,
    {
        proof {
            use_type_invariant(&*self);
        }
        match interrupted {
            None => {
                self.secs = crate::daemon::next_backoff(self.secs);
                Next::Connect
            },
            Some(Outcome::Stop) => Next::Stop,
            Some(_) => {
                self.secs = BACKOFF_START_SECS;
                Next::Connect
            },
        }
    }
}

/// Waited out in full, the waits grow from one second by doubling up to a
/// minute: after `failures` such waits, the next is `backoff_after(failures)`.
pub proof fn law_backoff_doubles_up_to_a_minute(failures: nat)
    ensures
        backoff_after(0) == BACKOFF_START_SECS,
        backoff_after(failures + 1) == if 2 * backoff_after(failures) <= BACKOFF_MAX_SECS {
            2 * backoff_after(failures)
        } else {
            BACKOFF_MAX_SECS as int
        },
{
    reveal_with_fuel(two_pow, 1);
    assert(two_pow(failures + 1) == 2 * two_pow(failures));
}

} // verus!
