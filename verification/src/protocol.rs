use vstd::prelude::*;

use crate::json::Json;
use crate::model::Row;
use crate::registry::{AreaChoice, Tab};

verus! {

/// The version of the line protocol between the daemon and the panel.
pub const VERSION: u32 = 1;

/// A command from the panel, one per line.
#[derive(Debug)]
pub enum Command {
    Connect,
    Disconnect,
    SetUrl { url: String },
    SetToken { token: String, url: Option<String> },
    ForgetToken,
    Action { entity_id: String, action: String, data: Json },
    /// Absent fields are left as they are: an omitted list is never an
    /// instruction to clear a hand-built room order.
    SetAreaPrefs {
        order: Option<Vec<String>>,
        hidden: Option<Vec<String>>,
        hide_empty_areas: Option<bool>,
        hide_entities_without_area: Option<bool>,
    },
    ImportDashboardPrefs,
    SetFavorites { ids: Vec<String>, show: Option<bool> },
    SetSelectedTab { tab: String },
    SetPinnedTabs { ids: Vec<String> },
    Refresh,
    Status,
}

/// How much a log entry matters.
#[derive(Debug, Clone, Copy, PartialEq, Eq, Structural)]
pub enum Level {
    Info,
    Warn,
    Error,
}

/// Where the connection to Home Assistant stands.
#[derive(Debug, Clone, Copy, PartialEq, Eq, Structural)]
pub enum ConnectionState {
    Unconfigured,
    NeedsToken,
    Connecting,
    Connected,
    Reconnecting,
    Failed,
    Offline,
}

/// An event for the panel, one per line.
#[derive(Debug)]
pub enum Event {
    Status {
        state: ConnectionState,
        message: Option<String>,
        origin: Option<String>,
        ha_version: Option<String>,
        plaintext: bool,
    },
    Tabs { tabs: Vec<Tab> },
    Areas { areas: Vec<AreaChoice> },
    Rows { rows: Vec<Row> },
    Row { row: Row },
    Dropped { entity_id: String },
    Config {
        favorites: Vec<String>,
        pinned_tabs: Vec<String>,
        allow_sensitive_ipc: bool,
        show_favorites: bool,
        selected_tab: String,
        imported_dashboard_prefs: bool,
        base_url: String,
        hide_empty_areas: bool,
        hide_entities_without_area: bool,
    },
    /// `at` is in Unix milliseconds, so the panel can say how long ago
    /// without a clock of its own.
    Log { level: Level, at: u64, text: String, entity_id: Option<String> },
}

/// An event with the protocol version and the connection generation it
/// belongs to.
#[derive(Debug)]
pub struct Envelope {
    pub v: u32,
    pub gen: u64,
    pub event: Event,
}

impl Envelope {
    /// An event of connection `generation`, stamped with the protocol version.
    pub fn new(generation: u64, event: Event) -> (r: Self)
        ensures
            r.v == VERSION,
            r.gen == generation,
            r.event == event,
    {
        Envelope { v: VERSION, gen: generation, event }
    }
}

} // verus!
