use vstd::prelude::*;

use crate::registry::AreaPrefs;

verus! {

/// The daemon's settings. The access token is never among them: it lives in
/// the system keyring.
#[derive(Debug, Clone)]
pub struct Config {
    pub base_url: String,
    pub areas: AreaPrefs,
    pub favorites: Vec<String>,
    pub pinned_tabs: Vec<String>,
    pub allow_sensitive_ipc: bool,
    pub show_favorites: bool,
    pub imported_dashboard_prefs: bool,
    /// Names the user gave entities, by entity id; the first for an id counts.
    pub display_name_overrides: Vec<(String, String)>,
    pub selected_tab: String,
}

impl Default for Config {
    /// No address, no favorites, nothing pinned, sensitive requests refused,
    /// the dashboard not yet imported, and the default room preferences.
    fn default() -> (r: Self)
        ensures
            r.base_url@.len() == 0,
            r.areas.order@.len() == 0,
            r.areas.hidden@.len() == 0,
            !r.areas.hide_entities_without_area,
            r.areas.hide_empty_areas,
            r.favorites@.len() == 0,
            r.pinned_tabs@.len() == 0,
            !r.allow_sensitive_ipc,
            !r.show_favorites,
            !r.imported_dashboard_prefs,
            r.display_name_overrides@.len() == 0,
            r.selected_tab@.len() == 0,
    {
        Config {
            base_url: String::new(),
            areas: AreaPrefs::default(),
            favorites: Vec::new(),
            pinned_tabs: Vec::new(),
            allow_sensitive_ipc: false,
            show_favorites: false,
            imported_dashboard_prefs: false,
            display_name_overrides: Vec::new(),
            selected_tab: String::new(),
        }
    }
}

} // verus!
