use vstd::prelude::*;
use vstd::string::StrSliceExecFns;

use crate::chars::{chars_of, str_eq};
use crate::registry::EntityEntry;
use crate::text::{dot_index, find_dot};

verus! {

/// The domain of an entity id: what comes before its first dot, or all of it.
pub open spec fn domain_spec(entity_id: Seq<char>) -> Seq<char> {
    entity_id.take(dot_index(entity_id))
}

/// The domains that the Overview dashboard never shows.
pub open spec fn is_hidden_domain_name(d: Seq<char>) -> bool {
    ||| d == "ai_task"@
    ||| d == "assist_satellite"@
    ||| d == "automation"@
    ||| d == "configurator"@
    ||| d == "device_tracker"@
    ||| d == "event"@
    ||| d == "geo_location"@
    ||| d == "notify"@
    ||| d == "persistent_notification"@
    ||| d == "script"@
    ||| d == "sun"@
    ||| d == "tag"@
    ||| d == "todo"@
    ||| d == "zone"@
}

/// The integrations whose entities are bookkeeping and never shown.
pub open spec fn is_hidden_platform(p: Seq<char>) -> bool {
    p == "backup"@ || p == "mobile_app"@
}

/// Whether an entity is shown, given its registry entry if it has one: not in a
/// hidden domain, and, if registered, neither disabled, hidden, categorised
/// (config or diagnostic) nor from a bookkeeping integration.
pub open spec fn is_visible_spec(entity_id: Seq<char>, entry: Option<EntityEntry>) -> bool {
    &&& !is_hidden_domain_name(domain_spec(entity_id))
    &&& match entry {
        None => true,
        Some(e) => {
            &&& e.disabled_by is None
            &&& e.hidden_by is None
            &&& e.entity_category is None
            &&& !(e.platform matches Some(p) && is_hidden_platform(p@))
        },
    }
}

/// The domain of an entity id; an id without a dot is all domain.
pub fn domain_of(entity_id: &str) -> (r: &str)
    ensures
        r@ == domain_spec(entity_id@),
{
    let v = chars_of(entity_id);
    let d = find_dot(&v);
    entity_id.substring_char(0, d)
}

pub fn is_hidden_domain_name_exec(d: &str) -> (r: bool)
    ensures
        r == is_hidden_domain_name(d@),
{
    str_eq(d, "ai_task") || str_eq(d, "assist_satellite") || str_eq(d, "automation") || str_eq(
        d,
        "configurator",
    ) || str_eq(d, "device_tracker") || str_eq(d, "event") || str_eq(d, "geo_location") || str_eq(
        d,
        "notify",
    ) || str_eq(d, "persistent_notification") || str_eq(d, "script") || str_eq(d, "sun")
        || str_eq(d, "tag") || str_eq(d, "todo") || str_eq(d, "zone")
}

/// Whether the entity's domain is one the dashboard never shows.
pub fn is_hidden_domain(entity_id: &str) -> (r: bool)
    ensures
        r == is_hidden_domain_name(domain_spec(entity_id@)),
{
    is_hidden_domain_name_exec(domain_of(entity_id))
}

/// Whether an entity is shown; see `is_visible_spec`.
pub fn is_visible(entity_id: &str, entry: Option<&EntityEntry>) -> (r: bool)
    ensures
        r == is_visible_spec(entity_id@, match entry { Some(e) => Some(*e), None => None }),
{
    if is_hidden_domain(entity_id) {
        return false;
    }
    let entry = match entry {
        Some(e) => e,
        None => return true,
    };
    if entry.disabled_by.is_some() || entry.hidden_by.is_some() {
        return false;
    }
    if entry.entity_category.is_some() {
        return false;
    }
    match &entry.platform {
        Some(platform) => {
            if str_eq(platform.as_str(), "backup") || str_eq(platform.as_str(), "mobile_app") {
                return false;
            }
        },
        None => {},
    }
    true
}

} // verus!
