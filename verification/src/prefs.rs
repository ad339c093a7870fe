use vstd::prelude::*;

use crate::chars::str_eq;
use crate::json::{as_str_opt, get_opt, json_as_bool, json_as_str, json_get, Json, JsonView};
use crate::registry::{strings_view, AreaPrefs};

verus! {

/// The non-empty texts among a list of JSON values, in order; anything else is skipped.
pub open spec fn nonempty_strs(items: Seq<JsonView>) -> Seq<Seq<char>>
    decreases items.len(),
{
    if items.len() == 0 {
        Seq::empty()
    } else {
        match json_as_str(items.last()) {
            Some(s) => if s.len() > 0 {
                nonempty_strs(items.drop_last()).push(s)
            } else {
                nonempty_strs(items.drop_last())
            },
            None => nonempty_strs(items.drop_last()),
        }
    }
}

/// The list `key` of a dashboard's `areas` section: its non-empty strings,
/// nothing where it is missing or not a list.
pub open spec fn string_list(areas: Option<JsonView>, key: Seq<char>) -> Seq<Seq<char>> {
    match get_opt(areas, key) {
        Some(JsonView::Array(items)) => nonempty_strs(items),
        _ => Seq::empty(),
    }
}

/// Whether a dashboard strategy is one of Home Assistant's generated ones.
pub open spec fn is_generated_strategy(kind: Seq<char>) -> bool {
    kind == "original-states"@ || kind == "areas"@ || kind == "home"@
}

/// The area preferences a generated dashboard holds, or `None` for a
/// dashboard written by hand or generated by another strategy.
pub open spec fn prefs_spec(config: JsonView) -> Option<(Seq<Seq<char>>, Seq<Seq<char>>, bool)> {
    match json_get(config, "strategy"@) {
        None => None,
        Some(strategy) => match as_str_opt(json_get(strategy, "type"@)) {
            None => None,
            Some(kind) => if !is_generated_strategy(kind) {
                None
            } else {
                let areas = json_get(strategy, "areas"@);
                Some(
                    (
                        string_list(areas, "order"@),
                        string_list(areas, "hidden"@),
                        match json_get(strategy, "hide_entities_without_area"@) {
                            Some(v) => json_as_bool(v) == Some(true),
                            None => false,
                        },
                    ),
                )
            },
        },
    }
}

/// The non-empty strings of the list `key` of `areas`.
fn string_list_of(areas: Option<&Json>, key: &str) -> (r: Vec<String>)
    ensures
        strings_view(r@) == string_list(crate::json::opt_view(areas), key@),
{
    let list = match areas {
        Some(a) => a.get(key),
        None => None,
    };
    let items = match list {
        Some(Json::Array(items)) => items,
        _ => {
            let r: Vec<String> = Vec::new();
            proof {
                assert(strings_view(r@) =~= Seq::<Seq<char>>::empty());
            }
            return r;
        },
    };
    let ghost iv = Seq::new(items@.len(), |i: int| items@[i]@);
    proof {
        let l = get_opt(crate::json::opt_view(areas), key@)->0;
        assert(l->Array_0 =~= iv);
    }
    let mut r: Vec<String> = Vec::new();
    let mut i: usize = 0;
    while i < items.len()
        invariant
            iv == Seq::new(items@.len(), |i: int| items@[i]@),
            i <= items@.len(),
            strings_view(r@) == nonempty_strs(iv.take(i as int)),
        decreases items@.len() - i,
    {
        proof {
            assert(iv.take(i + 1).drop_last() =~= iv.take(i as int));
            assert(iv.take(i + 1).last() == items@[i as int]@);
        }
        match items[i].as_str() {
            Some(s) => {
                if !s.is_empty() {
                    let ghost before = r@;
                    r.push(String::from_str(s));
                    proof {
                        assert(strings_view(r@) =~= strings_view(before).push(s@));
                    }
                }
            },
            None => {},
        }
        i = i + 1;
    }
    proof {
        assert(iv.take(items@.len() as int) =~= iv);
    }
    r
}

/// Adopts the room order, hidden rooms and the hide-entities-without-area
/// choice of a dashboard that Home Assistant generates, so that the panel
/// shows what the Overview shows. Malformed entries are skipped. The
/// dashboard has no setting for empty rooms, so `current_hide_empty` is kept.
pub fn from_lovelace_config(config: &Json, current_hide_empty: bool) -> (r: Option<AreaPrefs>)
    ensures
        match prefs_spec(config@) {
            None => r is None,
            Some((order, hidden, hide_arealess)) => r matches Some(p) && strings_view(p.order@) == order
                && strings_view(p.hidden@) == hidden && p.hide_entities_without_area == hide_arealess
                && p.hide_empty_areas == current_hide_empty,
        },
{
    let strategy = match config.get("strategy") {
        Some(s) => s,
        None => return None,
    };
    let kind = match strategy.get("type") {
        Some(t) => match t.as_str() {
            Some(k) => k,
            None => return None,
        },
        None => return None,
    };
    if !(str_eq(kind, "original-states") || str_eq(kind, "areas") || str_eq(kind, "home")) {
        return None;
    }
    let areas = strategy.get("areas");
    let order = string_list_of(areas, "order");
    let hidden = string_list_of(areas, "hidden");
    let hide_arealess = match strategy.get("hide_entities_without_area") {
        Some(v) => match v.as_bool() {
            Some(b) => b,
            None => false,
        },
        None => false,
    };
    Some(
        AreaPrefs {
            order,
            hidden,
            hide_entities_without_area: hide_arealess,
            hide_empty_areas: current_hide_empty,
        },
    )
}

/// The dashboards Home Assistant generates, whose strategy is
/// `original-states`, `areas` or `home`, are adopted, and only they: the
/// preferences are the non-empty names listed under the strategy's
/// `areas.order` and `areas.hidden`, and whether it hides entities without an
/// area; a dashboard without a strategy, or with any other, is not adopted.
pub proof fn law_generated_dashboards_are_adopted(config: JsonView)
    ensures
        prefs_spec(config) is Some <==> json_get(config, "strategy"@) is Some && as_str_opt(
            json_get(json_get(config, "strategy"@)->0, "type"@),
        ) is Some && {
            let kind = as_str_opt(json_get(json_get(config, "strategy"@)->0, "type"@))->0;
            kind == "original-states"@ || kind == "areas"@ || kind == "home"@
        },
        prefs_spec(config) matches Some((order, hidden, hide_arealess)) ==> {
            let strategy = json_get(config, "strategy"@)->0;
            let areas = json_get(strategy, "areas"@);
            &&& order == string_list(areas, "order"@)
            &&& hidden == string_list(areas, "hidden"@)
            &&& hide_arealess == (json_get(strategy, "hide_entities_without_area"@) matches Some(v)
                && json_as_bool(v) == Some(true))
        },
{
}

/// The non-empty texts of a list are exactly its non-empty strings: each
/// one kept is a non-empty string of the list, and every non-empty string of
/// the list is kept, in the list's order.
pub proof fn law_lists_keep_their_nonempty_names(items: Seq<JsonView>)
    ensures
        forall|k: int|
            0 <= k < nonempty_strs(items).len() ==> #[trigger] nonempty_strs(items)[k].len() > 0 && exists|i: int|
                0 <= i < items.len() && #[trigger] json_as_str(items[i]) == Some(nonempty_strs(items)[k]),
        forall|i: int|
            0 <= i < items.len() && #[trigger] json_as_str(items[i]) is Some && json_as_str(items[i])->0.len() > 0
                ==> nonempty_strs(items).contains(json_as_str(items[i])->0),
    decreases items.len(),
{
    if items.len() > 0 {
        let init = items.drop_last();
        let rest = nonempty_strs(init);
        law_lists_keep_their_nonempty_names(init);
        let r = nonempty_strs(items);
        assert forall|k: int| 0 <= k < r.len() implies #[trigger] r[k].len() > 0 && exists|i: int|
            0 <= i < items.len() && #[trigger] json_as_str(items[i]) == Some(r[k]) by {
            if k < rest.len() {
                assert(r[k] == rest[k]);
                let i = choose|i: int| 0 <= i < init.len() && #[trigger] json_as_str(init[i]) == Some(rest[k]);
                assert(items[i] == init[i]);
            } else {
                assert(json_as_str(items[items.len() - 1]) == Some(r[k]));
            }
        }
        assert forall|i: int|
            0 <= i < items.len() && #[trigger] json_as_str(items[i]) is Some && json_as_str(items[i])->0.len() > 0
                implies r.contains(json_as_str(items[i])->0) by {
            if i < init.len() {
                assert(init[i] == items[i]);
                assert(json_as_str(init[i]) is Some);
                let k = choose|k: int| 0 <= k < rest.len() && rest[k] == json_as_str(init[i])->0;
                assert(r[k] == rest[k]);
            } else {
                assert(r[rest.len() as int] == json_as_str(items[i])->0);
            }
        }
    }
}

} // verus!
