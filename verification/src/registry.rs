use vstd::prelude::*;

use crate::chars::{chars_of, concat, opt_string_view, str_eq, to_lowercase, lowercase};
use crate::filter::{is_visible, is_visible_spec};
use crate::icons::{glyph_lookup, Glyphs};
use crate::sort::{indices_view, is_sorted_order, is_stable_sort, keys_view, lemma_stable_sort_from, permuted, sort_order};
use crate::text::{plain, plain_spec};

verus! {

/// The icon of an area that has none of its own.
pub const DEFAULT_AREA_ICON: &'static str = "mdi:texture-box";

/// The icon of the tab that gathers entities without an area.
pub const UNASSIGNED_ICON: &'static str = "mdi:help-circle-outline";

/// An area of the Home Assistant area registry.
#[derive(Debug, Clone, Default)]
pub struct AreaEntry {
    pub area_id: String,
    pub name: String,
    pub icon: Option<String>,
    pub floor_id: Option<String>,
}

/// A device of the Home Assistant device registry; only its area matters here.
#[derive(Debug, Clone, Default)]
pub struct DeviceEntry {
    pub id: String,
    pub area_id: Option<String>,
}

/// An entity of the Home Assistant entity registry.
#[derive(Debug, Clone, Default)]
pub struct EntityEntry {
    pub entity_id: String,
    pub area_id: Option<String>,
    pub device_id: Option<String>,
    pub platform: Option<String>,
    pub entity_category: Option<String>,
    pub hidden_by: Option<String>,
    pub disabled_by: Option<String>,
    pub name: Option<String>,
    pub icon: Option<String>,
}

/// How the user wants rooms shown: an order, the rooms to hide, and whether
/// entities without a room and rooms without entities are shown.
#[derive(Debug, Clone)]
pub struct AreaPrefs {
    pub order: Vec<String>,
    pub hidden: Vec<String>,
    pub hide_entities_without_area: bool,
    pub hide_empty_areas: bool,
}

/// The value a missing `hideEmptyAreas` takes.
pub fn default_true() -> (r: bool)
    ensures
        r,
{
    true
}

impl Default for AreaPrefs {
    /// No order, nothing hidden, entities without an area shown, empty areas hidden.
    fn default() -> (r: Self)
        ensures
            r.order@.len() == 0,
            r.hidden@.len() == 0,
            !r.hide_entities_without_area,
            r.hide_empty_areas,
    {
        AreaPrefs {
            order: Vec::new(),
            hidden: Vec::new(),
            hide_entities_without_area: false,
            hide_empty_areas: default_true(),
        }
    }
}

/// A tab of the panel: a room, or the entities without a room.
#[derive(Debug, Clone, PartialEq)]
pub struct Tab {
    pub id: String,
    pub title: String,
    pub icon: String,
    pub glyph: String,
    pub entity_ids: Vec<String>,
}

/// A room as the room picker lists it.
#[derive(Debug, Clone, PartialEq)]
pub struct AreaChoice {
    pub area_id: String,
    pub name: String,
    pub icon: String,
    pub glyph: String,
    pub entity_count: usize,
    pub hidden: bool,
}

/// The three registries of a Home Assistant instance.
#[derive(Debug, Default)]
pub struct Registry {
    pub areas: Vec<AreaEntry>,
    pub devices: Vec<DeviceEntry>,
    pub entities: Vec<EntityEntry>,
}

// ---------------------------------------------------------------------------
// The model.

/// The texts of a sequence of strings.
pub open spec fn strings_view(v: Seq<String>) -> Seq<Seq<char>> {
    Seq::new(v.len(), |i: int| v[i]@)
}

/// The registry entry of an entity id: the last entry with that id.
pub open spec fn entry_of(entities: Seq<EntityEntry>, id: Seq<char>) -> Option<EntityEntry>
    decreases entities.len(),
{
    if entities.len() == 0 {
        None
    } else if entities.last().entity_id@ == id {
        Some(entities.last())
    } else {
        entry_of(entities.drop_last(), id)
    }
}

/// The area of a device: that of the last device with that id that has one.
pub open spec fn device_area_of(devices: Seq<DeviceEntry>, device: Seq<char>) -> Option<Seq<char>>
    decreases devices.len(),
{
    if devices.len() == 0 {
        None
    } else if devices.last().id@ == device && devices.last().area_id is Some {
        Some(devices.last().area_id->0@)
    } else {
        device_area_of(devices.drop_last(), device)
    }
}

/// The area of a registry entry: its own, where it names a non-empty one,
/// else that of its device.
pub open spec fn area_of_entry(devices: Seq<DeviceEntry>, entry: Option<EntityEntry>) -> Option<Seq<char>> {
    match entry {
        None => None,
        Some(e) => if e.area_id is Some && e.area_id->0@.len() > 0 {
            Some(e.area_id->0@)
        } else {
            match e.device_id {
                Some(d) => device_area_of(devices, d@),
                None => None,
            }
        },
    }
}

/// Where an entity goes: nowhere if it is not shown (`None`), else into its
/// area (`Some(Some(area))`) or among the entities without one (`Some(None)`).
pub open spec fn placement(reg: Registry, id: Seq<char>) -> Option<Option<Seq<char>>> {
    let entry = entry_of(reg.entities@, id);
    if is_visible_spec(id, entry) {
        Some(area_of_entry(reg.devices@, entry))
    } else {
        None
    }
}

/// The live entities that go into area `area`, in the order given.
pub open spec fn members(reg: Registry, live: Seq<Seq<char>>, area: Seq<char>) -> Seq<Seq<char>>
    decreases live.len(),
{
    if live.len() == 0 {
        Seq::empty()
    } else if placement(reg, live.last()) == Some(Some(area)) {
        members(reg, live.drop_last(), area).push(live.last())
    } else {
        members(reg, live.drop_last(), area)
    }
}

/// The live entities that are shown but belong to no area, in the order given.
pub open spec fn arealess(reg: Registry, live: Seq<Seq<char>>) -> Seq<Seq<char>>
    decreases live.len(),
{
    if live.len() == 0 {
        Seq::empty()
    } else if placement(reg, live.last()) == Some(None::<Seq<char>>) {
        arealess(reg, live.drop_last()).push(live.last())
    } else {
        arealess(reg, live.drop_last())
    }
}

/// The ids of the registry's areas, in registry order.
pub open spec fn area_ids(areas: Seq<AreaEntry>) -> Seq<Seq<char>> {
    Seq::new(areas.len(), |i: int| areas[i].area_id@)
}

/// The index of the last occurrence of `x` in `s`, or -1.
pub open spec fn last_index(s: Seq<Seq<char>>, x: Seq<char>) -> int
    decreases s.len(),
{
    if s.len() == 0 {
        -1
    } else if s.last() == x {
        s.len() - 1
    } else {
        last_index(s.drop_last(), x)
    }
}

/// An area's place in the user's order: its (last) position there, or after
/// every ordered area if it is not listed.
pub open spec fn area_rank(order: Seq<Seq<char>>, area: Seq<char>) -> int {
    if last_index(order, area) >= 0 {
        last_index(order, area)
    } else {
        order.len() as int
    }
}

/// The name an area is sorted by: that of the last registry area with that
/// id, or the id itself.
pub open spec fn sort_name(areas: Seq<AreaEntry>, area: Seq<char>) -> Seq<char>
    decreases areas.len(),
{
    if areas.len() == 0 {
        area
    } else if areas.last().area_id@ == area {
        areas.last().name@
    } else {
        sort_name(areas.drop_last(), area)
    }
}

/// The sort keys of areas: rank in the user's order, then lower-cased name.
pub open spec fn area_keys(reg: Registry, prefs: AreaPrefs, ids: Seq<Seq<char>>) -> Seq<(int, Seq<char>)> {
    Seq::new(
        ids.len(),
        |i: int| (area_rank(strings_view(prefs.order@), ids[i]), lowercase(sort_name(reg.areas@, ids[i]))),
    )
}

/// Whether the user hid an area.
pub open spec fn is_hidden_area(prefs: AreaPrefs, area: Seq<char>) -> bool {
    strings_view(prefs.hidden@).contains(area)
}

/// Whether an area gets a tab: not hidden, and not empty where empty areas are hidden.
pub open spec fn area_shown(reg: Registry, live: Seq<Seq<char>>, prefs: AreaPrefs, area: Seq<char>) -> bool {
    !is_hidden_area(prefs, area) && (!prefs.hide_empty_areas || members(reg, live, area).len() > 0)
}

/// The ids of the areas among `areas` that get a tab, in registry order.
pub open spec fn shown_areas(reg: Registry, live: Seq<Seq<char>>, prefs: AreaPrefs, areas: Seq<AreaEntry>) -> Seq<Seq<char>>
    decreases areas.len(),
{
    if areas.len() == 0 {
        Seq::empty()
    } else if area_shown(reg, live, prefs, areas.last().area_id@) {
        shown_areas(reg, live, prefs, areas.drop_last()).push(areas.last().area_id@)
    } else {
        shown_areas(reg, live, prefs, areas.drop_last())
    }
}

/// The first registry area with the given id.
pub open spec fn first_area(areas: Seq<AreaEntry>, area: Seq<char>) -> Option<AreaEntry>
    decreases areas.len(),
{
    if areas.len() == 0 {
        None
    } else if areas[0].area_id@ == area {
        Some(areas[0])
    } else {
        first_area(areas.drop_first(), area)
    }
}

/// The icon an area's tab shows: its own if it has a non-empty one, else the default.
pub open spec fn area_icon(area: AreaEntry) -> Seq<char> {
    if area.icon is Some && area.icon->0@.len() > 0 {
        area.icon->0@
    } else {
        DEFAULT_AREA_ICON@
    }
}

/// A label: the cleaned name, or the cleaned fallback where the name cleans to nothing.
pub open spec fn label_spec(name: Seq<char>, fallback: Seq<char>) -> Seq<char> {
    if plain_spec(name).len() == 0 {
        plain_spec(fallback)
    } else {
        plain_spec(name)
    }
}

/// The glyph of an icon, falling back to that of the default area icon, else nothing.
pub open spec fn glyph_for_spec(glyphs: Glyphs, icon: Seq<char>) -> Seq<char> {
    match glyph_lookup(glyphs.entries@, icon) {
        Some(g) => g,
        None => match glyph_lookup(glyphs.entries@, DEFAULT_AREA_ICON@) {
            Some(g) => g,
            None => Seq::empty(),
        },
    }
}

/// `key` is the sort key of entity `id` under `display_name`: rank 0 and the
/// lower-cased name that a call of `display_name` on the id returned.
pub open spec fn named_key<F: Fn(&str) -> String>(display_name: F, id: Seq<char>, key: (int, Seq<char>)) -> bool {
    key.0 == 0 && exists|s: &str, n: String|
        s@ == id && #[trigger] call_ensures(display_name, (s,), n) && key.1 == lowercase(n@)
}

/// `out` is `ids` sorted stably by the lower-cased display names.
pub open spec fn sorted_by_name<F: Fn(&str) -> String>(display_name: F, ids: Seq<Seq<char>>, out: Seq<Seq<char>>) -> bool {
    exists|keys: Seq<(int, Seq<char>)>|
        keys.len() == ids.len() && (forall|i: int| 0 <= i < ids.len() ==> #[trigger] named_key(display_name, ids[i], keys[i]))
            && is_stable_sort(ids, keys, out)
}

/// `tab` is the tab of area `area`.
pub open spec fn is_area_tab<F: Fn(&str) -> String>(
    reg: Registry,
    live: Seq<Seq<char>>,
    display_name: F,
    glyphs: Glyphs,
    area: Seq<char>,
    tab: Tab,
) -> bool {
    &&& first_area(reg.areas@, area) is Some
    &&& {
        let entry = first_area(reg.areas@, area)->0;
        &&& tab.id@ == "area:"@ + area
        &&& tab.title@ == label_spec(entry.name@, area)
        &&& tab.icon@ == area_icon(entry)
        &&& tab.glyph@ == glyph_for_spec(glyphs, area_icon(entry))
        &&& sorted_by_name(display_name, members(reg, live, area), strings_view(tab.entity_ids@))
    }
}

/// Whether the tab of entities without an area is shown.
pub open spec fn unassigned_shown(reg: Registry, live: Seq<Seq<char>>, prefs: AreaPrefs) -> bool {
    !prefs.hide_entities_without_area && arealess(reg, live).len() > 0
}

/// `tab` is the tab of the entities without an area.
pub open spec fn is_unassigned_tab<F: Fn(&str) -> String>(
    reg: Registry,
    live: Seq<Seq<char>>,
    display_name: F,
    glyphs: Glyphs,
    tab: Tab,
) -> bool {
    &&& tab.id@ == "unassigned"@
    &&& tab.title@ == "Unassigned"@
    &&& tab.icon@ == UNASSIGNED_ICON@
    &&& tab.glyph@ == glyph_for_spec(glyphs, UNASSIGNED_ICON@)
    &&& sorted_by_name(display_name, arealess(reg, live), strings_view(tab.entity_ids@))
}

/// `tabs` is the projection of the live entities onto tabs: one per shown
/// area, in the user's order and then by name, each listing its entities by
/// display name; then, where shown, the tab of the entities without an area.
pub open spec fn tabs_projected<F: Fn(&str) -> String>(
    reg: Registry,
    live: Seq<Seq<char>>,
    prefs: AreaPrefs,
    display_name: F,
    glyphs: Glyphs,
    tabs: Seq<Tab>,
) -> bool {
    let shown = shown_areas(reg, live, prefs, reg.areas@);
    exists|sorted: Seq<Seq<char>>|
        {
            &&& is_stable_sort(shown, area_keys(reg, prefs, shown), sorted)
            &&& tabs.len() == sorted.len() + if unassigned_shown(reg, live, prefs) { 1int } else { 0 }
            &&& forall|i: int|
                0 <= i < sorted.len() ==> is_area_tab(reg, live, display_name, glyphs, sorted[i], #[trigger] tabs[i])
            &&& unassigned_shown(reg, live, prefs) ==> is_unassigned_tab(
                reg,
                live,
                display_name,
                glyphs,
                tabs[sorted.len() as int],
            )
        }
}

/// `choice` is the picker entry of area `area`.
pub open spec fn is_area_choice(
    reg: Registry,
    live: Seq<Seq<char>>,
    prefs: AreaPrefs,
    glyphs: Glyphs,
    area: Seq<char>,
    choice: AreaChoice,
) -> bool {
    &&& first_area(reg.areas@, area) is Some
    &&& {
        let entry = first_area(reg.areas@, area)->0;
        &&& choice.area_id@ == area
        &&& choice.name@ == label_spec(entry.name@, area)
        &&& choice.icon@ == area_icon(entry)
        &&& choice.glyph@ == glyph_for_spec(glyphs, area_icon(entry))
        &&& choice.entity_count == members(reg, live, area).len()
        &&& choice.hidden == is_hidden_area(prefs, area)
    }
}

/// `choices` lists every registry area, hidden and empty ones included, in the
/// user's order and then by name.
pub open spec fn choices_listed(
    reg: Registry,
    live: Seq<Seq<char>>,
    prefs: AreaPrefs,
    glyphs: Glyphs,
    choices: Seq<AreaChoice>,
) -> bool {
    let all = area_ids(reg.areas@);
    exists|sorted: Seq<Seq<char>>|
        {
            &&& is_stable_sort(all, area_keys(reg, prefs, all), sorted)
            &&& choices.len() == sorted.len()
            &&& forall|i: int|
                0 <= i < sorted.len() ==> is_area_choice(reg, live, prefs, glyphs, sorted[i], #[trigger] choices[i])
        }
}


/// The view of a computed placement.
pub open spec fn placement_view(p: Option<Option<String>>) -> Option<Option<Seq<char>>> {
    match p {
        None => None,
        Some(a) => Some(opt_string_view(a)),
    }
}

/// The view of an optional borrowed registry entry.
pub open spec fn entry_view(e: Option<&EntityEntry>) -> Option<EntityEntry> {
    match e {
        Some(e) => Some(*e),
        None => None,
    }
}

proof fn lemma_shown_from_areas(reg: Registry, live: Seq<Seq<char>>, prefs: AreaPrefs, areas: Seq<AreaEntry>, k: int)
    requires
        0 <= k < shown_areas(reg, live, prefs, areas).len(),
    ensures
        exists|j: int| 0 <= j < areas.len() && #[trigger] areas[j].area_id@ == shown_areas(reg, live, prefs, areas)[k],
    decreases areas.len(),
{
    let rest = shown_areas(reg, live, prefs, areas.drop_last());
    if area_shown(reg, live, prefs, areas.last().area_id@) && k == rest.len() {
        assert(areas[areas.len() - 1].area_id@ == shown_areas(reg, live, prefs, areas)[k]);
    } else {
        lemma_shown_from_areas(reg, live, prefs, areas.drop_last(), k);
        let j = choose|j: int| 0 <= j < areas.drop_last().len() && #[trigger] areas.drop_last()[j].area_id@ == rest[k];
        assert(areas[j] == areas.drop_last()[j]);
    }
}

proof fn lemma_first_area_found(areas: Seq<AreaEntry>, j: int)
    requires
        0 <= j < areas.len(),
    ensures
        first_area(areas, areas[j].area_id@) is Some,
    decreases j,
{
    if areas[0].area_id@ != areas[j].area_id@ {
        lemma_first_area_found(areas.drop_first(), j - 1);
        assert(areas.drop_first()[j - 1] == areas[j]);
    }
}

impl Registry {
    /// The index of the registry entry of an entity id: the last with that id.
    fn entity_index(&self, id: &str) -> (r: Option<usize>)
        ensures
            match r {
                Some(k) => k < self.entities@.len() && entry_of(self.entities@, id@) == Some(self.entities@[k as int]),
                None => entry_of(self.entities@, id@) is None,
            },
    {
        let mut i = self.entities.len();
        assert(self.entities@.take(i as int) =~= self.entities@);
        while i > 0
            invariant
                i <= self.entities@.len(),
                entry_of(self.entities@, id@) == entry_of(self.entities@.take(i as int), id@),
            decreases i,
        {
            let ghost t = self.entities@.take(i as int);
            assert(t.drop_last() =~= self.entities@.take(i - 1));
            assert(t.last() == self.entities@[i - 1]);
            if str_eq(self.entities[i - 1].entity_id.as_str(), id) {
                return Some(i - 1);
            }
            i = i - 1;
        }
        None
    }

    /// The registry entry of an entity id: the last with that id.
    pub fn entry(&self, id: &str) -> (r: Option<&EntityEntry>)
        ensures
            entry_view(r) == entry_of(self.entities@, id@),
    {
        match self.entity_index(id) {
            Some(k) => Some(&self.entities[k]),
            None => None,
        }
    }

    /// The area of a device: that of the last device with that id that has one.
    fn device_area(&self, device: &str) -> (r: Option<String>)
        ensures
            opt_string_view(r) == device_area_of(self.devices@, device@),
    {
        let mut i = self.devices.len();
        assert(self.devices@.take(i as int) =~= self.devices@);
        while i > 0
            invariant
                i <= self.devices@.len(),
                device_area_of(self.devices@, device@) == device_area_of(self.devices@.take(i as int), device@),
            decreases i,
        {
            let ghost t = self.devices@.take(i as int);
            assert(t.drop_last() =~= self.devices@.take(i - 1));
            assert(t.last() == self.devices@[i - 1]);
            let d = &self.devices[i - 1];
            if str_eq(d.id.as_str(), device) {
                match &d.area_id {
                    Some(a) => {
                        return Some(a.clone());
                    },
                    None => {},
                }
            }
            i = i - 1;
        }
        None
    }

    /// The area of a registry entry: its own non-empty one, else its device's.
    fn area_for(&self, entry: Option<&EntityEntry>) -> (r: Option<String>)
        ensures
            opt_string_view(r) == area_of_entry(self.devices@, entry_view(entry)),
    {
        let entry = match entry {
            Some(e) => e,
            None => return None,
        };
        match &entry.area_id {
            Some(area) => {
                if !area.as_str().is_empty() {
                    return Some(area.clone());
                }
            },
            None => {},
        }
        match &entry.device_id {
            Some(d) => self.device_area(d.as_str()),
            None => None,
        }
    }

    /// Where an entity goes; see `placement`.
    fn place(&self, id: &str) -> (r: Option<Option<String>>)
        ensures
            placement_view(r) == placement(*self, id@),
    {
        let k = self.entity_index(id);
        let entry = match k {
            Some(k) => Some(&self.entities[k]),
            None => None,
        };
        if !is_visible(id, entry) {
            None
        } else {
            Some(self.area_for(entry))
        }
    }

    /// Where each live entity goes.
    fn bucket(&self, live_ids: &[String]) -> (r: Vec<Option<Option<String>>>)
        ensures
            r@.len() == live_ids@.len(),
            forall|i: int| 0 <= i < r@.len() ==> placement_view(#[trigger] r@[i]) == placement(*self, live_ids@[i]@),
    {
        let mut r: Vec<Option<Option<String>>> = Vec::new();
        let mut i: usize = 0;
        while i < live_ids.len()
            invariant
                i <= live_ids@.len(),
                r@.len() == i,
                forall|j: int| 0 <= j < i ==> placement_view(#[trigger] r@[j]) == placement(*self, live_ids@[j]@),
            decreases live_ids@.len() - i,
        {
            let p = self.place(live_ids[i].as_str());
            r.push(p);
            i = i + 1;
        }
        r
    }

    /// The live entities that go into `area`, in live order.
    fn members_of(&self, live_ids: &[String], places: &Vec<Option<Option<String>>>, area: &str) -> (r: Vec<String>)
        requires
            places@.len() == live_ids@.len(),
            forall|i: int| 0 <= i < places@.len() ==> placement_view(#[trigger] places@[i]) == placement(*self, live_ids@[i]@),
        ensures
            strings_view(r@) == members(*self, strings_view(live_ids@), area@),
    {
        let ghost lv = strings_view(live_ids@);
        let mut r: Vec<String> = Vec::new();
        let mut i: usize = 0;
        while i < live_ids.len()
            invariant
                lv == strings_view(live_ids@),
                places@.len() == live_ids@.len(),
                forall|j: int| 0 <= j < places@.len() ==> placement_view(#[trigger] places@[j]) == placement(*self, live_ids@[j]@),
                i <= live_ids@.len(),
                strings_view(r@) == members(*self, lv.take(i as int), area@),
            decreases live_ids@.len() - i,
        {
            proof {
                assert(lv.take(i + 1).drop_last() =~= lv.take(i as int));
                assert(lv.take(i + 1).last() == live_ids@[i as int]@);
                assert(placement_view(places@[i as int]) == placement(*self, live_ids@[i as int]@));
            }
            let here = match &places[i] {
                Some(Some(a)) => str_eq(a.as_str(), area),
                _ => false,
            };
            if here {
                let ghost old_r = r@;
                r.push(live_ids[i].clone());
                proof {
                    assert(strings_view(r@) =~= strings_view(old_r).push(live_ids@[i as int]@));
                }
            }
            i = i + 1;
        }
        proof {
            assert(lv.take(live_ids@.len() as int) =~= lv);
        }
        r
    }

    /// The live entities that are shown but have no area, in live order.
    fn arealess_of(&self, live_ids: &[String], places: &Vec<Option<Option<String>>>) -> (r: Vec<String>)
        requires
            places@.len() == live_ids@.len(),
            forall|i: int| 0 <= i < places@.len() ==> placement_view(#[trigger] places@[i]) == placement(*self, live_ids@[i]@),
        ensures
            strings_view(r@) == arealess(*self, strings_view(live_ids@)),
    {
        let ghost lv = strings_view(live_ids@);
        let mut r: Vec<String> = Vec::new();
        let mut i: usize = 0;
        while i < live_ids.len()
            invariant
                lv == strings_view(live_ids@),
                places@.len() == live_ids@.len(),
                forall|j: int| 0 <= j < places@.len() ==> placement_view(#[trigger] places@[j]) == placement(*self, live_ids@[j]@),
                i <= live_ids@.len(),
                strings_view(r@) == arealess(*self, lv.take(i as int)),
            decreases live_ids@.len() - i,
        {
            proof {
                assert(lv.take(i + 1).drop_last() =~= lv.take(i as int));
                assert(lv.take(i + 1).last() == live_ids@[i as int]@);
                assert(placement_view(places@[i as int]) == placement(*self, live_ids@[i as int]@));
            }
            let here = match &places[i] {
                Some(None) => true,
                _ => false,
            };
            if here {
                let ghost old_r = r@;
                r.push(live_ids[i].clone());
                proof {
                    assert(strings_view(r@) =~= strings_view(old_r).push(live_ids@[i as int]@));
                }
            }
            i = i + 1;
        }
        proof {
            assert(lv.take(live_ids@.len() as int) =~= lv);
        }
        r
    }
}


/// Whether `x` is among `list`.
fn contains_string(list: &Vec<String>, x: &str) -> (r: bool)
    ensures
        r == strings_view(list@).contains(x@),
{
    let mut i: usize = 0;
    while i < list.len()
        invariant
            i <= list@.len(),
            forall|j: int| 0 <= j < i ==> list@[j]@ != x@,
        decreases list@.len() - i,
    {
        if str_eq(list[i].as_str(), x) {
            assert(strings_view(list@)[i as int] == x@);
            return true;
        }
        i = i + 1;
    }
    proof {
        if strings_view(list@).contains(x@) {
            let j = choose|j: int| 0 <= j < strings_view(list@).len() && strings_view(list@)[j] == x@;
            assert(list@[j]@ == x@);
        }
    }
    false
}

/// An area's place in the user's order; see `area_rank`.
fn rank_of(order: &Vec<String>, area: &str) -> (r: usize)
    ensures
        r == area_rank(strings_view(order@), area@),
{
    let ghost ov = strings_view(order@);
    let mut i = order.len();
    assert(ov.take(i as int) =~= ov);
    while i > 0
        invariant
            ov == strings_view(order@),
            i <= order@.len(),
            last_index(ov, area@) == last_index(ov.take(i as int), area@),
        decreases i,
    {
        let ghost t = ov.take(i as int);
        assert(t.drop_last() =~= ov.take(i - 1));
        assert(t.last() == order@[i - 1]@);
        if str_eq(order[i - 1].as_str(), area) {
            return i - 1;
        }
        i = i - 1;
    }
    assert(ov.take(0) =~= Seq::<Seq<char>>::empty());
    order.len()
}

/// A cleaned label, falling back to the cleaned `fallback` where `name` cleans to nothing.
fn label(name: &str, fallback: &str) -> (r: String)
    ensures
        r@ == label_spec(name@, fallback@),
{
    let cleaned = plain(name);
    if cleaned.as_str().is_empty() {
        plain(fallback)
    } else {
        cleaned
    }
}

/// The glyph of an icon, else that of the default area icon, else nothing.
fn glyph_for(glyphs: &Glyphs, icon: &str) -> (r: String)
    ensures
        r@ == glyph_for_spec(*glyphs, icon@),
{
    match glyphs.glyph(icon) {
        Some(g) => g,
        None => match glyphs.glyph(DEFAULT_AREA_ICON) {
            Some(g) => g,
            None => String::new(),
        },
    }
}

/// The icon of an area's tab: its own non-empty one, else the default.
fn icon_of(area: &AreaEntry) -> (r: String)
    ensures
        r@ == area_icon(*area),
{
    match &area.icon {
        Some(i) => {
            if !i.as_str().is_empty() {
                return i.clone();
            }
        },
        None => {},
    }
    String::from_str(DEFAULT_AREA_ICON)
}

/// The ids in `ids`, taken in the order of the indices `p`.
pub(crate) fn take_in_order(ids: &Vec<String>, p: &Vec<usize>) -> (r: Vec<String>)
    requires
        forall|i: int| 0 <= i < p@.len() ==> (#[trigger] p@[i]) < ids@.len(),
    ensures
        strings_view(r@) == permuted(strings_view(ids@), indices_view(p@)),
{
    let mut r: Vec<String> = Vec::new();
    let mut i: usize = 0;
    while i < p.len()
        invariant
            forall|j: int| 0 <= j < p@.len() ==> (#[trigger] p@[j]) < ids@.len(),
            i <= p@.len(),
            r@.len() == i,
            forall|j: int| 0 <= j < i ==> #[trigger] r@[j]@ == ids@[p@[j] as int]@,
        decreases p@.len() - i,
    {
        r.push(ids[p[i]].clone());
        i = i + 1;
    }
    proof {
        assert(strings_view(r@) =~= permuted(strings_view(ids@), indices_view(p@)));
    }
    r
}

impl Registry {
    /// The first registry area with the given id.
    fn find_area(&self, area: &str) -> (r: Option<&AreaEntry>)
        ensures
            match r {
                Some(a) => first_area(self.areas@, area@) == Some(*a),
                None => first_area(self.areas@, area@) is None,
            },
    {
        let mut i: usize = 0;
        assert(self.areas@.skip(0) =~= self.areas@);
        while i < self.areas.len()
            invariant
                i <= self.areas@.len(),
                first_area(self.areas@, area@) == first_area(self.areas@.skip(i as int), area@),
            decreases self.areas@.len() - i,
        {
            assert(self.areas@.skip(i as int)[0] == self.areas@[i as int]);
            if str_eq(self.areas[i].area_id.as_str(), area) {
                return Some(&self.areas[i]);
            }
            assert(self.areas@.skip(i as int).drop_first() =~= self.areas@.skip(i + 1));
            i = i + 1;
        }
        None
    }

    /// The name an area sorts by: that of the last registry area with that id, or the id.
    fn sort_name_of(&self, area: &str) -> (r: String)
        ensures
            r@ == sort_name(self.areas@, area@),
    {
        let mut i = self.areas.len();
        assert(self.areas@.take(i as int) =~= self.areas@);
        while i > 0
            invariant
                i <= self.areas@.len(),
                sort_name(self.areas@, area@) == sort_name(self.areas@.take(i as int), area@),
            decreases i,
        {
            let ghost t = self.areas@.take(i as int);
            assert(t.drop_last() =~= self.areas@.take(i - 1));
            assert(t.last() == self.areas@[i - 1]);
            if str_eq(self.areas[i - 1].area_id.as_str(), area) {
                return self.areas[i - 1].name.clone();
            }
            i = i - 1;
        }
        String::from_str(area)
    }

    /// Sorts area ids by the user's order, then by lower-cased name; stable.
    fn sort_areas(&self, prefs: &AreaPrefs, ids: &Vec<String>) -> (r: Vec<String>)
        ensures
            is_stable_sort(strings_view(ids@), area_keys(*self, *prefs, strings_view(ids@)), strings_view(r@)),
    {
        let ghost iv = strings_view(ids@);
        let mut keys: Vec<(usize, Vec<char>)> = Vec::new();
        let mut i: usize = 0;
        while i < ids.len()
            invariant
                iv == strings_view(ids@),
                i <= ids@.len(),
                keys@.len() == i,
                forall|j: int| 0 <= j < i ==> #[trigger] keys_view(keys@)[j] == area_keys(*self, *prefs, iv)[j],
            decreases ids@.len() - i,
        {
            let rank = rank_of(&prefs.order, ids[i].as_str());
            let name = self.sort_name_of(ids[i].as_str());
            let lower = to_lowercase(name.as_str());
            let ghost old_keys = keys@;
            keys.push((rank, chars_of(lower.as_str())));
            proof {
                assert forall|j: int| 0 <= j < i + 1 implies #[trigger] keys_view(keys@)[j] == area_keys(
                    *self,
                    *prefs,
                    iv,
                )[j] by {
                    if j < i {
                        assert(keys@[j] == old_keys[j]);
                        assert(keys_view(old_keys)[j] == area_keys(*self, *prefs, iv)[j]);
                    }
                }
            }
            i = i + 1;
        }
        assert(keys_view(keys@) =~= area_keys(*self, *prefs, iv));
        let p = sort_order(&keys);
        let ghost pv = indices_view(p@);
        proof {
            assert forall|j: int| 0 <= j < p@.len() implies (#[trigger] p@[j]) < ids@.len() by {
                assert(pv[j] == p@[j] as int);
            }
        }
        let r = take_in_order(ids, &p);
        proof {
            assert(is_sorted_order(area_keys(*self, *prefs, iv), pv) && strings_view(r@) == permuted(iv, pv));
        }
        r
    }
}


/// Sorts entity ids stably by their lower-cased display names; `display_name`
/// is called once for each id.
fn sort_entities<F: Fn(&str) -> String>(ids: &Vec<String>, display_name: &F) -> (r: Vec<String>)
    requires
        forall|s: &str| #[trigger] call_requires(*display_name, (s,)),
    ensures
        sorted_by_name(*display_name, strings_view(ids@), strings_view(r@)),
{
    let ghost iv = strings_view(ids@);
    let mut keys: Vec<(usize, Vec<char>)> = Vec::new();
    let mut i: usize = 0;
    while i < ids.len()
        invariant
            forall|s: &str| #[trigger] call_requires(*display_name, (s,)),
            iv == strings_view(ids@),
            i <= ids@.len(),
            keys@.len() == i,
            forall|j: int| 0 <= j < i ==> #[trigger] named_key(*display_name, iv[j], keys_view(keys@)[j]),
        decreases ids@.len() - i,
    {
        let s: &str = ids[i].as_str();
        let n = display_name(s);
        let lower = to_lowercase(n.as_str());
        let ghost old_keys = keys@;
        keys.push((0, chars_of(lower.as_str())));
        proof {
            assert(call_ensures(*display_name, (s,), n));
            assert(keys_view(keys@)[i as int] == (0int, lowercase(n@)));
            assert(named_key(*display_name, iv[i as int], keys_view(keys@)[i as int]));
            assert forall|j: int| 0 <= j < i + 1 implies #[trigger] named_key(
                *display_name,
                iv[j],
                keys_view(keys@)[j],
            ) by {
                if j < i {
                    assert(keys_view(keys@)[j] == keys_view(old_keys)[j]);
                }
            }
        }
        i = i + 1;
    }
    let p = sort_order(&keys);
    let ghost pv = indices_view(p@);
    proof {
        assert forall|j: int| 0 <= j < p@.len() implies (#[trigger] p@[j]) < ids@.len() by {
            assert(pv[j] == p@[j] as int);
        }
    }
    let r = take_in_order(ids, &p);
    proof {
        let kv = keys_view(keys@);
        assert(is_sorted_order(kv, pv) && strings_view(r@) == permuted(iv, pv));
        assert(is_stable_sort(iv, kv, strings_view(r@)));
        assert(kv.len() == iv.len());
    }
    r
}


proof fn lemma_first_area_id(areas: Seq<AreaEntry>, area: Seq<char>)
    requires
        first_area(areas, area) is Some,
    ensures
        first_area(areas, area)->0.area_id@ == area,
    decreases areas.len(),
{
    if areas[0].area_id@ != area {
        lemma_first_area_id(areas.drop_first(), area);
    }
}

impl Registry {
    /// The ids of the areas that get a tab, in registry order.
    fn shown_area_ids(&self, live_ids: &[String], places: &Vec<Option<Option<String>>>, prefs: &AreaPrefs) -> (r: Vec<String>)
        requires
            places@.len() == live_ids@.len(),
            forall|i: int| 0 <= i < places@.len() ==> placement_view(#[trigger] places@[i]) == placement(*self, live_ids@[i]@),
        ensures
            strings_view(r@) == shown_areas(*self, strings_view(live_ids@), *prefs, self.areas@),
    {
        let ghost lv = strings_view(live_ids@);
        let mut r: Vec<String> = Vec::new();
        let mut i: usize = 0;
        while i < self.areas.len()
            invariant
                lv == strings_view(live_ids@),
                places@.len() == live_ids@.len(),
                forall|j: int| 0 <= j < places@.len() ==> placement_view(#[trigger] places@[j]) == placement(*self, live_ids@[j]@),
                i <= self.areas@.len(),
                strings_view(r@) == shown_areas(*self, lv, *prefs, self.areas@.take(i as int)),
            decreases self.areas@.len() - i,
        {
            proof {
                assert(self.areas@.take(i + 1).drop_last() =~= self.areas@.take(i as int));
                assert(self.areas@.take(i + 1).last() == self.areas@[i as int]);
            }
            let id = &self.areas[i].area_id;
            let hidden = contains_string(&prefs.hidden, id.as_str());
            let shown = if hidden {
                false
            } else if !prefs.hide_empty_areas {
                true
            } else {
                self.members_of(live_ids, places, id.as_str()).len() > 0
            };
            if shown {
                let ghost old_r = r@;
                r.push(id.clone());
                proof {
                    assert(strings_view(r@) =~= strings_view(old_r).push(self.areas@[i as int].area_id@));
                }
            }
            i = i + 1;
        }
        proof {
            assert(self.areas@.take(self.areas@.len() as int) =~= self.areas@);
        }
        r
    }

    /// The tabs of the panel: one per room that has something to show (or
    /// every room, if empty ones are wanted) and that the user has not hidden,
    /// in the user's order and then by name, each listing its entities by
    /// display name; then, unless turned off, a tab of the entities without a
    /// room. Only live, visible entities are placed.
    pub fn project_tabs<F: Fn(&str) -> String>(
        &self,
        live_ids: &[String],
        prefs: &AreaPrefs,
        display_name: F,
        glyphs: &Glyphs,
    ) -> (tabs: Vec<Tab>)
        requires
            forall|s: &str| #[trigger] call_requires(display_name, (s,)),
        ensures
            tabs_projected(*self, strings_view(live_ids@), *prefs, display_name, *glyphs, tabs@),
    {
        let ghost lv = strings_view(live_ids@);
        let places = self.bucket(live_ids);
        let shown = self.shown_area_ids(live_ids, &places, prefs);
        let sorted = self.sort_areas(prefs, &shown);
        let ghost shown_v = strings_view(shown@);
        let ghost sorted_v = strings_view(sorted@);
        let mut tabs: Vec<Tab> = Vec::new();
        let mut k: usize = 0;
        while k < sorted.len()
            invariant
                forall|s: &str| #[trigger] call_requires(display_name, (s,)),
                lv == strings_view(live_ids@),
                places@.len() == live_ids@.len(),
                forall|j: int| 0 <= j < places@.len() ==> placement_view(#[trigger] places@[j]) == placement(*self, live_ids@[j]@),
                shown_v == strings_view(shown@),
                shown_v == shown_areas(*self, lv, *prefs, self.areas@),
                sorted_v == strings_view(sorted@),
                is_stable_sort(shown_v, area_keys(*self, *prefs, shown_v), sorted_v),
                k <= sorted@.len(),
                tabs@.len() == k,
                forall|i: int| 0 <= i < k ==> is_area_tab(*self, lv, display_name, *glyphs, sorted_v[i], #[trigger] tabs@[i]),
            decreases sorted@.len() - k,
        {
            let area_id = &sorted[k];
            proof {
                lemma_stable_sort_from(shown_v, area_keys(*self, *prefs, shown_v), sorted_v, k as int);
                let j = choose|j: int| 0 <= j < shown_v.len() && sorted_v[k as int] == #[trigger] shown_v[j];
                lemma_shown_from_areas(*self, lv, *prefs, self.areas@, j);
                let m = choose|m: int| 0 <= m < self.areas@.len() && #[trigger] self.areas@[m].area_id@ == shown_v[j];
                lemma_first_area_found(self.areas@, m);
            }
            let area = match self.find_area(area_id.as_str()) {
                Some(a) => a,
                None => {
                    k = k + 1;
                    continue;
                },
            };
            let members = self.members_of(live_ids, &places, area_id.as_str());
            let ids = sort_entities(&members, &display_name);
            let icon = icon_of(area);
            let glyph = glyph_for(glyphs, icon.as_str());
            let tab = Tab {
                id: concat("area:", area_id.as_str()),
                title: label(area.name.as_str(), area_id.as_str()),
                icon,
                glyph,
                entity_ids: ids,
            };
            tabs.push(tab);
            k = k + 1;
        }
        if !prefs.hide_entities_without_area {
            let rest = self.arealess_of(live_ids, &places);
            if rest.len() > 0 {
                let ids = sort_entities(&rest, &display_name);
                tabs.push(
                    Tab {
                        id: String::from_str("unassigned"),
                        title: String::from_str("Unassigned"),
                        icon: String::from_str(UNASSIGNED_ICON),
                        glyph: glyph_for(glyphs, UNASSIGNED_ICON),
                        entity_ids: ids,
                    },
                );
            }
        }
        proof {
            assert(is_stable_sort(shown_v, area_keys(*self, *prefs, shown_v), sorted_v));
        }
        tabs
    }

    /// Every room, hidden and empty ones included, in the user's order and then
    /// by name, with how many live visible entities it holds and whether it is
    /// hidden: what the room picker lists.
    pub fn area_choices(&self, live_ids: &[String], prefs: &AreaPrefs, glyphs: &Glyphs) -> (choices: Vec<AreaChoice>)
        ensures
            choices_listed(*self, strings_view(live_ids@), *prefs, *glyphs, choices@),
    {
        let ghost lv = strings_view(live_ids@);
        let places = self.bucket(live_ids);
        let mut ids: Vec<String> = Vec::new();
        let mut i: usize = 0;
        while i < self.areas.len()
            invariant
                i <= self.areas@.len(),
                ids@.len() == i,
                forall|j: int| 0 <= j < i ==> #[trigger] ids@[j]@ == self.areas@[j].area_id@,
            decreases self.areas@.len() - i,
        {
            ids.push(self.areas[i].area_id.clone());
            i = i + 1;
        }
        let ghost all = area_ids(self.areas@);
        assert(strings_view(ids@) =~= all);
        let sorted = self.sort_areas(prefs, &ids);
        let ghost sorted_v = strings_view(sorted@);
        let mut choices: Vec<AreaChoice> = Vec::new();
        let mut k: usize = 0;
        while k < sorted.len()
            invariant
                lv == strings_view(live_ids@),
                places@.len() == live_ids@.len(),
                forall|j: int| 0 <= j < places@.len() ==> placement_view(#[trigger] places@[j]) == placement(*self, live_ids@[j]@),
                all == area_ids(self.areas@),
                sorted_v == strings_view(sorted@),
                is_stable_sort(all, area_keys(*self, *prefs, all), sorted_v),
                k <= sorted@.len(),
                choices@.len() == k,
                forall|i: int| 0 <= i < k ==> is_area_choice(*self, lv, *prefs, *glyphs, sorted_v[i], #[trigger] choices@[i]),
            decreases sorted@.len() - k,
        {
            let area_id = &sorted[k];
            proof {
                lemma_stable_sort_from(all, area_keys(*self, *prefs, all), sorted_v, k as int);
                let j = choose|j: int| 0 <= j < all.len() && sorted_v[k as int] == #[trigger] all[j];
                lemma_first_area_found(self.areas@, j);
                lemma_first_area_id(self.areas@, sorted_v[k as int]);
            }
            let area = match self.find_area(area_id.as_str()) {
                Some(a) => a,
                None => {
                    k = k + 1;
                    continue;
                },
            };
            let icon = icon_of(area);
            let glyph = glyph_for(glyphs, icon.as_str());
            let count = self.members_of(live_ids, &places, area_id.as_str()).len();
            let choice = AreaChoice {
                area_id: area.area_id.clone(),
                name: label(area.name.as_str(), area.area_id.as_str()),
                icon,
                glyph,
                entity_count: count,
                hidden: contains_string(&prefs.hidden, area_id.as_str()),
            };
            choices.push(choice);
            k = k + 1;
        }
        proof {
            assert(choices@.len() == sorted_v.len());
            assert(forall|i: int|
                0 <= i < sorted_v.len() ==> is_area_choice(*self, lv, *prefs, *glyphs, sorted_v[i], #[trigger] choices@[i]));
        }
        choices
    }
}

} // verus!
