use vstd::prelude::*;

use crate::filter::is_visible_spec;
use crate::icons::Glyphs;
use crate::registry::{
    area_ids, area_keys, area_rank, area_shown, arealess, choices_listed, device_area_of, entry_of, is_area_choice,
    is_area_tab,
    is_hidden_area, is_unassigned_tab, members, named_key, placement, shown_areas, sorted_by_name, strings_view,
    tabs_projected, unassigned_shown, AreaChoice, AreaEntry, AreaPrefs, EntityEntry, Registry, Tab,
};
use crate::sort::{
    goes_before, is_stable_sort, lemma_key_lt_total, lemma_stable_sort_from, lemma_stable_sort_keeps, lemma_stable_sort_len,
    lemma_stable_sort_no_duplicates, lemma_stable_sort_ordered,
};

verus! {

// ---------------------------------------------------------------------------
// What the pieces of the projection hold.

proof fn lemma_shown_facts(reg: Registry, live: Seq<Seq<char>>, prefs: AreaPrefs, areas: Seq<AreaEntry>, k: int)
    requires
        0 <= k < shown_areas(reg, live, prefs, areas).len(),
    ensures
        area_shown(reg, live, prefs, shown_areas(reg, live, prefs, areas)[k]),
        area_ids(areas).contains(shown_areas(reg, live, prefs, areas)[k]),
    decreases areas.len(),
{
    let rest = shown_areas(reg, live, prefs, areas.drop_last());
    if area_shown(reg, live, prefs, areas.last().area_id@) && k == rest.len() {
        assert(area_ids(areas)[areas.len() - 1] == areas.last().area_id@);
    } else {
        lemma_shown_facts(reg, live, prefs, areas.drop_last(), k);
        let j = choose|j: int| 0 <= j < area_ids(areas.drop_last()).len() && area_ids(areas.drop_last())[j] == rest[k];
        assert(area_ids(areas)[j] == area_ids(areas.drop_last())[j]);
    }
}

proof fn lemma_shown_complete(reg: Registry, live: Seq<Seq<char>>, prefs: AreaPrefs, areas: Seq<AreaEntry>, a: Seq<char>)
    requires
        area_shown(reg, live, prefs, a),
        area_ids(areas).contains(a),
    ensures
        shown_areas(reg, live, prefs, areas).contains(a),
    decreases areas.len(),
{
    let rest = shown_areas(reg, live, prefs, areas.drop_last());
    if areas.last().area_id@ == a {
        assert(shown_areas(reg, live, prefs, areas) == rest.push(a));
        assert(shown_areas(reg, live, prefs, areas)[rest.len() as int] == a);
    } else {
        let j = choose|j: int| 0 <= j < area_ids(areas).len() && area_ids(areas)[j] == a;
        assert(j < areas.len() - 1);
        assert(area_ids(areas.drop_last())[j] == a);
        lemma_shown_complete(reg, live, prefs, areas.drop_last(), a);
        let i = choose|i: int| 0 <= i < rest.len() && rest[i] == a;
        if area_shown(reg, live, prefs, areas.last().area_id@) {
            assert(shown_areas(reg, live, prefs, areas)[i] == a);
        }
    }
}

proof fn lemma_shown_in_order(reg: Registry, live: Seq<Seq<char>>, prefs: AreaPrefs, areas: Seq<AreaEntry>, x: int, y: int)
    requires
        0 <= x < y < shown_areas(reg, live, prefs, areas).len(),
    ensures
        exists|p: int, q: int|
            #![trigger area_ids(areas)[p], area_ids(areas)[q]]
            0 <= p < q < areas.len() && area_ids(areas)[p] == shown_areas(reg, live, prefs, areas)[x]
                && area_ids(areas)[q] == shown_areas(reg, live, prefs, areas)[y],
    decreases areas.len(),
{
    let shown = shown_areas(reg, live, prefs, areas);
    let rest = shown_areas(reg, live, prefs, areas.drop_last());
    if area_shown(reg, live, prefs, areas.last().area_id@) && y == rest.len() {
        assert(shown == rest.push(areas.last().area_id@));
        lemma_shown_facts(reg, live, prefs, areas.drop_last(), x);
        let p = choose|p: int| 0 <= p < area_ids(areas.drop_last()).len() && area_ids(areas.drop_last())[p] == rest[x];
        assert(area_ids(areas)[p] == area_ids(areas.drop_last())[p]);
        assert(area_ids(areas)[areas.len() - 1] == areas.last().area_id@);
    } else {
        if area_shown(reg, live, prefs, areas.last().area_id@) {
            assert(shown == rest.push(areas.last().area_id@));
        }
        assert(shown[x] == rest[x] && shown[y] == rest[y]);
        lemma_shown_in_order(reg, live, prefs, areas.drop_last(), x, y);
        let (p, q) = choose|p: int, q: int|
            #![trigger area_ids(areas.drop_last())[p], area_ids(areas.drop_last())[q]]
            0 <= p < q < areas.drop_last().len() && area_ids(areas.drop_last())[p] == rest[x]
                && area_ids(areas.drop_last())[q] == rest[y];
        assert(area_ids(areas)[p] == area_ids(areas.drop_last())[p]);
        assert(area_ids(areas)[q] == area_ids(areas.drop_last())[q]);
    }
}

proof fn lemma_shown_no_duplicates(reg: Registry, live: Seq<Seq<char>>, prefs: AreaPrefs, areas: Seq<AreaEntry>)
    requires
        area_ids(areas).no_duplicates(),
    ensures
        shown_areas(reg, live, prefs, areas).no_duplicates(),
    decreases areas.len(),
{
    if areas.len() > 0 {
        let init = areas.drop_last();
        assert(area_ids(init).no_duplicates()) by {
            assert forall|i: int, j: int| 0 <= i < area_ids(init).len() && 0 <= j < area_ids(init).len() && i != j
                implies area_ids(init)[i] != area_ids(init)[j] by {
                assert(area_ids(init)[i] == area_ids(areas)[i]);
                assert(area_ids(init)[j] == area_ids(areas)[j]);
            }
        }
        lemma_shown_no_duplicates(reg, live, prefs, init);
        let rest = shown_areas(reg, live, prefs, init);
        let last = areas.last().area_id@;
        if area_shown(reg, live, prefs, last) {
            assert forall|k: int| 0 <= k < rest.len() implies rest[k] != last by {
                lemma_shown_facts(reg, live, prefs, init, k);
                let j = choose|j: int| 0 <= j < area_ids(init).len() && area_ids(init)[j] == rest[k];
                assert(area_ids(areas)[j] == rest[k]);
                assert(area_ids(areas)[areas.len() - 1] == last);
            }
            let s = shown_areas(reg, live, prefs, areas);
            assert(s == rest.push(last));
            assert forall|i: int, j: int| 0 <= i < s.len() && 0 <= j < s.len() && i != j implies s[i] != s[j] by {
                if i < rest.len() && j < rest.len() {
                    assert(s[i] == rest[i] && s[j] == rest[j]);
                } else if i < rest.len() {
                    assert(s[i] == rest[i]);
                } else if j < rest.len() {
                    assert(s[j] == rest[j]);
                }
            }
        }
    }
}

proof fn lemma_members_facts(reg: Registry, live: Seq<Seq<char>>, a: Seq<char>, k: int)
    requires
        0 <= k < members(reg, live, a).len(),
    ensures
        live.contains(members(reg, live, a)[k]),
        placement(reg, members(reg, live, a)[k]) == Some(Some(a)),
    decreases live.len(),
{
    let rest = members(reg, live.drop_last(), a);
    if placement(reg, live.last()) == Some(Some(a)) && k == rest.len() {
        assert(live[live.len() - 1] == live.last());
    } else {
        lemma_members_facts(reg, live.drop_last(), a, k);
        let j = choose|j: int| 0 <= j < live.drop_last().len() && live.drop_last()[j] == rest[k];
        assert(live[j] == rest[k]);
    }
}

proof fn lemma_members_complete(reg: Registry, live: Seq<Seq<char>>, a: Seq<char>, x: Seq<char>)
    requires
        live.contains(x),
        placement(reg, x) == Some(Some(a)),
    ensures
        members(reg, live, a).contains(x),
    decreases live.len(),
{
    let rest = members(reg, live.drop_last(), a);
    if live.last() == x {
        assert(members(reg, live, a)[rest.len() as int] == x);
    } else {
        let j = choose|j: int| 0 <= j < live.len() && live[j] == x;
        assert(live.drop_last()[j] == x);
        lemma_members_complete(reg, live.drop_last(), a, x);
        let i = choose|i: int| 0 <= i < rest.len() && rest[i] == x;
        if placement(reg, live.last()) == Some(Some(a)) {
            assert(members(reg, live, a)[i] == x);
        }
    }
}

proof fn lemma_members_no_duplicates(reg: Registry, live: Seq<Seq<char>>, a: Seq<char>)
    requires
        live.no_duplicates(),
    ensures
        members(reg, live, a).no_duplicates(),
    decreases live.len(),
{
    if live.len() > 0 {
        let init = live.drop_last();
        assert(init.no_duplicates()) by {
            assert forall|i: int, j: int| 0 <= i < init.len() && 0 <= j < init.len() && i != j implies init[i] != init[j] by {
                assert(init[i] == live[i] && init[j] == live[j]);
            }
        }
        lemma_members_no_duplicates(reg, init, a);
        let rest = members(reg, init, a);
        if placement(reg, live.last()) == Some(Some(a)) {
            assert forall|k: int| 0 <= k < rest.len() implies rest[k] != live.last() by {
                lemma_members_facts(reg, init, a, k);
                let j = choose|j: int| 0 <= j < init.len() && init[j] == rest[k];
                assert(live[j] == rest[k]);
            }
            let s = members(reg, live, a);
            assert forall|i: int, j: int| 0 <= i < s.len() && 0 <= j < s.len() && i != j implies s[i] != s[j] by {
                if i < rest.len() && j < rest.len() {
                    assert(s[i] == rest[i] && s[j] == rest[j]);
                } else if i < rest.len() {
                    assert(s[i] == rest[i]);
                } else if j < rest.len() {
                    assert(s[j] == rest[j]);
                }
            }
        }
    }
}

proof fn lemma_arealess_facts(reg: Registry, live: Seq<Seq<char>>, k: int)
    requires
        0 <= k < arealess(reg, live).len(),
    ensures
        live.contains(arealess(reg, live)[k]),
        placement(reg, arealess(reg, live)[k]) == Some(None::<Seq<char>>),
    decreases live.len(),
{
    let rest = arealess(reg, live.drop_last());
    if placement(reg, live.last()) == Some(None::<Seq<char>>) && k == rest.len() {
        assert(live[live.len() - 1] == live.last());
    } else {
        lemma_arealess_facts(reg, live.drop_last(), k);
        let j = choose|j: int| 0 <= j < live.drop_last().len() && live.drop_last()[j] == rest[k];
        assert(live[j] == rest[k]);
    }
}

proof fn lemma_arealess_complete(reg: Registry, live: Seq<Seq<char>>, x: Seq<char>)
    requires
        live.contains(x),
        placement(reg, x) == Some(None::<Seq<char>>),
    ensures
        arealess(reg, live).contains(x),
    decreases live.len(),
{
    let rest = arealess(reg, live.drop_last());
    if live.last() == x {
        assert(arealess(reg, live)[rest.len() as int] == x);
    } else {
        let j = choose|j: int| 0 <= j < live.len() && live[j] == x;
        assert(live.drop_last()[j] == x);
        lemma_arealess_complete(reg, live.drop_last(), x);
        let i = choose|i: int| 0 <= i < rest.len() && rest[i] == x;
        if placement(reg, live.last()) == Some(None::<Seq<char>>) {
            assert(arealess(reg, live)[i] == x);
        }
    }
}

proof fn lemma_arealess_no_duplicates(reg: Registry, live: Seq<Seq<char>>)
    requires
        live.no_duplicates(),
    ensures
        arealess(reg, live).no_duplicates(),
    decreases live.len(),
{
    if live.len() > 0 {
        let init = live.drop_last();
        assert(init.no_duplicates()) by {
            assert forall|i: int, j: int| 0 <= i < init.len() && 0 <= j < init.len() && i != j implies init[i] != init[j] by {
                assert(init[i] == live[i] && init[j] == live[j]);
            }
        }
        lemma_arealess_no_duplicates(reg, init);
        let rest = arealess(reg, init);
        if placement(reg, live.last()) == Some(None::<Seq<char>>) {
            assert forall|k: int| 0 <= k < rest.len() implies rest[k] != live.last() by {
                lemma_arealess_facts(reg, init, k);
                let j = choose|j: int| 0 <= j < init.len() && init[j] == rest[k];
                assert(live[j] == rest[k]);
            }
            let s = arealess(reg, live);
            assert forall|i: int, j: int| 0 <= i < s.len() && 0 <= j < s.len() && i != j implies s[i] != s[j] by {
                if i < rest.len() && j < rest.len() {
                    assert(s[i] == rest[i] && s[j] == rest[j]);
                } else if i < rest.len() {
                    assert(s[i] == rest[i]);
                } else if j < rest.len() {
                    assert(s[j] == rest[j]);
                }
            }
        }
    }
}

proof fn lemma_area_prefix(a: Seq<char>, b: Seq<char>)
    requires
        "area:"@ + a == "area:"@ + b,
    ensures
        a == b,
{
    reveal_strlit("area:");
    assert(a =~= ("area:"@ + a).skip(5));
    assert(b =~= ("area:"@ + b).skip(5));
}

proof fn lemma_unassigned_is_not_an_area(a: Seq<char>)
    ensures
        "unassigned"@ != "area:"@ + a,
{
    reveal_strlit("area:");
    reveal_strlit("unassigned");
    assert(("area:"@ + a)[0] == 'a');
    assert("unassigned"@[0] == 'u');
}

proof fn lemma_named_sort_facts<F: Fn(&str) -> String>(f: F, ids: Seq<Seq<char>>, out: Seq<Seq<char>>)
    requires
        sorted_by_name(f, ids, out),
    ensures
        out.len() == ids.len(),
        forall|k: int| 0 <= k < out.len() ==> ids.contains(#[trigger] out[k]),
        forall|j: int| 0 <= j < ids.len() ==> out.contains(#[trigger] ids[j]),
        ids.no_duplicates() ==> out.no_duplicates(),
{
    let keys = choose|keys: Seq<(int, Seq<char>)>|
        keys.len() == ids.len() && (forall|i: int| 0 <= i < ids.len() ==> #[trigger] named_key(f, ids[i], keys[i]))
            && is_stable_sort(ids, keys, out);
    lemma_stable_sort_len(ids, keys, out);
    assert forall|k: int| 0 <= k < out.len() implies ids.contains(#[trigger] out[k]) by {
        lemma_stable_sort_from(ids, keys, out, k);
    }
    assert forall|j: int| 0 <= j < ids.len() implies out.contains(#[trigger] ids[j]) by {
        lemma_stable_sort_keeps(ids, keys, out, j);
    }
    if ids.no_duplicates() {
        lemma_stable_sort_no_duplicates(ids, keys, out);
    }
}

/// The witness of a projection: the shown areas in tab order.
spec fn tab_areas<F: Fn(&str) -> String>(
    reg: Registry,
    live: Seq<Seq<char>>,
    prefs: AreaPrefs,
    f: F,
    glyphs: Glyphs,
    tabs: Seq<Tab>,
) -> Seq<Seq<char>> {
    let shown = shown_areas(reg, live, prefs, reg.areas@);
    choose|sorted: Seq<Seq<char>>|
        {
            &&& is_stable_sort(shown, area_keys(reg, prefs, shown), sorted)
            &&& tabs.len() == sorted.len() + if unassigned_shown(reg, live, prefs) { 1int } else { 0 }
            &&& forall|i: int| 0 <= i < sorted.len() ==> is_area_tab(reg, live, f, glyphs, sorted[i], #[trigger] tabs[i])
            &&& unassigned_shown(reg, live, prefs) ==> is_unassigned_tab(reg, live, f, glyphs, tabs[sorted.len() as int])
        }
}

/// Where tab `i` is an area tab, its area; and what that area satisfies.
proof fn lemma_tab_facts<F: Fn(&str) -> String>(
    reg: Registry,
    live: Seq<Seq<char>>,
    prefs: AreaPrefs,
    f: F,
    glyphs: Glyphs,
    tabs: Seq<Tab>,
    i: int,
)
    requires
        tabs_projected(reg, live, prefs, f, glyphs, tabs),
        0 <= i < tabs.len(),
    ensures
        ({
            let sorted = tab_areas(reg, live, prefs, f, glyphs, tabs);
            let shown = shown_areas(reg, live, prefs, reg.areas@);
            &&& is_stable_sort(shown, area_keys(reg, prefs, shown), sorted)
            &&& tabs.len() == sorted.len() + if unassigned_shown(reg, live, prefs) { 1int } else { 0 }
            &&& i < sorted.len() ==> {
                &&& is_area_tab(reg, live, f, glyphs, sorted[i], tabs[i])
                &&& area_shown(reg, live, prefs, sorted[i])
                &&& area_ids(reg.areas@).contains(sorted[i])
            }
            &&& i >= sorted.len() ==> i == sorted.len() && unassigned_shown(reg, live, prefs) && is_unassigned_tab(
                reg,
                live,
                f,
                glyphs,
                tabs[i],
            )
        }),
{
    let sorted = tab_areas(reg, live, prefs, f, glyphs, tabs);
    let shown = shown_areas(reg, live, prefs, reg.areas@);
    if i < sorted.len() {
        lemma_stable_sort_from(shown, area_keys(reg, prefs, shown), sorted, i);
        let j = choose|j: int| 0 <= j < shown.len() && sorted[i] == #[trigger] shown[j];
        lemma_shown_facts(reg, live, prefs, reg.areas@, j);
    }
}

// ---------------------------------------------------------------------------
// The laws of the projection.

/// An area the user hid never gets a tab.
pub proof fn law_hidden_areas_are_never_shown<F: Fn(&str) -> String>(
    reg: Registry,
    live: Seq<Seq<char>>,
    prefs: AreaPrefs,
    f: F,
    glyphs: Glyphs,
    tabs: Seq<Tab>,
    i: int,
    area: Seq<char>,
)
    requires
        tabs_projected(reg, live, prefs, f, glyphs, tabs),
        0 <= i < tabs.len(),
        tabs[i].id@ == "area:"@ + area,
    ensures
        !is_hidden_area(prefs, area),
{
    lemma_tab_facts(reg, live, prefs, f, glyphs, tabs, i);
    let sorted = tab_areas(reg, live, prefs, f, glyphs, tabs);
    if i < sorted.len() {
        lemma_area_prefix(sorted[i], area);
    } else {
        lemma_unassigned_is_not_an_area(area);
    }
}

/// Where empty areas are hidden, no area tab is empty.
pub proof fn law_empty_areas_are_hidden<F: Fn(&str) -> String>(
    reg: Registry,
    live: Seq<Seq<char>>,
    prefs: AreaPrefs,
    f: F,
    glyphs: Glyphs,
    tabs: Seq<Tab>,
    i: int,
    area: Seq<char>,
)
    requires
        tabs_projected(reg, live, prefs, f, glyphs, tabs),
        prefs.hide_empty_areas,
        0 <= i < tabs.len(),
        tabs[i].id@ == "area:"@ + area,
    ensures
        tabs[i].entity_ids@.len() > 0,
{
    lemma_tab_facts(reg, live, prefs, f, glyphs, tabs, i);
    let sorted = tab_areas(reg, live, prefs, f, glyphs, tabs);
    if i < sorted.len() {
        lemma_named_sort_facts(f, members(reg, live, sorted[i]), strings_view(tabs[i].entity_ids@));
    } else {
        lemma_unassigned_is_not_an_area(area);
    }
}

/// Only live entities that are shown reach a tab; invisible ones never do.
pub proof fn law_only_visible_live_entities_are_placed<F: Fn(&str) -> String>(
    reg: Registry,
    live: Seq<Seq<char>>,
    prefs: AreaPrefs,
    f: F,
    glyphs: Glyphs,
    tabs: Seq<Tab>,
    i: int,
    k: int,
)
    requires
        tabs_projected(reg, live, prefs, f, glyphs, tabs),
        0 <= i < tabs.len(),
        0 <= k < tabs[i].entity_ids@.len(),
    ensures
        live.contains(tabs[i].entity_ids@[k]@),
        is_visible_spec(tabs[i].entity_ids@[k]@, entry_of(reg.entities@, tabs[i].entity_ids@[k]@)),
{
    lemma_tab_facts(reg, live, prefs, f, glyphs, tabs, i);
    let sorted = tab_areas(reg, live, prefs, f, glyphs, tabs);
    let out = strings_view(tabs[i].entity_ids@);
    assert(out[k] == tabs[i].entity_ids@[k]@);
    if i < sorted.len() {
        let ids = members(reg, live, sorted[i]);
        lemma_named_sort_facts(f, ids, out);
        assert(ids.contains(out[k]));
        let j = choose|j: int| 0 <= j < ids.len() && ids[j] == out[k];
        lemma_members_facts(reg, live, sorted[i], j);
    } else {
        let ids = arealess(reg, live);
        lemma_named_sort_facts(f, ids, out);
        assert(ids.contains(out[k]));
        let j = choose|j: int| 0 <= j < ids.len() && ids[j] == out[k];
        lemma_arealess_facts(reg, live, j);
    }
}

/// Where the registry's area ids are distinct, so are the tabs' ids.
pub proof fn law_tab_ids_are_distinct<F: Fn(&str) -> String>(
    reg: Registry,
    live: Seq<Seq<char>>,
    prefs: AreaPrefs,
    f: F,
    glyphs: Glyphs,
    tabs: Seq<Tab>,
    i: int,
    j: int,
)
    requires
        tabs_projected(reg, live, prefs, f, glyphs, tabs),
        area_ids(reg.areas@).no_duplicates(),
        0 <= i < j < tabs.len(),
    ensures
        tabs[i].id@ != tabs[j].id@,
{
    lemma_tab_facts(reg, live, prefs, f, glyphs, tabs, i);
    lemma_tab_facts(reg, live, prefs, f, glyphs, tabs, j);
    let sorted = tab_areas(reg, live, prefs, f, glyphs, tabs);
    let shown = shown_areas(reg, live, prefs, reg.areas@);
    lemma_shown_no_duplicates(reg, live, prefs, reg.areas@);
    lemma_stable_sort_no_duplicates(shown, area_keys(reg, prefs, shown), sorted);
    if j < sorted.len() {
        if tabs[i].id@ == tabs[j].id@ {
            lemma_area_prefix(sorted[i], sorted[j]);
        }
    } else {
        lemma_unassigned_is_not_an_area(sorted[i]);
    }
}

/// Where the live ids and the registry's area ids are distinct, no entity is
/// placed twice: not in two tabs, and not twice in one.
pub proof fn law_no_entity_is_placed_twice<F: Fn(&str) -> String>(
    reg: Registry,
    live: Seq<Seq<char>>,
    prefs: AreaPrefs,
    f: F,
    glyphs: Glyphs,
    tabs: Seq<Tab>,
    i: int,
    x: int,
    j: int,
    y: int,
)
    requires
        tabs_projected(reg, live, prefs, f, glyphs, tabs),
        live.no_duplicates(),
        area_ids(reg.areas@).no_duplicates(),
        0 <= i < tabs.len(),
        0 <= j < tabs.len(),
        0 <= x < tabs[i].entity_ids@.len(),
        0 <= y < tabs[j].entity_ids@.len(),
        i != j || x != y,
    ensures
        tabs[i].entity_ids@[x]@ != tabs[j].entity_ids@[y]@,
{
    lemma_tab_facts(reg, live, prefs, f, glyphs, tabs, i);
    lemma_tab_facts(reg, live, prefs, f, glyphs, tabs, j);
    let sorted = tab_areas(reg, live, prefs, f, glyphs, tabs);
    let shown = shown_areas(reg, live, prefs, reg.areas@);
    let oi = strings_view(tabs[i].entity_ids@);
    let oj = strings_view(tabs[j].entity_ids@);
    assert(oi[x] == tabs[i].entity_ids@[x]@);
    assert(oj[y] == tabs[j].entity_ids@[y]@);
    if i == j {
        if i < sorted.len() {
            lemma_members_no_duplicates(reg, live, sorted[i]);
            lemma_named_sort_facts(f, members(reg, live, sorted[i]), oi);
        } else {
            lemma_arealess_no_duplicates(reg, live);
            lemma_named_sort_facts(f, arealess(reg, live), oi);
        }
    } else {
        // the entity's placement names the tab it went to
        let pi = if i < sorted.len() {
            let ids = members(reg, live, sorted[i]);
            lemma_named_sort_facts(f, ids, oi);
            let a = choose|a: int| 0 <= a < ids.len() && ids[a] == oi[x];
            lemma_members_facts(reg, live, sorted[i], a);
            Some(sorted[i])
        } else {
            let ids = arealess(reg, live);
            lemma_named_sort_facts(f, ids, oi);
            let a = choose|a: int| 0 <= a < ids.len() && ids[a] == oi[x];
            lemma_arealess_facts(reg, live, a);
            None
        };
        let pj = if j < sorted.len() {
            let ids = members(reg, live, sorted[j]);
            lemma_named_sort_facts(f, ids, oj);
            let a = choose|a: int| 0 <= a < ids.len() && ids[a] == oj[y];
            lemma_members_facts(reg, live, sorted[j], a);
            Some(sorted[j])
        } else {
            let ids = arealess(reg, live);
            lemma_named_sort_facts(f, ids, oj);
            let a = choose|a: int| 0 <= a < ids.len() && ids[a] == oj[y];
            lemma_arealess_facts(reg, live, a);
            None
        };
        assert(placement(reg, oi[x]) == Some(pi));
        assert(placement(reg, oj[y]) == Some(pj));
        lemma_shown_no_duplicates(reg, live, prefs, reg.areas@);
        lemma_stable_sort_no_duplicates(shown, area_keys(reg, prefs, shown), sorted);
        assert(pi != pj);
    }
}

/// Area tabs follow the user's order: an area listed earlier in the order is
/// never shown after one listed later.
pub proof fn law_area_order_is_honoured<F: Fn(&str) -> String>(
    reg: Registry,
    live: Seq<Seq<char>>,
    prefs: AreaPrefs,
    f: F,
    glyphs: Glyphs,
    tabs: Seq<Tab>,
    i: int,
    j: int,
    a: Seq<char>,
    b: Seq<char>,
)
    requires
        tabs_projected(reg, live, prefs, f, glyphs, tabs),
        0 <= i < j < tabs.len(),
        tabs[i].id@ == "area:"@ + a,
        tabs[j].id@ == "area:"@ + b,
    ensures
        area_rank(strings_view(prefs.order@), a) <= area_rank(strings_view(prefs.order@), b),
{
    lemma_tab_facts(reg, live, prefs, f, glyphs, tabs, i);
    lemma_tab_facts(reg, live, prefs, f, glyphs, tabs, j);
    let sorted = tab_areas(reg, live, prefs, f, glyphs, tabs);
    let shown = shown_areas(reg, live, prefs, reg.areas@);
    if j < sorted.len() {
        lemma_area_prefix(sorted[i], a);
        lemma_area_prefix(sorted[j], b);
        let keys = area_keys(reg, prefs, shown);
        lemma_stable_sort_ordered(shown, keys, sorted, i, j);
        let (x, y) = choose|x: int, y: int|
            0 <= x < shown.len() && 0 <= y < shown.len() && sorted[i] == shown[x] && sorted[j] == shown[y]
                && goes_before(keys, x, y);
        assert(keys[x].0 == area_rank(strings_view(prefs.order@), a));
        assert(keys[y].0 == area_rank(strings_view(prefs.order@), b));
    } else {
        lemma_unassigned_is_not_an_area(b);
    }
}

/// The tab of entities without an area is the last tab, and shown only where
/// the user has not turned it off and there is something to put in it.
pub proof fn law_unassigned_tab_comes_last<F: Fn(&str) -> String>(
    reg: Registry,
    live: Seq<Seq<char>>,
    prefs: AreaPrefs,
    f: F,
    glyphs: Glyphs,
    tabs: Seq<Tab>,
    i: int,
)
    requires
        tabs_projected(reg, live, prefs, f, glyphs, tabs),
        0 <= i < tabs.len(),
        tabs[i].id@ == "unassigned"@,
    ensures
        i == tabs.len() - 1,
        !prefs.hide_entities_without_area,
        tabs[i].entity_ids@.len() > 0,
{
    lemma_tab_facts(reg, live, prefs, f, glyphs, tabs, i);
    let sorted = tab_areas(reg, live, prefs, f, glyphs, tabs);
    if i < sorted.len() {
        lemma_unassigned_is_not_an_area(sorted[i]);
    } else {
        lemma_named_sort_facts(f, arealess(reg, live), strings_view(tabs[i].entity_ids@));
    }
}

/// No live entity is dropped silently: a visible one whose area is a
/// registry area the user shows lands in that area's tab, and a visible one
/// without an area lands in the trailing tab unless the user turned it off.
pub proof fn law_visible_entities_are_placed<F: Fn(&str) -> String>(
    reg: Registry,
    live: Seq<Seq<char>>,
    prefs: AreaPrefs,
    f: F,
    glyphs: Glyphs,
    tabs: Seq<Tab>,
    id: Seq<char>,
)
    requires
        tabs_projected(reg, live, prefs, f, glyphs, tabs),
        live.contains(id),
        placement(reg, id) is Some,
        match placement(reg, id)->0 {
            Some(a) => area_ids(reg.areas@).contains(a) && !is_hidden_area(prefs, a),
            None => !prefs.hide_entities_without_area,
        },
    ensures
        exists|i: int, k: int|
            0 <= i < tabs.len() && 0 <= k < tabs[i].entity_ids@.len() && #[trigger] tabs[i].entity_ids@[k]@ == id
                && match placement(reg, id)->0 {
                Some(a) => tabs[i].id@ == "area:"@ + a,
                None => tabs[i].id@ == "unassigned"@,
            },
{
    let sorted = tab_areas(reg, live, prefs, f, glyphs, tabs);
    let shown = shown_areas(reg, live, prefs, reg.areas@);
    let keys = area_keys(reg, prefs, shown);
    match placement(reg, id)->0 {
        Some(a) => {
            lemma_members_complete(reg, live, a, id);
            assert(area_shown(reg, live, prefs, a));
            lemma_shown_complete(reg, live, prefs, reg.areas@, a);
            let j = choose|j: int| 0 <= j < shown.len() && shown[j] == a;
            lemma_stable_sort_keeps(shown, keys, sorted, j);
            let i = choose|i: int| 0 <= i < sorted.len() && sorted[i] == a;
            lemma_stable_sort_len(shown, keys, sorted);
            assert(is_area_tab(reg, live, f, glyphs, sorted[i], tabs[i]));
            let ids = members(reg, live, a);
            let out = strings_view(tabs[i].entity_ids@);
            lemma_named_sort_facts(f, ids, out);
            let m = choose|m: int| 0 <= m < ids.len() && ids[m] == id;
            assert(out.contains(ids[m]));
            let k = choose|k: int| 0 <= k < out.len() && out[k] == id;
            assert(tabs[i].entity_ids@[k]@ == id);
        },
        None => {
            lemma_arealess_complete(reg, live, id);
            assert(unassigned_shown(reg, live, prefs));
            lemma_stable_sort_len(shown, keys, sorted);
            let i = sorted.len() as int;
            let ids = arealess(reg, live);
            let out = strings_view(tabs[i].entity_ids@);
            lemma_named_sort_facts(f, ids, out);
            let m = choose|m: int| 0 <= m < ids.len() && ids[m] == id;
            assert(out.contains(ids[m]));
            let k = choose|k: int| 0 <= k < out.len() && out[k] == id;
            assert(tabs[i].entity_ids@[k]@ == id);
        },
    }
}

/// The room picker lists every registry area, hidden and empty ones too,
/// with its entity count and whether it is hidden.
pub proof fn law_picker_lists_every_area(
    reg: Registry,
    live: Seq<Seq<char>>,
    prefs: AreaPrefs,
    glyphs: Glyphs,
    choices: Seq<AreaChoice>,
    j: int,
)
    requires
        choices_listed(reg, live, prefs, glyphs, choices),
        0 <= j < reg.areas@.len(),
    ensures
        choices.len() == reg.areas@.len(),
        exists|i: int|
            0 <= i < choices.len() && #[trigger] choices[i].area_id@ == reg.areas@[j].area_id@
                && choices[i].entity_count == members(reg, live, reg.areas@[j].area_id@).len()
                && choices[i].hidden == is_hidden_area(prefs, reg.areas@[j].area_id@),
{
    let all = area_ids(reg.areas@);
    let keys = area_keys(reg, prefs, all);
    let sorted = choose|sorted: Seq<Seq<char>>|
        {
            &&& is_stable_sort(all, keys, sorted)
            &&& choices.len() == sorted.len()
            &&& forall|i: int| 0 <= i < sorted.len() ==> is_area_choice(reg, live, prefs, glyphs, sorted[i], #[trigger] choices[i])
        };
    lemma_stable_sort_len(all, keys, sorted);
    lemma_stable_sort_keeps(all, keys, sorted, j);
    let i = choose|i: int| 0 <= i < sorted.len() && sorted[i] == all[j];
    assert(is_area_choice(reg, live, prefs, glyphs, sorted[i], choices[i]));
}

/// The room tabs and the room picker agree: every tab but the one for
/// unassigned entities belongs to a room that the picker lists as neither
/// hidden nor (where empty rooms are hidden) empty, and every room the picker
/// lists so has a tab.
pub proof fn law_room_tabs_are_the_pickers_shown_rooms<F: Fn(&str) -> String>(
    reg: Registry,
    live: Seq<Seq<char>>,
    prefs: AreaPrefs,
    f: F,
    glyphs: Glyphs,
    tabs: Seq<Tab>,
    choices: Seq<AreaChoice>,
)
    requires
        tabs_projected(reg, live, prefs, f, glyphs, tabs),
        choices_listed(reg, live, prefs, glyphs, choices),
    ensures
        forall|i: int|
            #![trigger tabs[i]]
            0 <= i < tabs.len() && tabs[i].id@ != "unassigned"@ ==> exists|j: int|
                #![trigger choices[j]]
                0 <= j < choices.len() && !choices[j].hidden && (!prefs.hide_empty_areas
                    || choices[j].entity_count > 0) && tabs[i].id@ == "area:"@ + choices[j].area_id@,
        forall|j: int|
            #![trigger choices[j]]
            0 <= j < choices.len() && !choices[j].hidden && (!prefs.hide_empty_areas
                || choices[j].entity_count > 0) ==> exists|i: int|
                #![trigger tabs[i]]
                0 <= i < tabs.len() && tabs[i].id@ == "area:"@ + choices[j].area_id@,
{
    let shown = shown_areas(reg, live, prefs, reg.areas@);
    let tkeys = area_keys(reg, prefs, shown);
    let ts = choose|sorted: Seq<Seq<char>>|
        {
            &&& is_stable_sort(shown, tkeys, sorted)
            &&& tabs.len() == sorted.len() + if unassigned_shown(reg, live, prefs) { 1int } else { 0 }
            &&& forall|i: int| 0 <= i < sorted.len() ==> is_area_tab(reg, live, f, glyphs, sorted[i], #[trigger] tabs[i])
            &&& unassigned_shown(reg, live, prefs) ==> is_unassigned_tab(reg, live, f, glyphs, tabs[sorted.len() as int])
        };
    let all = area_ids(reg.areas@);
    let ckeys = area_keys(reg, prefs, all);
    let cs = choose|sorted: Seq<Seq<char>>|
        {
            &&& is_stable_sort(all, ckeys, sorted)
            &&& choices.len() == sorted.len()
            &&& forall|i: int| 0 <= i < sorted.len() ==> is_area_choice(reg, live, prefs, glyphs, sorted[i], #[trigger] choices[i])
        };
    lemma_stable_sort_len(shown, tkeys, ts);
    lemma_stable_sort_len(all, ckeys, cs);
    assert forall|i: int|
        #![trigger tabs[i]]
        0 <= i < tabs.len() && tabs[i].id@ != "unassigned"@ implies exists|j: int|
            #![trigger choices[j]]
            0 <= j < choices.len() && !choices[j].hidden && (!prefs.hide_empty_areas
                || choices[j].entity_count > 0) && tabs[i].id@ == "area:"@ + choices[j].area_id@ by {
        assert(i < ts.len());
        assert(is_area_tab(reg, live, f, glyphs, ts[i], tabs[i]));
        let a = ts[i];
        lemma_stable_sort_from(shown, tkeys, ts, i);
        let k = choose|k: int| 0 <= k < shown.len() && ts[i] == #[trigger] shown[k];
        lemma_shown_facts(reg, live, prefs, reg.areas@, k);
        let m = choose|m: int| 0 <= m < all.len() && all[m] == a;
        lemma_stable_sort_keeps(all, ckeys, cs, m);
        let j = choose|j: int| 0 <= j < cs.len() && cs[j] == a;
        assert(is_area_choice(reg, live, prefs, glyphs, cs[j], choices[j]));
    }
    assert forall|j: int|
        #![trigger choices[j]]
        0 <= j < choices.len() && !choices[j].hidden && (!prefs.hide_empty_areas
            || choices[j].entity_count > 0) implies exists|i: int|
            #![trigger tabs[i]]
            0 <= i < tabs.len() && tabs[i].id@ == "area:"@ + choices[j].area_id@ by {
        assert(is_area_choice(reg, live, prefs, glyphs, cs[j], choices[j]));
        let a = cs[j];
        lemma_stable_sort_from(all, ckeys, cs, j);
        let m = choose|m: int| 0 <= m < all.len() && cs[j] == #[trigger] all[m];
        assert(area_shown(reg, live, prefs, a));
        lemma_shown_complete(reg, live, prefs, reg.areas@, a);
        let k = choose|k: int| 0 <= k < shown.len() && shown[k] == a;
        lemma_stable_sort_keeps(shown, tkeys, ts, k);
        let i = choose|i: int| 0 <= i < ts.len() && ts[i] == a;
        assert(is_area_tab(reg, live, f, glyphs, ts[i], tabs[i]));
    }
}

/// Where no two areas share an id, the room tabs come in the picker's order:
/// of two rooms with tabs, the one whose tab comes first comes first in the
/// picker too.
pub proof fn law_room_tabs_follow_the_pickers_order<F: Fn(&str) -> String>(
    reg: Registry,
    live: Seq<Seq<char>>,
    prefs: AreaPrefs,
    f: F,
    glyphs: Glyphs,
    tabs: Seq<Tab>,
    choices: Seq<AreaChoice>,
)
    requires
        area_ids(reg.areas@).no_duplicates(),
        tabs_projected(reg, live, prefs, f, glyphs, tabs),
        choices_listed(reg, live, prefs, glyphs, choices),
    ensures
        forall|i1: int, i2: int, j1: int, j2: int|
            #![trigger tabs[i1], tabs[i2], choices[j1], choices[j2]]
            0 <= i1 < i2 < tabs.len() && 0 <= j1 < choices.len() && 0 <= j2 < choices.len()
                && tabs[i1].id@ == "area:"@ + choices[j1].area_id@
                && tabs[i2].id@ == "area:"@ + choices[j2].area_id@ ==> j1 < j2,
{
    let shown = shown_areas(reg, live, prefs, reg.areas@);
    let tkeys = area_keys(reg, prefs, shown);
    let ts = choose|sorted: Seq<Seq<char>>|
        {
            &&& is_stable_sort(shown, tkeys, sorted)
            &&& tabs.len() == sorted.len() + if unassigned_shown(reg, live, prefs) { 1int } else { 0 }
            &&& forall|i: int| 0 <= i < sorted.len() ==> is_area_tab(reg, live, f, glyphs, sorted[i], #[trigger] tabs[i])
            &&& unassigned_shown(reg, live, prefs) ==> is_unassigned_tab(reg, live, f, glyphs, tabs[sorted.len() as int])
        };
    let all = area_ids(reg.areas@);
    let ckeys = area_keys(reg, prefs, all);
    let cs = choose|sorted: Seq<Seq<char>>|
        {
            &&& is_stable_sort(all, ckeys, sorted)
            &&& choices.len() == sorted.len()
            &&& forall|i: int| 0 <= i < sorted.len() ==> is_area_choice(reg, live, prefs, glyphs, sorted[i], #[trigger] choices[i])
        };
    lemma_stable_sort_len(shown, tkeys, ts);
    lemma_stable_sort_len(all, ckeys, cs);
    lemma_shown_no_duplicates(reg, live, prefs, reg.areas@);
    lemma_stable_sort_no_duplicates(shown, tkeys, ts);
    lemma_stable_sort_no_duplicates(all, ckeys, cs);
    assert forall|i1: int, i2: int, j1: int, j2: int|
        #![trigger tabs[i1], tabs[i2], choices[j1], choices[j2]]
        0 <= i1 < i2 < tabs.len() && 0 <= j1 < choices.len() && 0 <= j2 < choices.len()
            && tabs[i1].id@ == "area:"@ + choices[j1].area_id@
            && tabs[i2].id@ == "area:"@ + choices[j2].area_id@ implies j1 < j2 by {
        if i2 == ts.len() {
            lemma_unassigned_is_not_an_area(choices[j2].area_id@);
        }
        assert(is_area_tab(reg, live, f, glyphs, ts[i1], tabs[i1]));
        assert(is_area_tab(reg, live, f, glyphs, ts[i2], tabs[i2]));
        lemma_area_prefix(ts[i1], choices[j1].area_id@);
        lemma_area_prefix(ts[i2], choices[j2].area_id@);
        assert(is_area_choice(reg, live, prefs, glyphs, cs[j1], choices[j1]));
        assert(is_area_choice(reg, live, prefs, glyphs, cs[j2], choices[j2]));
        assert(ts[i1] != ts[i2]);
        if j2 < j1 {
            lemma_stable_sort_ordered(shown, tkeys, ts, i1, i2);
            let (x, y) = choose|x: int, y: int|
                0 <= x < shown.len() && 0 <= y < shown.len() && ts[i1] == shown[x] && ts[i2] == shown[y]
                    && goes_before(tkeys, x, y);
            lemma_stable_sort_ordered(all, ckeys, cs, j2, j1);
            let (x2, y2) = choose|x2: int, y2: int|
                0 <= x2 < all.len() && 0 <= y2 < all.len() && cs[j2] == all[x2] && cs[j1] == all[y2]
                    && goes_before(ckeys, x2, y2);
            assert(tkeys[x] == ckeys[y2]);
            assert(tkeys[y] == ckeys[x2]);
            lemma_key_lt_total(tkeys[x], tkeys[y]);
            lemma_shown_in_order(reg, live, prefs, reg.areas@, x, y);
            let (p, q) = choose|p: int, q: int|
                #![trigger all[p], all[q]]
                0 <= p < q < reg.areas@.len() && all[p] == shown[x] && all[q] == shown[y];
            assert(p == y2);
            assert(q == x2);
        }
    }
}

/// The items whose flag is set, in their order.
pub open spec fn picked(items: Seq<Seq<char>>, flags: Seq<bool>) -> Seq<Seq<char>>
    decreases items.len(),
{
    if items.len() == 0 {
        Seq::empty()
    } else {
        let rest = picked(items.drop_last(), flags.drop_last());
        if flags[items.len() - 1] {
            rest.push(items.last())
        } else {
            rest
        }
    }
}

/// The ids of the room tabs: every tab's id but the unassigned tab's, in order.
pub open spec fn room_tab_ids(tabs: Seq<Tab>) -> Seq<Seq<char>> {
    picked(tab_ids(tabs), room_flags(tabs))
}

/// The ids of the tabs.
pub open spec fn tab_ids(tabs: Seq<Tab>) -> Seq<Seq<char>> {
    Seq::new(tabs.len(), |i: int| tabs[i].id@)
}

/// For each tab, whether it is a room's tab rather than the unassigned one.
pub open spec fn room_flags(tabs: Seq<Tab>) -> Seq<bool> {
    Seq::new(tabs.len(), |i: int| tabs[i].id@ != "unassigned"@)
}

/// Whether the picker shows a room as one that gets a tab: not hidden, and
/// not empty where empty rooms are hidden.
pub open spec fn choice_shown(prefs: AreaPrefs, c: AreaChoice) -> bool {
    !c.hidden && (!prefs.hide_empty_areas || c.entity_count > 0)
}

/// The tab ids of the rooms the picker shows as getting a tab, in the picker's order.
pub open spec fn shown_room_ids(prefs: AreaPrefs, choices: Seq<AreaChoice>) -> Seq<Seq<char>> {
    picked(choice_tab_ids(choices), shown_flags(prefs, choices))
}

/// The tab id each choice's room would have.
pub open spec fn choice_tab_ids(choices: Seq<AreaChoice>) -> Seq<Seq<char>> {
    Seq::new(choices.len(), |j: int| "area:"@ + choices[j].area_id@)
}

/// For each choice, whether the picker shows its room as getting a tab.
pub open spec fn shown_flags(prefs: AreaPrefs, choices: Seq<AreaChoice>) -> Seq<bool> {
    Seq::new(choices.len(), |j: int| choice_shown(prefs, choices[j]))
}

proof fn lemma_picked_from(items: Seq<Seq<char>>, flags: Seq<bool>, k: int)
    requires
        items.len() == flags.len(),
        0 <= k < picked(items, flags).len(),
    ensures
        exists|j: int| 0 <= j < items.len() && flags[j] && #[trigger] items[j] == picked(items, flags)[k],
    decreases items.len(),
{
    let n = items.len() - 1;
    let rest = picked(items.drop_last(), flags.drop_last());
    if flags[n] && k == rest.len() {
        assert(items[n] == picked(items, flags)[k]);
    } else {
        assert(picked(items, flags)[k] == rest[k]);
        lemma_picked_from(items.drop_last(), flags.drop_last(), k);
        let j = choose|j: int|
            0 <= j < items.drop_last().len() && flags.drop_last()[j] && #[trigger] items.drop_last()[j] == rest[k];
        assert(items[j] == items.drop_last()[j]);
    }
}

proof fn lemma_picked_keeps(items: Seq<Seq<char>>, flags: Seq<bool>, j: int)
    requires
        items.len() == flags.len(),
        0 <= j < items.len(),
        flags[j],
    ensures
        picked(items, flags).contains(items[j]),
    decreases items.len(),
{
    let n = items.len() - 1;
    let rest = picked(items.drop_last(), flags.drop_last());
    if j == n {
        assert(picked(items, flags)[rest.len() as int] == items[j]);
    } else {
        assert(items.drop_last()[j] == items[j]);
        lemma_picked_keeps(items.drop_last(), flags.drop_last(), j);
        let k = choose|k: int| 0 <= k < rest.len() && rest[k] == items[j];
        assert(picked(items, flags)[k] == rest[k]);
    }
}

proof fn lemma_picked_order(items: Seq<Seq<char>>, flags: Seq<bool>, k1: int, k2: int)
    requires
        items.len() == flags.len(),
        0 <= k1 < k2 < picked(items, flags).len(),
    ensures
        exists|j1: int, j2: int|
            #![trigger items[j1], items[j2]]
            0 <= j1 < j2 < items.len() && flags[j1] && flags[j2] && items[j1] == picked(items, flags)[k1]
                && items[j2] == picked(items, flags)[k2],
    decreases items.len(),
{
    let n = items.len() - 1;
    let r = picked(items, flags);
    let rest = picked(items.drop_last(), flags.drop_last());
    if flags[n] && k2 == rest.len() {
        assert(r[k1] == rest[k1]);
        lemma_picked_from(items.drop_last(), flags.drop_last(), k1);
        let j = choose|j: int|
            0 <= j < items.drop_last().len() && flags.drop_last()[j] && #[trigger] items.drop_last()[j] == rest[k1];
        assert(items[j] == items.drop_last()[j]);
        assert(items[n] == r[k2]);
    } else {
        assert(r[k1] == rest[k1] && r[k2] == rest[k2]);
        lemma_picked_order(items.drop_last(), flags.drop_last(), k1, k2);
        let (j1, j2) = choose|j1: int, j2: int|
            #![trigger items.drop_last()[j1], items.drop_last()[j2]]
            0 <= j1 < j2 < items.drop_last().len() && flags.drop_last()[j1] && flags.drop_last()[j2]
                && items.drop_last()[j1] == rest[k1] && items.drop_last()[j2] == rest[k2];
        assert(items[j1] == items.drop_last()[j1]);
        assert(items[j2] == items.drop_last()[j2]);
    }
}

/// Two sequences without repeats that hold the same items, and agree on the
/// order of every two of them, are equal.
proof fn lemma_same_items_same_order(a: Seq<Seq<char>>, b: Seq<Seq<char>>)
    requires
        a.no_duplicates(),
        b.no_duplicates(),
        forall|x: Seq<char>| a.contains(x) <==> b.contains(x),
        forall|i1: int, i2: int, j1: int, j2: int|
            #![trigger a[i1], a[i2], b[j1], b[j2]]
            0 <= i1 < i2 < a.len() && 0 <= j1 < b.len() && 0 <= j2 < b.len() && a[i1] == b[j1] && a[i2] == b[j2]
                ==> j1 < j2,
    ensures
        a == b,
    decreases a.len(),
{
    if a.len() == 0 {
        if b.len() > 0 {
            assert(b.contains(b[0]));
        }
        assert(a =~= b);
    } else {
        let x = a.last();
        let al = a.len() - 1;
        assert(a.contains(a[al]));
        let j = choose|j: int| 0 <= j < b.len() && b[j] == x;
        let bl = b.len() - 1;
        if j != bl {
            assert(b.contains(b[bl]));
            let i = choose|i: int| 0 <= i < a.len() && a[i] == b[bl];
            assert(b[bl] != b[j]);
            assert(i != al);
            assert(a[i] == b[bl] && a[al] == b[j]);
            assert(false);
        }
        let a2 = a.drop_last();
        let b2 = b.drop_last();
        assert forall|z: Seq<char>| a2.contains(z) <==> b2.contains(z) by {
            if a2.contains(z) {
                let k = choose|k: int| 0 <= k < a2.len() && a2[k] == z;
                assert(a[k] == z && k != al);
                assert(a.contains(z));
                let m = choose|m: int| 0 <= m < b.len() && b[m] == z;
                assert(m != bl);
                assert(b2[m] == z);
            }
            if b2.contains(z) {
                let k = choose|k: int| 0 <= k < b2.len() && b2[k] == z;
                assert(b[k] == z && k != bl);
                assert(b.contains(z));
                let m = choose|m: int| 0 <= m < a.len() && a[m] == z;
                assert(m != al);
                assert(a2[m] == z);
            }
        }
        assert forall|i1: int, i2: int, j1: int, j2: int|
            #![trigger a2[i1], a2[i2], b2[j1], b2[j2]]
            0 <= i1 < i2 < a2.len() && 0 <= j1 < b2.len() && 0 <= j2 < b2.len() && a2[i1] == b2[j1] && a2[i2]
                == b2[j2] implies j1 < j2 by {
            assert(a[i1] == a2[i1] && a[i2] == a2[i2] && b[j1] == b2[j1] && b[j2] == b2[j2]);
        }
        lemma_same_items_same_order(a2, b2);
        assert(a =~= a2.push(x));
        assert(b =~= b2.push(x));
    }
}

#[verifier::opaque]
spec fn choice_ids_differ(choices: Seq<AreaChoice>) -> bool {
    forall|j1: int, j2: int|
        0 <= j1 < j2 < choices.len() ==> #[trigger] choices[j1].area_id@ != #[trigger] choices[j2].area_id@
}

#[verifier::opaque]
spec fn room_tabs_are_shown(prefs: AreaPrefs, tabs: Seq<Tab>, choices: Seq<AreaChoice>) -> bool {
    forall|i: int|
        #![trigger tabs[i]]
        0 <= i < tabs.len() && tabs[i].id@ != "unassigned"@ ==> exists|j: int|
            #![trigger choices[j]]
            0 <= j < choices.len() && !choices[j].hidden && (!prefs.hide_empty_areas
                || choices[j].entity_count > 0) && tabs[i].id@ == "area:"@ + choices[j].area_id@
}

#[verifier::opaque]
spec fn shown_rooms_have_tabs(prefs: AreaPrefs, tabs: Seq<Tab>, choices: Seq<AreaChoice>) -> bool {
    forall|j: int|
        #![trigger choices[j]]
        0 <= j < choices.len() && !choices[j].hidden && (!prefs.hide_empty_areas
            || choices[j].entity_count > 0) ==> exists|i: int|
            #![trigger tabs[i]]
            0 <= i < tabs.len() && tabs[i].id@ == "area:"@ + choices[j].area_id@
}

#[verifier::opaque]
spec fn tabs_keep_choice_order(tabs: Seq<Tab>, choices: Seq<AreaChoice>) -> bool {
    forall|i1: int, i2: int, j1: int, j2: int|
        #![trigger tabs[i1], tabs[i2], choices[j1], choices[j2]]
        0 <= i1 < i2 < tabs.len() && 0 <= j1 < choices.len() && 0 <= j2 < choices.len()
            && tabs[i1].id@ == "area:"@ + choices[j1].area_id@
            && tabs[i2].id@ == "area:"@ + choices[j2].area_id@ ==> j1 < j2
}

proof fn lemma_room_tab_ids_differ(prefs: AreaPrefs, tabs: Seq<Tab>, choices: Seq<AreaChoice>)
    requires
        room_tabs_are_shown(prefs, tabs, choices),
        tabs_keep_choice_order(tabs, choices),
    ensures
        room_tab_ids(tabs).no_duplicates(),
{
    reveal(room_tabs_are_shown);
    reveal(tabs_keep_choice_order);
    let a = room_tab_ids(tabs);
    let ti = tab_ids(tabs);
    let tf = room_flags(tabs);
    assert forall|k1: int, k2: int| 0 <= k1 < a.len() && 0 <= k2 < a.len() && k1 != k2 implies a[k1] != a[k2] by {
        let (l1, l2) = if k1 < k2 { (k1, k2) } else { (k2, k1) };
        lemma_picked_order(ti, tf, l1, l2);
        let (t1, t2) = choose|t1: int, t2: int|
            #![trigger ti[t1], ti[t2]]
            0 <= t1 < t2 < ti.len() && tf[t1] && tf[t2] && ti[t1] == a[l1] && ti[t2] == a[l2];
        if a[l1] == a[l2] {
            assert(tabs[t1].id@ != "unassigned"@);
            let c = choose|c: int|
                #![trigger choices[c]]
                0 <= c < choices.len() && !choices[c].hidden && (!prefs.hide_empty_areas || choices[c].entity_count > 0)
                    && tabs[t1].id@ == "area:"@ + choices[c].area_id@;
            assert(tabs[t2].id@ == "area:"@ + choices[c].area_id@);
            assert(false);
        }
    }
}

proof fn lemma_shown_room_ids_differ(prefs: AreaPrefs, choices: Seq<AreaChoice>)
    requires
        choice_ids_differ(choices),
    ensures
        shown_room_ids(prefs, choices).no_duplicates(),
{
    reveal(choice_ids_differ);
    let b = shown_room_ids(prefs, choices);
    let ci = choice_tab_ids(choices);
    let cf = shown_flags(prefs, choices);
    assert forall|k1: int, k2: int| 0 <= k1 < b.len() && 0 <= k2 < b.len() && k1 != k2 implies b[k1] != b[k2] by {
        let (l1, l2) = if k1 < k2 { (k1, k2) } else { (k2, k1) };
        lemma_picked_order(ci, cf, l1, l2);
        let (c1, c2) = choose|c1: int, c2: int|
            #![trigger ci[c1], ci[c2]]
            0 <= c1 < c2 < ci.len() && cf[c1] && cf[c2] && ci[c1] == b[l1] && ci[c2] == b[l2];
        if b[l1] == b[l2] {
            lemma_area_prefix(choices[c1].area_id@, choices[c2].area_id@);
            assert(choices[c1].area_id@ != choices[c2].area_id@);
        }
    }
}

proof fn lemma_room_ids_same_items(prefs: AreaPrefs, tabs: Seq<Tab>, choices: Seq<AreaChoice>, x: Seq<char>)
    requires
        room_tabs_are_shown(prefs, tabs, choices),
        shown_rooms_have_tabs(prefs, tabs, choices),
    ensures
        room_tab_ids(tabs).contains(x) <==> shown_room_ids(prefs, choices).contains(x),
{
    reveal(room_tabs_are_shown);
    reveal(shown_rooms_have_tabs);
    let a = room_tab_ids(tabs);
    let b = shown_room_ids(prefs, choices);
    let ti = tab_ids(tabs);
    let tf = room_flags(tabs);
    let ci = choice_tab_ids(choices);
    let cf = shown_flags(prefs, choices);
    if a.contains(x) {
        let k = choose|k: int| 0 <= k < a.len() && a[k] == x;
        lemma_picked_from(ti, tf, k);
        let t = choose|t: int| 0 <= t < ti.len() && tf[t] && #[trigger] ti[t] == a[k];
        assert(tabs[t].id@ != "unassigned"@);
        let c = choose|c: int|
            #![trigger choices[c]]
            0 <= c < choices.len() && !choices[c].hidden && (!prefs.hide_empty_areas || choices[c].entity_count > 0)
                && tabs[t].id@ == "area:"@ + choices[c].area_id@;
        assert(ci[c] == x && cf[c]);
        lemma_picked_keeps(ci, cf, c);
    }
    if b.contains(x) {
        let k = choose|k: int| 0 <= k < b.len() && b[k] == x;
        lemma_picked_from(ci, cf, k);
        let c = choose|c: int| 0 <= c < ci.len() && cf[c] && #[trigger] ci[c] == b[k];
        assert(choices[c] == choices[c]);
        let t = choose|t: int|
            #![trigger tabs[t]]
            0 <= t < tabs.len() && tabs[t].id@ == "area:"@ + choices[c].area_id@;
        lemma_unassigned_is_not_an_area(choices[c].area_id@);
        assert(ti[t] == x && tf[t]);
        lemma_picked_keeps(ti, tf, t);
    }
}

proof fn lemma_room_ids_same_order(
    prefs: AreaPrefs,
    tabs: Seq<Tab>,
    choices: Seq<AreaChoice>,
    i1: int,
    i2: int,
    j1: int,
    j2: int,
)
    requires
        tabs_keep_choice_order(tabs, choices),
        room_tab_ids(tabs).no_duplicates(),
        0 <= i1 < i2 < room_tab_ids(tabs).len(),
        0 <= j1 < shown_room_ids(prefs, choices).len(),
        0 <= j2 < shown_room_ids(prefs, choices).len(),
        room_tab_ids(tabs)[i1] == shown_room_ids(prefs, choices)[j1],
        room_tab_ids(tabs)[i2] == shown_room_ids(prefs, choices)[j2],
    ensures
        j1 < j2,
{
    reveal(tabs_keep_choice_order);
    let a = room_tab_ids(tabs);
    let b = shown_room_ids(prefs, choices);
    let ti = tab_ids(tabs);
    let tf = room_flags(tabs);
    let ci = choice_tab_ids(choices);
    let cf = shown_flags(prefs, choices);
    if j2 < j1 {
        lemma_picked_order(ci, cf, j2, j1);
        let (c2, c1) = choose|c2: int, c1: int|
            #![trigger ci[c2], ci[c1]]
            0 <= c2 < c1 < ci.len() && cf[c2] && cf[c1] && ci[c2] == b[j2] && ci[c1] == b[j1];
        lemma_picked_order(ti, tf, i1, i2);
        let (t1, t2) = choose|t1: int, t2: int|
            #![trigger ti[t1], ti[t2]]
            0 <= t1 < t2 < ti.len() && tf[t1] && tf[t2] && ti[t1] == a[i1] && ti[t2] == a[i2];
        assert(tabs[t1].id@ == "area:"@ + choices[c1].area_id@);
        assert(tabs[t2].id@ == "area:"@ + choices[c2].area_id@);
    }
}

proof fn lemma_tab_ids_follow_the_shown_choices(prefs: AreaPrefs, tabs: Seq<Tab>, choices: Seq<AreaChoice>)
    requires
        choice_ids_differ(choices),
        room_tabs_are_shown(prefs, tabs, choices),
        shown_rooms_have_tabs(prefs, tabs, choices),
        tabs_keep_choice_order(tabs, choices),
    ensures
        room_tab_ids(tabs) == shown_room_ids(prefs, choices),
{
    let a = room_tab_ids(tabs);
    let b = shown_room_ids(prefs, choices);
    lemma_room_tab_ids_differ(prefs, tabs, choices);
    lemma_shown_room_ids_differ(prefs, choices);
    assert forall|x: Seq<char>| a.contains(x) <==> b.contains(x) by {
        lemma_room_ids_same_items(prefs, tabs, choices, x);
    }
    assert forall|i1: int, i2: int, j1: int, j2: int|
        #![trigger a[i1], a[i2], b[j1], b[j2]]
        0 <= i1 < i2 < a.len() && 0 <= j1 < b.len() && 0 <= j2 < b.len() && a[i1] == b[j1] && a[i2] == b[j2]
            implies j1 < j2 by {
        lemma_room_ids_same_order(prefs, tabs, choices, i1, i2, j1, j2);
    }
    lemma_same_items_same_order(a, b);
}

/// Where no two areas share an id, the picker lists the registry's areas, each
/// once, and the room tabs are, in order, `area:` and the id of each room the
/// picker shows as neither hidden nor (where empty rooms are hidden) empty.
pub proof fn law_room_tabs_are_the_pickers_shown_rooms_in_order<F: Fn(&str) -> String>(
    reg: Registry,
    live: Seq<Seq<char>>,
    prefs: AreaPrefs,
    f: F,
    glyphs: Glyphs,
    tabs: Seq<Tab>,
    choices: Seq<AreaChoice>,
)
    requires
        area_ids(reg.areas@).no_duplicates(),
        tabs_projected(reg, live, prefs, f, glyphs, tabs),
        choices_listed(reg, live, prefs, glyphs, choices),
    ensures
        choices.len() == reg.areas@.len(),
        forall|j: int| 0 <= j < choices.len() ==> area_ids(reg.areas@).contains(#[trigger] choices[j].area_id@),
        forall|j1: int, j2: int|
            0 <= j1 < j2 < choices.len() ==> #[trigger] choices[j1].area_id@ != #[trigger] choices[j2].area_id@,
        room_tab_ids(tabs) == shown_room_ids(prefs, choices),
{
    let all = area_ids(reg.areas@);
    let ckeys = area_keys(reg, prefs, all);
    let cs = choose|sorted: Seq<Seq<char>>|
        {
            &&& is_stable_sort(all, ckeys, sorted)
            &&& choices.len() == sorted.len()
            &&& forall|i: int| 0 <= i < sorted.len() ==> is_area_choice(reg, live, prefs, glyphs, sorted[i], #[trigger] choices[i])
        };
    lemma_stable_sort_len(all, ckeys, cs);
    lemma_stable_sort_no_duplicates(all, ckeys, cs);
    assert forall|j: int| 0 <= j < choices.len() implies all.contains(#[trigger] choices[j].area_id@) by {
        assert(is_area_choice(reg, live, prefs, glyphs, cs[j], choices[j]));
        lemma_stable_sort_from(all, ckeys, cs, j);
        let m = choose|m: int| 0 <= m < all.len() && cs[j] == #[trigger] all[m];
    }
    assert forall|j1: int, j2: int|
        0 <= j1 < j2 < choices.len() implies #[trigger] choices[j1].area_id@ != #[trigger] choices[j2].area_id@ by {
        assert(is_area_choice(reg, live, prefs, glyphs, cs[j1], choices[j1]));
        assert(is_area_choice(reg, live, prefs, glyphs, cs[j2], choices[j2]));
    }
    assert(choice_ids_differ(choices)) by {
        reveal(choice_ids_differ);
    }
    assert(room_tabs_are_shown(prefs, tabs, choices)) by {
        reveal(room_tabs_are_shown);
        law_room_tabs_are_the_pickers_shown_rooms(reg, live, prefs, f, glyphs, tabs, choices);
    }
    assert(shown_rooms_have_tabs(prefs, tabs, choices)) by {
        reveal(shown_rooms_have_tabs);
        law_room_tabs_are_the_pickers_shown_rooms(reg, live, prefs, f, glyphs, tabs, choices);
    }
    assert(tabs_keep_choice_order(tabs, choices)) by {
        reveal(tabs_keep_choice_order);
        law_room_tabs_follow_the_pickers_order(reg, live, prefs, f, glyphs, tabs, choices);
    }
    lemma_tab_ids_follow_the_shown_choices(prefs, tabs, choices);
}

/// An entity's own area decides its room, whatever its device's area: only
/// an entity whose registry entry names no non-empty area of its own takes
/// its device's area, and one with neither belongs to no area.
pub proof fn law_an_entitys_own_area_comes_before_its_devices(reg: Registry, id: Seq<char>, e: EntityEntry)
    requires
        entry_of(reg.entities@, id) == Some(e),
        is_visible_spec(id, Some(e)),
    ensures
        e.area_id is Some && e.area_id->0@.len() > 0 ==> placement(reg, id) == Some(Some(e.area_id->0@)),
        !(e.area_id is Some && e.area_id->0@.len() > 0) ==> placement(reg, id) == Some(
            match e.device_id {
                Some(d) => device_area_of(reg.devices@, d@),
                None => None,
            },
        ),
{
}

/// A shown live entity whose registry entry names a non-empty area of its
/// own is listed in that area's tab, where the area is a registry area that
/// is not hidden, whatever its device's area.
pub proof fn law_an_entity_is_listed_under_its_own_area<F: Fn(&str) -> String>(
    reg: Registry,
    live: Seq<Seq<char>>,
    prefs: AreaPrefs,
    f: F,
    glyphs: Glyphs,
    tabs: Seq<Tab>,
    id: Seq<char>,
    e: EntityEntry,
)
    requires
        tabs_projected(reg, live, prefs, f, glyphs, tabs),
        live.contains(id),
        entry_of(reg.entities@, id) == Some(e),
        is_visible_spec(id, Some(e)),
        e.area_id is Some,
        e.area_id->0@.len() > 0,
        area_ids(reg.areas@).contains(e.area_id->0@),
        !is_hidden_area(prefs, e.area_id->0@),
    ensures
        exists|i: int, k: int|
            0 <= i < tabs.len() && 0 <= k < tabs[i].entity_ids@.len() && #[trigger] tabs[i].entity_ids@[k]@ == id
                && tabs[i].id@ == "area:"@ + e.area_id->0@,
{
    law_an_entitys_own_area_comes_before_its_devices(reg, id, e);
    law_visible_entities_are_placed(reg, live, prefs, f, glyphs, tabs, id);
}

} // verus!
