use vstd::prelude::*;

use std::collections::VecDeque;

use crate::chars::{chars_of, opt_str_view, opt_string_view, seq_lt, str_eq};
use crate::config::Config;
use crate::filter::{is_visible, is_visible_spec};
use crate::icons::{glyph_lookup, Glyphs};
use crate::json::{as_str_opt, get_opt, json_get, Json, JsonView};
use crate::model::{is_row_of, row, Row};
use crate::protocol::Event;
use crate::registry::{choices_listed, entry_of, strings_view, tabs_projected, take_in_order, AreaChoice, Registry, Tab};
use crate::text::{valid_entity_id, valid_entity_id_spec};
use crate::sort::{
    goes_before, indices_view, is_sorted_order, is_stable_sort, keys_view, lemma_stable_sort_from,
    lemma_stable_sort_keeps, lemma_stable_sort_len, lemma_stable_sort_ordered, permuted, sort_order,
};

verus! {

broadcast use vstd::std_specs::vec::group_vec_axioms;

/// The first wait before reconnecting, in seconds.
pub const BACKOFF_START_SECS: u64 = 1;

/// The longest wait before reconnecting, in seconds.
pub const BACKOFF_MAX_SECS: u64 = 60;

/// After this many seconds without a frame the daemon pings: Home Assistant
/// sends nothing while the house is quiet.
pub const IDLE_PING_SECS: u64 = 30;

/// After this many seconds without any frame the socket is taken to be
/// half-open.
pub const IDLE_LIMIT_SECS: u64 = 90;

/// Registry changes within this many seconds of connecting do not trigger a
/// reload, so an integration reload cannot loop.
pub const REGISTRY_REFRESH_FLOOR_SECS: u64 = 10;

/// How many log entries are kept for a panel opened later.
pub const HISTORY: usize = 200;

/// The wait after another failed attempt: doubled, at most the maximum.
pub fn next_backoff(secs: u64) -> (r: u64)
    requires
        secs <= BACKOFF_MAX_SECS,
    ensures
        r == if 2 * secs <= BACKOFF_MAX_SECS { 2 * secs } else { BACKOFF_MAX_SECS as int },
        BACKOFF_START_SECS <= secs ==> BACKOFF_START_SECS <= r <= BACKOFF_MAX_SECS,
{
    if 2 * secs <= BACKOFF_MAX_SECS {
        2 * secs
    } else {
        BACKOFF_MAX_SECS
    }
}

/// The most recent log entries, oldest first, never more than `HISTORY`.
pub struct History {
    events: VecDeque<Event>,
}

impl History {
    #[verifier::type_invariant]
    spec fn bounded(self) -> bool {
        self.events@.len() <= HISTORY
    }

    /// The entries kept, oldest first.
    pub closed spec fn view(self) -> Seq<Event> {
        self.events@
    }

    pub fn new() -> (r: History)
        ensures
            r.view().len() == 0,
    {
        History { events: VecDeque::new() }
    }

    /// Keeps an entry, dropping the oldest where `HISTORY` are kept already.
    pub fn record(&mut self, event: Event)
        ensures
            old(self).view().len() < HISTORY ==> final(self).view() == old(self).view().push(event),
            old(self).view().len() >= HISTORY ==> final(self).view() == old(self).view().drop_first().push(event),
            final(self).view().len() <= HISTORY,
    {
        proof {
            use_type_invariant(&*self);
        }
        let mut events = VecDeque::new();
        std::mem::swap(&mut events, &mut self.events);
        if events.len() == HISTORY {
            let _ = events.pop_front();
        }
        events.push_back(event);
        self.events = events;
    }

    /// The entries kept, oldest first.
    pub fn events(&self) -> (r: &VecDeque<Event>)
        ensures
            r@ == self.view(),
            r@.len() <= HISTORY,
    {
        proof {
            use_type_invariant(self);
        }
        &self.events
    }
}

/// The latest known state of each live entity, by entity id.
pub struct States {
    entries: Vec<(String, Json)>,
}

/// Whether no entity id occurs twice.
pub open spec fn ids_distinct(s: Seq<(String, Json)>) -> bool {
    forall|i: int, j: int| 0 <= i < j < s.len() ==> (#[trigger] s[i]).0@ != (#[trigger] s[j]).0@
}

/// The states of a list of entries, by entity id.
pub open spec fn table(s: Seq<(String, Json)>) -> Map<Seq<char>, JsonView>
    decreases s.len(),
{
    if s.len() == 0 {
        Map::empty()
    } else {
        table(s.drop_last()).insert(s.last().0@, s.last().1@)
    }
}

proof fn lemma_table_dom(s: Seq<(String, Json)>, k: Seq<char>)
    ensures
        table(s).dom().contains(k) <==> exists|i: int| 0 <= i < s.len() && (#[trigger] s[i]).0@ == k,
    decreases s.len(),
{
    if s.len() > 0 {
        lemma_table_dom(s.drop_last(), k);
        if table(s.drop_last()).dom().contains(k) {
            let i = choose|i: int| 0 <= i < s.drop_last().len() && (#[trigger] s.drop_last()[i]).0@ == k;
            assert(s[i] == s.drop_last()[i]);
        }
        if exists|i: int| 0 <= i < s.len() && (#[trigger] s[i]).0@ == k {
            let i = choose|i: int| 0 <= i < s.len() && (#[trigger] s[i]).0@ == k;
            if i < s.len() - 1 {
                assert(s.drop_last()[i] == s[i]);
            }
        }
    }
}

proof fn lemma_table_at(s: Seq<(String, Json)>, i: int)
    requires
        ids_distinct(s),
        0 <= i < s.len(),
    ensures
        table(s).dom().contains(s[i].0@),
        table(s)[s[i].0@] == s[i].1@,
    decreases s.len(),
{
    if i < s.len() - 1 {
        assert(s.drop_last()[i] == s[i]);
        assert(ids_distinct(s.drop_last())) by {
            assert forall|a: int, b: int| 0 <= a < b < s.drop_last().len() implies (#[trigger] s.drop_last()[a]).0@
                != (#[trigger] s.drop_last()[b]).0@ by {
                assert(s.drop_last()[a] == s[a]);
                assert(s.drop_last()[b] == s[b]);
            }
        }
        lemma_table_at(s.drop_last(), i);
        assert(s[i].0@ != s.last().0@);
    }
}

proof fn lemma_table_equal(a: Seq<(String, Json)>, b: Seq<(String, Json)>, m: Map<Seq<char>, JsonView>)
    requires
        ids_distinct(a),
        forall|k: Seq<char>| m.dom().contains(k) <==> exists|i: int| 0 <= i < a.len() && (#[trigger] a[i]).0@ == k,
        forall|i: int| 0 <= i < a.len() ==> m[(#[trigger] a[i]).0@] == a[i].1@,
        b == a,
    ensures
        table(b) == m,
{
    assert forall|k: Seq<char>| #[trigger] table(a).dom().contains(k) <==> m.dom().contains(k) by {
        lemma_table_dom(a, k);
    }
    assert forall|k: Seq<char>| #[trigger] table(a).dom().contains(k) implies table(a)[k] == m[k] by {
        lemma_table_dom(a, k);
        let i = choose|i: int| 0 <= i < a.len() && (#[trigger] a[i]).0@ == k;
        lemma_table_at(a, i);
    }
    assert(table(a) =~= m);
}

/// Where `id` stands among the entries, if it does.
fn find_id(entries: &Vec<(String, Json)>, id: &str) -> (r: Option<usize>)
    ensures
        match r {
            Some(i) => i < entries@.len() && entries@[i as int].0@ == id@,
            None => forall|i: int| 0 <= i < entries@.len() ==> (#[trigger] entries@[i]).0@ != id@,
        },
{
    let mut i: usize = 0;
    while i < entries.len()
        invariant
            i <= entries@.len(),
            forall|j: int| 0 <= j < i ==> (#[trigger] entries@[j]).0@ != id@,
        decreases entries@.len() - i,
    {
        if str_eq(entries[i].0.as_str(), id) {
            return Some(i);
        }
        i = i + 1;
    }
    None
}

impl States {
    #[verifier::type_invariant]
    spec fn distinct(self) -> bool {
        ids_distinct(self.entries@)
    }

    /// The state of each entity, by entity id.
    pub closed spec fn view(self) -> Map<Seq<char>, JsonView> {
        table(self.entries@)
    }

    pub fn new() -> (r: States)
        ensures
            r.view() == Map::<Seq<char>, JsonView>::empty(),
    {
        States { entries: Vec::new() }
    }

    /// The state of `id`, if it is live.
    pub fn get(&self, id: &str) -> (r: Option<&Json>)
        ensures
            match r {
                Some(v) => self.view().dom().contains(id@) && self.view()[id@] == v@,
                None => !self.view().dom().contains(id@),
            },
    {
        proof {
            use_type_invariant(self);
            lemma_table_dom(self.entries@, id@);
        }
        match find_id(&self.entries, id) {
            Some(i) => {
                proof {
                    lemma_table_at(self.entries@, i as int);
                }
                Some(&self.entries[i].1)
            },
            None => None,
        }
    }

    /// Whether `id` is live.
    pub fn contains(&self, id: &str) -> (r: bool)
        ensures
            r == self.view().dom().contains(id@),
    {
        self.get(id).is_some()
    }

    /// How many entities are live.
    pub fn len(&self) -> (r: usize)
        ensures
            r == self.view().dom().len(),
    {
        proof {
            use_type_invariant(self);
            lemma_table_len(self.entries@);
        }
        self.entries.len()
    }

    /// Records the state of `id`, telling whether it was not live before.
    pub fn insert(&mut self, id: String, state: Json) -> (was_new: bool)
        ensures
            final(self).view() == old(self).view().insert(id@, state@),
            was_new == !old(self).view().dom().contains(id@),
    {
        proof {
            use_type_invariant(&*self);
            lemma_table_dom(self.entries@, id@);
        }
        let ghost before = self.entries@;
        let ghost m = table(before).insert(id@, state@);
        let mut entries = Vec::new();
        std::mem::swap(&mut entries, &mut self.entries);
        let found = find_id(&entries, id.as_str());
        match found {
            Some(i) => {
                let ghost replaced = (id, state);
                entries.set(i, (id, state));
                proof {
                    let after = entries@;
                    assert(after == before.update(i as int, replaced));
                    assert forall|a: int, b: int| 0 <= a < b < after.len() implies (#[trigger] after[a]).0@
                        != (#[trigger] after[b]).0@ by {
                        if a != i as int && b != i as int {
                            assert(after[a] == before[a] && after[b] == before[b]);
                        }
                    }
                    assert forall|k: Seq<char>| m.dom().contains(k) <==> exists|j: int|
                        0 <= j < after.len() && (#[trigger] after[j]).0@ == k by {
                        lemma_table_dom(before, k);
                        if k != id@ && m.dom().contains(k) {
                            let j = choose|j: int| 0 <= j < before.len() && (#[trigger] before[j]).0@ == k;
                            assert(after[j] == before[j]);
                        }
                        if exists|j: int| 0 <= j < after.len() && (#[trigger] after[j]).0@ == k {
                            let j = choose|j: int| 0 <= j < after.len() && (#[trigger] after[j]).0@ == k;
                            if j != i as int {
                                assert(after[j] == before[j]);
                            }
                        } else {
                            assert(after[i as int].0@ == id@);
                        }
                    }
                    assert forall|j: int| 0 <= j < after.len() implies m[(#[trigger] after[j]).0@] == after[j].1@ by {
                        if j != i as int {
                            assert(after[j] == before[j]);
                            lemma_table_at(before, j);
                        }
                    }
                    lemma_table_equal(after, after, m);
                }
                self.entries = entries;
                false
            },
            None => {
                entries.push((id, state));
                proof {
                    let after = entries@;
                    assert(after.drop_last() =~= before);
                    assert forall|a: int, b: int| 0 <= a < b < after.len() implies (#[trigger] after[a]).0@
                        != (#[trigger] after[b]).0@ by {
                        if b < after.len() - 1 {
                            assert(after[a] == before[a] && after[b] == before[b]);
                        } else {
                            assert(after[a] == before[a]);
                        }
                    }
                }
                self.entries = entries;
                true
            },
        }
    }

    /// The live entity ids, in ascending order.
    pub fn ids(&self) -> (r: Vec<String>)
        ensures
            forall|k: Seq<char>| self.view().dom().contains(k) <==> strings_view(r@).contains(k),
            forall|i: int, j: int| 0 <= i < j < r@.len() ==> seq_lt(r@[i]@, r@[j]@),
            r@.len() == self.view().dom().len(),
    {
        proof {
            use_type_invariant(self);
            lemma_table_len(self.entries@);
        }
        let ghost es = self.entries@;
        let mut ids: Vec<String> = Vec::new();
        let mut keys: Vec<(usize, Vec<char>)> = Vec::new();
        let mut i: usize = 0;
        while i < self.entries.len()
            invariant
                es == self.entries@,
                i <= es.len(),
                ids@.len() == i,
                keys@.len() == i,
                forall|j: int| 0 <= j < i ==> (#[trigger] ids@[j])@ == es[j].0@,
                forall|j: int| 0 <= j < i ==> (#[trigger] keys_view(keys@)[j]) == (0int, es[j].0@),
            decreases es.len() - i,
        {
            let ghost old_keys = keys@;
            ids.push(self.entries[i].0.clone());
            keys.push((0, chars_of(self.entries[i].0.as_str())));
            proof {
                assert forall|j: int| 0 <= j < i + 1 implies (#[trigger] keys_view(keys@)[j]) == (0int, es[j].0@) by {
                    if j < i {
                        assert(keys@[j] == old_keys[j]);
                        assert(keys_view(old_keys)[j] == (0int, es[j].0@));
                    }
                }
            }
            i = i + 1;
        }
        let p = sort_order(&keys);
        let ghost pv = indices_view(p@);
        proof {
            assert forall|j: int| 0 <= j < p@.len() implies (#[trigger] p@[j]) < ids@.len() by {
                assert(pv[j] == p@[j] as int);
            }
        }
        let r = take_in_order(&ids, &p);
        proof {
            let iv = strings_view(ids@);
            let kv = keys_view(keys@);
            let out = strings_view(r@);
            assert(is_sorted_order(kv, pv) && out == permuted(iv, pv));
            assert(is_stable_sort(iv, kv, out));
            lemma_stable_sort_len(iv, kv, out);
            assert forall|k: Seq<char>| self.view().dom().contains(k) <==> out.contains(k) by {
                lemma_table_dom(es, k);
                if self.view().dom().contains(k) {
                    let j = choose|j: int| 0 <= j < es.len() && (#[trigger] es[j]).0@ == k;
                    assert(iv[j] == k);
                    lemma_stable_sort_keeps(iv, kv, out, j);
                }
                if out.contains(k) {
                    let a = choose|a: int| 0 <= a < out.len() && out[a] == k;
                    lemma_stable_sort_from(iv, kv, out, a);
                    let j = choose|j: int| 0 <= j < iv.len() && out[a] == #[trigger] iv[j];
                    assert(es[j].0@ == k);
                }
            }
            assert forall|a: int, b: int| 0 <= a < b < r@.len() implies seq_lt(r@[a]@, r@[b]@) by {
                assert(out[a] == r@[a]@ && out[b] == r@[b]@);
                lemma_stable_sort_ordered(iv, kv, out, a, b);
                let (x, y) = choose|x: int, y: int|
                    0 <= x < iv.len() && 0 <= y < iv.len() && out[a] == iv[x] && out[b] == iv[y] && goes_before(
                        kv,
                        x,
                        y,
                    );
                assert(iv[x] == es[x].0@ && iv[y] == es[y].0@);
                if x == y {
                    crate::chars::lemma_seq_lt_irreflexive(iv[x]);
                    assert(false);
                }
                if kv[x] == kv[y] {
                    assert(es[x].0@ == es[y].0@);
                    if x < y {
                        assert(es[x].0@ != es[y].0@);
                    } else {
                        assert(es[y].0@ != es[x].0@);
                    }
                }
            }
        }
        r
    }

    /// Forgets the state of `id`, telling whether it was live.
    pub fn remove(&mut self, id: &str) -> (was_live: bool)
        ensures
            final(self).view() == old(self).view().remove(id@),
            was_live == old(self).view().dom().contains(id@),
    {
        proof {
            use_type_invariant(&*self);
            lemma_table_dom(self.entries@, id@);
        }
        let ghost before = self.entries@;
        let ghost m = table(before).remove(id@);
        let mut entries = Vec::new();
        std::mem::swap(&mut entries, &mut self.entries);
        let found = find_id(&entries, id);
        match found {
            Some(i) => {
                let _ = entries.remove(i);
                proof {
                    let after = entries@;
                    assert(after == before.remove(i as int));
                    assert forall|a: int, b: int| 0 <= a < b < after.len() implies (#[trigger] after[a]).0@
                        != (#[trigger] after[b]).0@ by {
                        let a2 = if a < i { a } else { a + 1 };
                        let b2 = if b < i { b } else { b + 1 };
                        assert(after[a] == before[a2] && after[b] == before[b2]);
                    }
                    assert forall|k: Seq<char>| m.dom().contains(k) <==> exists|j: int|
                        0 <= j < after.len() && (#[trigger] after[j]).0@ == k by {
                        lemma_table_dom(before, k);
                        if m.dom().contains(k) {
                            let j = choose|j: int| 0 <= j < before.len() && (#[trigger] before[j]).0@ == k;
                            assert(j != i as int);
                            let j2 = if j < i { j } else { j - 1 };
                            assert(after[j2] == before[j]);
                        }
                        if exists|j: int| 0 <= j < after.len() && (#[trigger] after[j]).0@ == k {
                            let j = choose|j: int| 0 <= j < after.len() && (#[trigger] after[j]).0@ == k;
                            let j2 = if j < i { j } else { j + 1 };
                            assert(after[j] == before[j2]);
                            assert(j2 != i as int);
                        }
                    }
                    assert forall|j: int| 0 <= j < after.len() implies m[(#[trigger] after[j]).0@] == after[j].1@ by {
                        let j2 = if j < i { j } else { j + 1 };
                        assert(after[j] == before[j2]);
                        lemma_table_at(before, j2);
                    }
                    lemma_table_equal(after, after, m);
                }
                self.entries = entries;
                true
            },
            None => {
                proof {
                    assert(table(before).remove(id@) =~= table(before));
                }
                self.entries = entries;
                false
            },
        }
    }
}

proof fn lemma_table_len(s: Seq<(String, Json)>)
    requires
        ids_distinct(s),
    ensures
        table(s).dom().len() == s.len(),
        table(s).dom().finite(),
    decreases s.len(),
{
    if s.len() > 0 {
        let t = s.drop_last();
        assert(ids_distinct(t)) by {
            assert forall|a: int, b: int| 0 <= a < b < t.len() implies (#[trigger] t[a]).0@ != (#[trigger] t[b]).0@ by {
                assert(t[a] == s[a] && t[b] == s[b]);
            }
        }
        lemma_table_len(t);
        lemma_table_dom(t, s.last().0@);
        if table(t).dom().contains(s.last().0@) {
            let i = choose|i: int| 0 <= i < t.len() && (#[trigger] t[i]).0@ == s.last().0@;
            assert(t[i] == s[i]);
        }
    }
}

/// The name the user gave an entity: the first override for its id.
pub open spec fn override_of(overrides: Seq<(String, String)>, id: Seq<char>) -> Option<Seq<char>>
    decreases overrides.len(),
{
    if overrides.len() == 0 {
        None
    } else if overrides[0].0@ == id {
        Some(overrides[0].1@)
    } else {
        override_of(overrides.drop_first(), id)
    }
}

/// A non-empty name the user gave an entity.
pub open spec fn given_name(overrides: Seq<(String, String)>, id: Seq<char>) -> Option<Seq<char>> {
    match override_of(overrides, id) {
        Some(n) => if n.len() > 0 {
            Some(n)
        } else {
            None
        },
        None => None,
    }
}

/// The friendly name that an entity state carries.
pub open spec fn friendly_name_of(state: JsonView) -> Option<Seq<char>> {
    as_str_opt(get_opt(json_get(state, "attributes"@), "friendly_name"@))
}

/// How an entity is named in the panel: the name the user gave it, else the
/// friendly name of its live state, else its id.
pub open spec fn display_name_spec(overrides: Seq<(String, String)>, states: Map<Seq<char>, JsonView>, id: Seq<char>) -> Seq<char> {
    match given_name(overrides, id) {
        Some(n) => n,
        None => {
            let friendly = if states.dom().contains(id) {
                friendly_name_of(states[id])
            } else {
                None
            };
            match friendly {
                Some(f) => f,
                None => id,
            }
        },
    }
}

/// The name a row takes from the registry side: the name the user gave the
/// entity, else the registry's own name for it.
pub open spec fn registry_name_spec(overrides: Seq<(String, String)>, reg: Registry, id: Seq<char>) -> Option<Seq<char>> {
    match given_name(overrides, id) {
        Some(n) => Some(n),
        None => match entry_of(reg.entities@, id) {
            Some(e) => opt_string_view(e.name),
            None => None,
        },
    }
}

/// The icon the registry gives an entity.
pub open spec fn registry_icon_spec(reg: Registry, id: Seq<char>) -> Option<Seq<char>> {
    match entry_of(reg.entities@, id) {
        Some(e) => opt_string_view(e.icon),
        None => None,
    }
}

fn override_for<'a>(overrides: &'a Vec<(String, String)>, id: &str) -> (r: Option<&'a String>)
    ensures
        match r {
            Some(n) => override_of(overrides@, id@) == Some(n@),
            None => override_of(overrides@, id@) is None,
        },
{
    let mut i: usize = 0;
    assert(overrides@.skip(0) =~= overrides@);
    while i < overrides.len()
        invariant
            i <= overrides@.len(),
            override_of(overrides@, id@) == override_of(overrides@.skip(i as int), id@),
        decreases overrides@.len() - i,
    {
        assert(overrides@.skip(i as int)[0] == overrides@[i as int]);
        if str_eq(overrides[i].0.as_str(), id) {
            return Some(&overrides[i].1);
        }
        assert(overrides@.skip(i as int).drop_first() =~= overrides@.skip(i + 1));
        i = i + 1;
    }
    None
}

fn given_name_exec<'a>(overrides: &'a Vec<(String, String)>, id: &str) -> (r: Option<&'a String>)
    ensures
        match r {
            Some(n) => given_name(overrides@, id@) == Some(n@),
            None => given_name(overrides@, id@) is None,
        },
{
    match override_for(overrides, id) {
        Some(n) => if n.as_str().is_empty() {
            None
        } else {
            Some(n)
        },
        None => None,
    }
}

/// How an entity is named in the panel; see `display_name_spec`.
pub fn display_name(config: &Config, states: &States, entity_id: &str) -> (r: String)
    ensures
        r@ == display_name_spec(config.display_name_overrides@, states.view(), entity_id@),
{
    match given_name_exec(&config.display_name_overrides, entity_id) {
        Some(n) => return n.clone(),
        None => {},
    }
    let friendly: Option<&str> = match states.get(entity_id) {
        Some(state) => match state.get("attributes") {
            Some(a) => match a.get("friendly_name") {
                Some(f) => f.as_str(),
                None => None,
            },
            None => None,
        },
        None => None,
    };
    match friendly {
        Some(f) => String::from_str(f),
        None => String::from_str(entity_id),
    }
}

/// The name a row takes from the registry side; see `registry_name_spec`.
pub fn registry_name(config: &Config, registry: &Registry, entity_id: &str) -> (r: Option<String>)
    ensures
        opt_string_view(r) == registry_name_spec(config.display_name_overrides@, *registry, entity_id@),
{
    match given_name_exec(&config.display_name_overrides, entity_id) {
        Some(n) => return Some(n.clone()),
        None => {},
    }
    match registry.entry(entity_id) {
        Some(e) => e.name.clone(),
        None => None,
    }
}

/// The icon the registry gives an entity.
pub fn registry_icon(registry: &Registry, entity_id: &str) -> (r: Option<String>)
    ensures
        opt_string_view(r) == registry_icon_spec(*registry, entity_id@),
{
    match registry.entry(entity_id) {
        Some(e) => e.icon.clone(),
        None => None,
    }
}

/// Whether an entity reaches the panel. The row stream filters as the tabs
/// do, or entities hidden in Home Assistant would become actionable.
pub fn visible(registry: &Registry, entity_id: &str) -> (r: bool)
    ensures
        r == is_visible_spec(entity_id@, entry_of(registry.entities@, entity_id@)),
{
    is_visible(entity_id, registry.entry(entity_id))
}

/// The favorites that are live and visible, in the user's order.
pub open spec fn pinned_ids(favorites: Seq<String>, states: Map<Seq<char>, JsonView>, reg: Registry) -> Seq<Seq<char>>
    decreases favorites.len(),
{
    if favorites.len() == 0 {
        seq![]
    } else {
        let rest = pinned_ids(favorites.drop_last(), states, reg);
        let id = favorites.last()@;
        if states.dom().contains(id) && is_visible_spec(id, entry_of(reg.entities@, id)) {
            rest.push(id)
        } else {
            rest
        }
    }
}

/// The tab of pinned entities, in front of the rooms: there only when the
/// user asked for it and pinned something live and visible.
pub fn pinned_tab(config: &Config, states: &States, registry: &Registry, glyphs: &Glyphs) -> (r: Option<Tab>)
    ensures
        !config.show_favorites ==> r is None,
        config.show_favorites ==> (r is None <==> pinned_ids(config.favorites@, states.view(), *registry).len() == 0),
        r matches Some(t) ==> {
            &&& t.id@ == "pinned"@
            &&& t.title@ == "Pinned"@
            &&& t.icon@ == "mdi:star"@
            &&& t.glyph@ == match glyph_lookup(glyphs.entries@, "mdi:star"@) {
                Some(g) => g,
                None => Seq::empty(),
            }
            &&& strings_view(t.entity_ids@) == pinned_ids(config.favorites@, states.view(), *registry)
        },
{
    if !config.show_favorites {
        return None;
    }
    let favorites = &config.favorites;
    let mut ids: Vec<String> = Vec::new();
    let mut i: usize = 0;
    while i < favorites.len()
        invariant
            i <= favorites@.len(),
            strings_view(ids@) == pinned_ids(favorites@.take(i as int), states.view(), *registry),
        decreases favorites@.len() - i,
    {
        proof {
            assert(favorites@.take(i + 1).drop_last() =~= favorites@.take(i as int));
            assert(favorites@.take(i + 1).last() == favorites@[i as int]);
        }
        let id = favorites[i].as_str();
        if states.contains(id) && visible(registry, id) {
            let ghost before = strings_view(ids@);
            ids.push(favorites[i].clone());
            proof {
                assert(strings_view(ids@) =~= before.push(favorites@[i as int]@));
            }
        }
        i = i + 1;
    }
    proof {
        assert(favorites@.take(favorites@.len() as int) =~= favorites@);
    }
    if ids.len() == 0 {
        return None;
    }
    let glyph = match glyphs.glyph("mdi:star") {
        Some(g) => g,
        None => String::new(),
    };
    Some(
        Tab {
            id: String::from_str("pinned"),
            title: String::from_str("Pinned"),
            icon: String::from_str("mdi:star"),
            glyph,
            entity_ids: ids,
        },
    )
}

/// `live` lists the ids of `states` once each, in ascending order.
pub open spec fn ascending_listing(live: Seq<Seq<char>>, states: Map<Seq<char>, JsonView>) -> bool {
    &&& forall|k: Seq<char>| states.dom().contains(k) <==> live.contains(k)
    &&& forall|i: int, j: int| 0 <= i < j < live.len() ==> seq_lt(live[i], live[j])
}

/// What the panel's navigation shows: the pinned tab, if there is one, in
/// front of the room tabs projected from the live entities in ascending order
/// of id, named by `display_name`; and the room picker's list.
pub fn projection<F: Fn(&str) -> String>(
    config: &Config,
    states: &States,
    registry: &Registry,
    glyphs: &Glyphs,
    display_name: F,
) -> (r: (Vec<Tab>, Vec<AreaChoice>))
    requires
        forall|s: &str| #[trigger] call_requires(display_name, (s,)),
    ensures
        exists|live: Seq<Seq<char>>|
            {
                &&& ascending_listing(live, states.view())
                &&& choices_listed(*registry, live, config.areas, *glyphs, r.1@)
                &&& match pinned_ids(config.favorites@, states.view(), *registry).len() > 0
                    && config.show_favorites {
                    true => {
                        &&& r.0@.len() >= 1
                        &&& r.0@[0].id@ == "pinned"@
                        &&& strings_view(r.0@[0].entity_ids@) == pinned_ids(config.favorites@, states.view(), *registry)
                        &&& tabs_projected(*registry, live, config.areas, display_name, *glyphs, r.0@.drop_first())
                    },
                    false => tabs_projected(*registry, live, config.areas, display_name, *glyphs, r.0@),
                }
            },
{
    let live = states.ids();
    let mut tabs = registry.project_tabs(live.as_slice(), &config.areas, display_name, glyphs);
    let ghost rooms = tabs@;
    match pinned_tab(config, states, registry, glyphs) {
        Some(p) => {
            tabs.insert(0, p);
            proof {
                assert(tabs@.drop_first() =~= rooms);
            }
        },
        None => {},
    }
    let areas = registry.area_choices(live.as_slice(), &config.areas, glyphs);
    proof {
        assert(ascending_listing(strings_view(live@), states.view())) by {
            assert forall|i: int, j: int| 0 <= i < j < strings_view(live@).len() implies seq_lt(
                strings_view(live@)[i],
                strings_view(live@)[j],
            ) by {
                assert(strings_view(live@)[i] == live@[i]@);
                assert(strings_view(live@)[j] == live@[j]@);
            }
        }
    }
    (tabs, areas)
}

/// The live states that name a visible entity, in the order of `live`, each
/// with the entity id it names.
pub open spec fn row_sources(states: Map<Seq<char>, JsonView>, reg: Registry, live: Seq<Seq<char>>) -> Seq<(Seq<char>, JsonView)>
    decreases live.len(),
{
    if live.len() == 0 {
        seq![]
    } else {
        let rest = row_sources(states, reg, live.drop_last());
        let state = states[live.last()];
        match as_str_opt(json_get(state, "entity_id"@)) {
            Some(id) => if is_visible_spec(id, entry_of(reg.entities@, id)) {
                rest.push((id, state))
            } else {
                rest
            },
            None => rest,
        }
    }
}

/// The sort keys of row sources: their entity ids.
pub open spec fn source_keys(src: Seq<(Seq<char>, JsonView)>) -> Seq<(int, Seq<char>)> {
    Seq::new(src.len(), |i: int| (0int, src[i].0))
}

/// `rows` are the rows of the live, visible entities in ascending order of
/// entity id: the sources are taken in ascending order of their keys, sorted
/// stably by the entity id each names.
pub open spec fn rows_listed(
    overrides: Seq<(String, String)>,
    states: Map<Seq<char>, JsonView>,
    reg: Registry,
    glyphs: Glyphs,
    rows: Seq<Row>,
) -> bool {
    exists|live: Seq<Seq<char>>, p: Seq<int>|
        #![trigger ascending_listing(live, states), is_sorted_order(source_keys(row_sources(states, reg, live)), p)]
        {
            let src = row_sources(states, reg, live);
            &&& ascending_listing(live, states)
            &&& is_sorted_order(source_keys(src), p)
            &&& rows.len() == p.len()
            &&& forall|i: int|
                0 <= i < rows.len() ==> is_row_of(
                    src[p[i]].1,
                    registry_name_spec(overrides, reg, src[p[i]].0),
                    registry_icon_spec(reg, src[p[i]].0),
                    glyphs,
                    #[trigger] rows[i],
                )
        }
}

/// The rows of every live, visible entity, ordered by entity id.
pub fn all_rows(config: &Config, states: &States, registry: &Registry, glyphs: &Glyphs) -> (rows: Vec<Row>)
    ensures
        rows_listed(config.display_name_overrides@, states.view(), *registry, *glyphs, rows@),
{
    let live = states.ids();
    let ghost lv = strings_view(live@);
    let ghost view = states.view();
    let mut keys_of: Vec<String> = Vec::new();
    let mut names: Vec<String> = Vec::new();
    let mut sort_keys: Vec<(usize, Vec<char>)> = Vec::new();
    let mut i: usize = 0;
    while i < live.len()
        invariant
            lv == strings_view(live@),
            view == states.view(),
            forall|k: Seq<char>| view.dom().contains(k) <==> lv.contains(k),
            i <= live@.len(),
            keys_of@.len() == names@.len(),
            sort_keys@.len() == names@.len(),
            row_sources(view, *registry, lv.take(i as int)).len() == names@.len(),
            forall|j: int| 0 <= j < names@.len() ==> {
                &&& view.dom().contains(#[trigger] keys_of@[j]@)
                &&& row_sources(view, *registry, lv.take(i as int))[j] == (names@[j]@, view[keys_of@[j]@])
                &&& keys_view(sort_keys@)[j] == (0int, names@[j]@)
            },
        decreases live@.len() - i,
    {
        proof {
            assert(lv.take(i + 1).drop_last() =~= lv.take(i as int));
            assert(lv.take(i + 1).last() == lv[i as int]);
            assert(lv[i as int] == live@[i as int]@);
            assert(lv.contains(lv[i as int]));
        }
        let key = live[i].as_str();
        let state = match states.get(key) {
            Some(s) => s,
            None => {
                proof {
                    assert(false);
                }
                return Vec::new();
            },
        };
        let named: Option<&str> = match state.get("entity_id") {
            Some(v) => v.as_str(),
            None => None,
        };
        match named {
            Some(id) => {
                if visible(registry, id) {
                    let ghost old_keys = keys_of@;
                    let ghost old_names = names@;
                    let ghost old_sort = sort_keys@;
                    keys_of.push(live[i].clone());
                    names.push(String::from_str(id));
                    sort_keys.push((0, chars_of(id)));
                    proof {
                        assert forall|j: int| 0 <= j < names@.len() implies {
                            &&& view.dom().contains(#[trigger] keys_of@[j]@)
                            &&& row_sources(view, *registry, lv.take(i + 1))[j] == (names@[j]@, view[keys_of@[j]@])
                            &&& keys_view(sort_keys@)[j] == (0int, names@[j]@)
                        } by {
                            if j < old_names.len() {
                                assert(keys_of@[j] == old_keys[j]);
                                assert(names@[j] == old_names[j]);
                                assert(sort_keys@[j] == old_sort[j]);
                                assert(keys_view(old_sort)[j] == (0int, old_names[j]@));
                            }
                        }
                    }
                }
            },
            None => {},
        }
        i = i + 1;
    }
    proof {
        assert(lv.take(live@.len() as int) =~= lv);
    }
    let ghost src = row_sources(view, *registry, lv);
    let p = sort_order(&sort_keys);
    let ghost pv = indices_view(p@);
    proof {
        assert(lv.take(i as int) == lv);
        assert forall|j: int| 0 <= j < src.len() implies #[trigger] keys_view(sort_keys@)[j] == source_keys(src)[j] by {
            assert(view.dom().contains(keys_of@[j]@));
        }
        assert(keys_view(sort_keys@) =~= source_keys(src));
    }
    let mut rows: Vec<Row> = Vec::new();
    let mut k: usize = 0;
    while k < p.len()
        invariant
            lv == strings_view(live@),
            view == states.view(),
            src == row_sources(view, *registry, lv),
            keys_of@.len() == names@.len(),
            src.len() == names@.len(),
            forall|j: int| 0 <= j < names@.len() ==> {
                &&& view.dom().contains(#[trigger] keys_of@[j]@)
                &&& src[j] == (names@[j]@, view[keys_of@[j]@])
            },
            pv == indices_view(p@),
            is_sorted_order(source_keys(src), pv),
            k <= p@.len(),
            rows@.len() == k,
            forall|a: int|
                0 <= a < k ==> is_row_of(
                    src[pv[a]].1,
                    registry_name_spec(config.display_name_overrides@, *registry, src[pv[a]].0),
                    registry_icon_spec(*registry, src[pv[a]].0),
                    *glyphs,
                    #[trigger] rows@[a],
                ),
        decreases p@.len() - k,
    {
        let j = p[k];
        proof {
            assert(pv[k as int] == j as int);
            assert(0 <= j < src.len());
        }
        let state = match states.get(keys_of[j].as_str()) {
            Some(s) => s,
            None => {
                proof {
                    assert(false);
                }
                return Vec::new();
            },
        };
        let name = registry_name(config, registry, names[j].as_str());
        let icon = registry_icon(registry, names[j].as_str());
        let name_ref: Option<&str> = match &name {
            Some(n) => Some(n.as_str()),
            None => None,
        };
        let icon_ref: Option<&str> = match &icon {
            Some(n) => Some(n.as_str()),
            None => None,
        };
        proof {
            assert(src[j as int] == (names@[j as int]@, view[keys_of@[j as int]@]));
            assert(state@ == src[j as int].1);
            assert(opt_str_view(name_ref) == opt_string_view(name));
            assert(opt_str_view(icon_ref) == opt_string_view(icon));
            lemma_row_source_names(view, *registry, lv, j as int);
        }
        match row(state, name_ref, icon_ref, glyphs) {
            Some(r) => {
                rows.push(r);
            },
            None => {
                proof {
                    assert(false);
                }
            },
        }
        k = k + 1;
    }
    proof {
        let kv = source_keys(src);
        assert(ascending_listing(lv, view)) by {
            assert forall|a: int, b: int| 0 <= a < b < lv.len() implies seq_lt(lv[a], lv[b]) by {
                assert(lv[a] == live@[a]@ && lv[b] == live@[b]@);
            }
        }
        assert(is_sorted_order(source_keys(row_sources(view, *registry, lv)), pv));
        assert(rows_listed(config.display_name_overrides@, view, *registry, *glyphs, rows@));
    }
    rows
}

proof fn lemma_row_source_names(states: Map<Seq<char>, JsonView>, reg: Registry, live: Seq<Seq<char>>, j: int)
    requires
        0 <= j < row_sources(states, reg, live).len(),
    ensures
        as_str_opt(json_get(row_sources(states, reg, live)[j].1, "entity_id"@)) == Some(row_sources(states, reg, live)[j].0),
    decreases live.len(),
{
    if live.len() > 0 {
        let rest = row_sources(states, reg, live.drop_last());
        if j < rest.len() {
            lemma_row_source_names(states, reg, live.drop_last(), j);
        }
    }
}

/// The states of a snapshot, by the entity id each names; a later state of
/// the same id replaces an earlier one. A state that names no entity, or
/// names it by a malformed id, is left out: ids taken in become keys on both
/// sides of the protocol, so a server-supplied `__proto__` or `constructor`
/// must never get that far.
pub open spec fn snapshot_table(s: Seq<JsonView>) -> Map<Seq<char>, JsonView>
    decreases s.len(),
{
    if s.len() == 0 {
        Map::empty()
    } else {
        let rest = snapshot_table(s.drop_last());
        match as_str_opt(json_get(s.last(), "entity_id"@)) {
            Some(id) => if valid_entity_id_spec(id) {
                rest.insert(id, s.last())
            } else {
                rest
            },
            None => rest,
        }
    }
}

/// Every id that a snapshot's table holds is a well-formed entity id.
pub proof fn law_snapshot_ids_are_well_formed(s: Seq<JsonView>, id: Seq<char>)
    ensures
        snapshot_table(s).dom().contains(id) ==> valid_entity_id_spec(id),
    decreases s.len(),
{
    if s.len() > 0 {
        law_snapshot_ids_are_well_formed(s.drop_last(), id);
    }
}

/// The values of a list of JSON values.
pub open spec fn values_view(v: Seq<Json>) -> Seq<JsonView> {
    Seq::new(v.len(), |i: int| v[i]@)
}

/// The state table of a snapshot's states; see `snapshot_table`.
pub fn states_from(snapshot: &Vec<Json>) -> (r: States)
    ensures
        r.view() == snapshot_table(values_view(snapshot@)),
{
    let ghost all = values_view(snapshot@);
    let mut states = States::new();
    let mut i: usize = 0;
    while i < snapshot.len()
        invariant
            all == values_view(snapshot@),
            i <= snapshot@.len(),
            states.view() == snapshot_table(all.take(i as int)),
        decreases snapshot@.len() - i,
    {
        proof {
            assert(all.take(i + 1).drop_last() =~= all.take(i as int));
            assert(all.take(i + 1).last() == snapshot@[i as int]@);
        }
        let named: Option<&str> = match snapshot[i].get("entity_id") {
            Some(v) => v.as_str(),
            None => None,
        };
        match named {
            Some(id) => {
                if valid_entity_id(id) {
                    let _ = states.insert(String::from_str(id), crate::json::clone_json(&snapshot[i]));
                }
            },
            None => {},
        }
        i = i + 1;
    }
    proof {
        assert(all.take(snapshot@.len() as int) =~= all);
    }
    states
}

/// The live ids the daemon projects are all different, so the rooms it shows
/// never list an entity twice (where the registry's area ids are different).
pub proof fn law_the_daemons_rooms_never_repeat_an_entity<F: Fn(&str) -> String>(
    states: Map<Seq<char>, JsonView>,
    live: Seq<Seq<char>>,
    reg: Registry,
    prefs: crate::registry::AreaPrefs,
    f: F,
    glyphs: Glyphs,
    tabs: Seq<Tab>,
    i: int,
    x: int,
    j: int,
    y: int,
)
    requires
        ascending_listing(live, states),
        tabs_projected(reg, live, prefs, f, glyphs, tabs),
        crate::registry::area_ids(reg.areas@).no_duplicates(),
        0 <= i < tabs.len(),
        0 <= j < tabs.len(),
        0 <= x < tabs[i].entity_ids@.len(),
        0 <= y < tabs[j].entity_ids@.len(),
        i != j || x != y,
    ensures
        tabs[i].entity_ids@[x]@ != tabs[j].entity_ids@[y]@,
{
    assert(live.no_duplicates()) by {
        assert forall|a: int, b: int| 0 <= a < live.len() && 0 <= b < live.len() && a != b implies live[a] != live[b] by {
            if a < b {
                assert(seq_lt(live[a], live[b]));
                if live[a] == live[b] {
                    crate::chars::lemma_seq_lt_irreflexive(live[a]);
                }
            } else {
                assert(seq_lt(live[b], live[a]));
                if live[a] == live[b] {
                    crate::chars::lemma_seq_lt_irreflexive(live[a]);
                }
            }
        }
    }
    crate::projection::law_no_entity_is_placed_twice(reg, live, prefs, f, glyphs, tabs, i, x, j, y);
}

} // verus!
