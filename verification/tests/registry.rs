use atriumd::icons::Glyphs;
use atriumd::registry::{AreaEntry, AreaPrefs, DeviceEntry, EntityEntry, Registry, Tab, DEFAULT_AREA_ICON};

fn area(id: &str, name: &str, icon: Option<&str>) -> AreaEntry {
    AreaEntry {
        area_id: id.into(),
        name: name.into(),
        icon: icon.map(str::to_string),
        floor_id: None,
    }
}

fn entity(id: &str, area: Option<&str>, device: Option<&str>) -> EntityEntry {
    EntityEntry {
        entity_id: id.into(),
        area_id: area.map(str::to_string),
        device_id: device.map(str::to_string),
        ..Default::default()
    }
}

fn fixture() -> Registry {
    Registry {
        areas: vec![
            area("office", "Office", None),
            area("kitchen", "Kitchen", Some("mdi:stove")),
            area("living_room", "Living Room", Some("mdi:sofa")),
            area("garage", "Garage", None),
            area("guest_room", "Guest Room", None),
        ],
        devices: vec![DeviceEntry {
            id: "dev1".into(),
            area_id: Some("living_room".into()),
        }],
        entities: vec![
            entity("light.desk", Some("office"), None),
            entity("switch.fan", Some("office"), None),
            entity("light.counter", Some("kitchen"), None),
            entity("media_player.tv", None, Some("dev1")),
            entity("cover.door", Some("garage"), None),
            entity("sensor.orphan", None, None),
        ],
    }
}

fn glyphs() -> Glyphs {
    Glyphs::new(vec![
        ("mdi:texture-box".to_string(), "\u{f0fe1}".to_string()),
        ("mdi:stove".to_string(), "\u{f04de}".to_string()),
    ])
}

fn live(ids: &[&str]) -> Vec<String> {
    ids.iter().map(|s| s.to_string()).collect()
}

fn all_live() -> Vec<String> {
    live(&[
        "light.desk",
        "switch.fan",
        "light.counter",
        "media_player.tv",
        "cover.door",
        "sensor.orphan",
    ])
}

fn ident(id: &str) -> String {
    id.to_string()
}

fn titles(tabs: &[Tab]) -> Vec<&str> {
    tabs.iter().map(|t| t.title.as_str()).collect()
}

fn area_titles(tabs: &[Tab]) -> Vec<&str> {
    tabs.iter()
        .filter(|t| t.id.starts_with("area:"))
        .map(|t| t.title.as_str())
        .collect()
}

#[test]
fn defaults_show_areas_and_keep_unassigned_things_reachable() {
    let prefs = AreaPrefs::default();
    assert!(prefs.order.is_empty());
    assert!(prefs.hidden.is_empty());
    assert!(!prefs.hide_entities_without_area, "do not silently drop entities");
    assert!(prefs.hide_empty_areas, "an empty area is noise as a bar tab");
}

#[test]
fn areas_appear_with_no_favorites_configured() {
    let reg = fixture();
    let tabs = reg.project_tabs(&all_live(), &AreaPrefs::default(), ident, &glyphs());
    assert_eq!(area_titles(&tabs), ["Garage", "Kitchen", "Living Room", "Office"]);
}

#[test]
fn device_area_is_inherited_by_its_entities() {
    let reg = fixture();
    let tabs = reg.project_tabs(&all_live(), &AreaPrefs::default(), ident, &glyphs());
    let living = tabs.iter().find(|t| t.title == "Living Room").unwrap();
    assert_eq!(living.entity_ids, ["media_player.tv"]);
}

#[test]
fn empty_areas_are_hidden_by_default_and_shown_on_request() {
    let reg = fixture();
    let tabs = reg.project_tabs(&all_live(), &AreaPrefs::default(), ident, &glyphs());
    assert!(!area_titles(&tabs).contains(&"Guest Room"));

    let prefs = AreaPrefs {
        hide_empty_areas: false,
        ..Default::default()
    };
    let tabs = reg.project_tabs(&all_live(), &prefs, ident, &glyphs());
    let guest = tabs.iter().find(|t| t.title == "Guest Room").unwrap();
    assert!(guest.entity_ids.is_empty());
}

#[test]
fn hidden_areas_are_dropped_and_order_is_honored() {
    let reg = fixture();
    let prefs = AreaPrefs {
        order: vec!["living_room".into(), "office".into()],
        hidden: vec!["kitchen".into()],
        ..Default::default()
    };
    let tabs = reg.project_tabs(&all_live(), &prefs, ident, &glyphs());
    assert_eq!(area_titles(&tabs), ["Living Room", "Office", "Garage"]);
}

#[test]
fn stale_ids_in_prefs_are_ignored() {
    let reg = fixture();
    let prefs = AreaPrefs {
        order: vec!["ghost_area".into(), "office".into()],
        hidden: vec!["also_gone".into()],
        ..Default::default()
    };
    let tabs = reg.project_tabs(&all_live(), &prefs, ident, &glyphs());
    assert_eq!(area_titles(&tabs), ["Office", "Garage", "Kitchen", "Living Room"]);
}

#[test]
fn arealess_entities_bucket_into_a_trailing_tab() {
    let reg = fixture();
    let hide = AreaPrefs {
        hide_entities_without_area: true,
        ..Default::default()
    };
    assert!(!titles(&reg.project_tabs(&all_live(), &hide, ident, &glyphs())).contains(&"Unassigned"));

    let tabs = reg.project_tabs(&all_live(), &AreaPrefs::default(), ident, &glyphs());
    let unassigned = tabs.iter().find(|t| t.title == "Unassigned").unwrap();
    assert_eq!(unassigned.entity_ids, ["sensor.orphan"]);
    assert_eq!(tabs.last().unwrap().title, "Unassigned");
}

#[test]
fn invisible_entities_never_reach_a_tab() {
    let mut reg = fixture();
    reg.entities.push(EntityEntry {
        entity_id: "sensor.uptime".into(),
        area_id: Some("garage".into()),
        entity_category: Some("diagnostic".into()),
        ..Default::default()
    });
    let mut ids = all_live();
    ids.push("sensor.uptime".into());
    ids.push("automation.nightly".into());

    let tabs = reg.project_tabs(&ids, &AreaPrefs::default(), ident, &glyphs());
    let garage = tabs.iter().find(|t| t.title == "Garage").unwrap();
    assert_eq!(garage.entity_ids, ["cover.door"]);
    assert!(!tabs.iter().any(|t| t.entity_ids.iter().any(|e| e == "automation.nightly")));
}

#[test]
fn registry_entries_without_state_are_not_drawn() {
    let reg = fixture();
    let ids = live(&["light.desk", "switch.fan"]);
    let tabs = reg.project_tabs(&ids, &AreaPrefs::default(), ident, &glyphs());
    assert_eq!(area_titles(&tabs), ["Office"]);
}

#[test]
fn entities_sort_by_display_name_not_entity_id() {
    let reg = fixture();
    let tabs = reg.project_tabs(
        &all_live(),
        &AreaPrefs::default(),
        |id: &str| match id {
            "light.desk" => "Zebra lamp".into(),
            "switch.fan" => "Apple fan".into(),
            other => other.to_string(),
        },
        &glyphs(),
    );
    let office = tabs.iter().find(|t| t.title == "Office").unwrap();
    assert_eq!(office.entity_ids, ["switch.fan", "light.desk"]);
}

#[test]
fn areas_without_an_icon_fall_back_to_the_generic_one() {
    let reg = fixture();
    let tabs = reg.project_tabs(&all_live(), &AreaPrefs::default(), ident, &glyphs());
    let garage = tabs.iter().find(|t| t.title == "Garage").unwrap();
    assert_eq!(garage.icon, DEFAULT_AREA_ICON);
    let kitchen = tabs.iter().find(|t| t.title == "Kitchen").unwrap();
    assert_eq!(kitchen.icon, "mdi:stove");
}

#[test]
fn picker_lists_every_area_including_hidden_and_empty_ones() {
    let reg = fixture();
    let prefs = AreaPrefs {
        hidden: vec!["kitchen".into()],
        ..Default::default()
    };
    let choices = reg.area_choices(&all_live(), &prefs, &glyphs());
    assert_eq!(choices.len(), 5, "every area must be togglable");

    let kitchen = choices.iter().find(|c| c.area_id == "kitchen").unwrap();
    assert!(kitchen.hidden);
    assert_eq!(kitchen.entity_count, 1, "count survives being hidden");

    let guest = choices.iter().find(|c| c.area_id == "guest_room").unwrap();
    assert!(!guest.hidden);
    assert_eq!(guest.entity_count, 0);
}

#[test]
fn the_picker_follows_the_stored_order() {
    let reg = fixture();
    let prefs = AreaPrefs {
        order: vec!["garage".into(), "office".into()],
        ..Default::default()
    };
    let choices = reg.area_choices(&all_live(), &prefs, &glyphs());
    let names: Vec<&str> = choices.iter().map(|c| c.name.as_str()).collect();
    assert_eq!(names, ["Garage", "Office", "Guest Room", "Kitchen", "Living Room"]);
}

#[test]
fn tab_ids_titles_and_glyphs_follow_the_area() {
    let reg = fixture();
    let tabs = reg.project_tabs(&all_live(), &AreaPrefs::default(), ident, &glyphs());
    let ids: Vec<&str> = tabs.iter().map(|t| t.id.as_str()).collect();
    assert_eq!(ids, ["area:garage", "area:kitchen", "area:living_room", "area:office", "unassigned"]);
    let kitchen = &tabs[1];
    assert_eq!(kitchen.glyph, "\u{f04de}");
    let living = &tabs[2];
    assert_eq!(living.icon, "mdi:sofa");
    assert_eq!(living.glyph, "\u{f0fe1}", "an icon missing from the font falls back to the default glyph");
    assert_eq!(tabs[4].icon, "mdi:help-circle-outline");
}

#[test]
fn a_name_that_cleans_to_nothing_falls_back_to_the_id() {
    let reg = Registry {
        areas: vec![area("attic", "<>", None)],
        devices: vec![],
        entities: vec![entity("light.a", Some("attic"), None)],
    };
    let tabs = reg.project_tabs(&live(&["light.a"]), &AreaPrefs::default(), ident, &Glyphs::default());
    assert_eq!(tabs[0].title, "attic");
    assert_eq!(tabs[0].glyph, "");
}

#[test]
fn the_last_registry_entry_of_an_entity_wins() {
    let mut reg = fixture();
    reg.entities.push(entity("light.desk", Some("kitchen"), None));
    let tabs = reg.project_tabs(&all_live(), &AreaPrefs::default(), ident, &glyphs());
    let kitchen = tabs.iter().find(|t| t.title == "Kitchen").unwrap();
    assert_eq!(kitchen.entity_ids, ["light.counter", "light.desk"]);
}

#[test]
fn names_sort_without_regard_to_case_and_ties_keep_live_order() {
    let reg = Registry {
        areas: vec![area("b", "beta", None), area("a", "Alpha", None), area("c", "alpha", None)],
        devices: vec![],
        entities: vec![
            entity("light.x", Some("a"), None),
            entity("light.y", Some("b"), None),
            entity("light.z", Some("c"), None),
        ],
    };
    let tabs = reg.project_tabs(&live(&["light.x", "light.y", "light.z"]), &AreaPrefs::default(), ident, &Glyphs::default());
    assert_eq!(area_titles(&tabs), ["Alpha", "alpha", "beta"]);
}

#[test]
fn the_room_tabs_are_the_rooms_the_picker_shows_in_its_order() {
    let reg = fixture();
    let prefs = AreaPrefs {
        hidden: vec!["kitchen".into()],
        order: vec!["garage".into()],
        ..Default::default()
    };
    let tabs = reg.project_tabs(&all_live(), &prefs, ident, &glyphs());
    let choices = reg.area_choices(&all_live(), &prefs, &glyphs());
    let tab_rooms: Vec<String> = tabs
        .iter()
        .filter(|t| t.id != "unassigned")
        .map(|t| t.id.clone())
        .collect();
    let shown: Vec<String> = choices
        .iter()
        .filter(|c| !c.hidden && (!prefs.hide_empty_areas || c.entity_count > 0))
        .map(|c| format!("area:{}", c.area_id))
        .collect();
    assert_eq!(tab_rooms, ["area:garage", "area:living_room", "area:office"]);
    assert_eq!(tab_rooms, shown);
    let mut picked: Vec<&str> = choices.iter().map(|c| c.area_id.as_str()).collect();
    let mut areas: Vec<&str> = reg.areas.iter().map(|a| a.area_id.as_str()).collect();
    picked.sort();
    areas.sort();
    assert_eq!(picked, areas);
}
