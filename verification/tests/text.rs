use atriumd::text::{plain, valid_entity_id, MAX_LEN};

#[test]
fn markup_cannot_survive_into_a_label() {
    assert_eq!(plain("<img src=x onerror=alert(1)>"), "img src=x onerror=alert(1)");
    assert_eq!(plain("<b>Kitchen</b>"), "bKitchen/b");
    assert_eq!(plain("Kitchen"), "Kitchen");
}

#[test]
fn control_characters_cannot_break_the_line_protocol() {
    assert_eq!(plain("Liv\ning\troom"), "Livingroom");
    assert_eq!(plain("Office\u{0}"), "Office");
}

#[test]
fn ordinary_names_including_punctuation_are_untouched() {
    assert_eq!(plain("Bed & Breakfast"), "Bed & Breakfast");
    assert_eq!(plain("Kid's Room"), "Kid's Room");
    assert_eq!(plain("Küche · 2F"), "Küche · 2F");
}

#[test]
fn absurd_names_are_capped_without_splitting_a_character() {
    let long = "é".repeat(500);
    let out = plain(&long);
    assert!(out.chars().count() <= MAX_LEN);
    assert!(out.starts_with('é'));
}

#[test]
fn entity_ids_must_be_a_plain_domain_and_object() {
    assert!(valid_entity_id("light.desk"));
    assert!(valid_entity_id("binary_sensor.front_door_2"));
    for bad in ["", "light", "light.", ".desk", "Light.Desk", "__proto__",
                "light.desk; rm -rf /", "constructor", "toString", "light..desk"] {
        assert!(!valid_entity_id(bad), "{bad} must be refused");
    }
}

#[test]
fn surrounding_white_space_is_trimmed_and_unicode_spaces_count() {
    assert_eq!(plain("  Office \u{3000}"), "Office");
    assert_eq!(plain("\u{a0}Hall"), "Hall");
    assert_eq!(plain("   "), "");
}

#[test]
fn the_cap_trims_the_space_it_leaves_at_the_end() {
    let name = format!("{} {}", "a".repeat(127), "b".repeat(10));
    let out = plain(&name);
    assert_eq!(out, "a".repeat(127));
    let exact = "x".repeat(MAX_LEN);
    assert_eq!(plain(&exact), exact);
}

#[test]
fn c1_control_characters_are_dropped_too() {
    assert_eq!(plain("Ga\u{85}rage\u{9f}"), "Garage");
}

#[test]
fn cleaning_a_clean_label_changes_nothing() {
    for s in ["Kitchen", "Bed & Breakfast", "  <b>Kit\tchen</b>  ", "\u{0}x\u{7f}", "   "] {
        let once = plain(s);
        assert_eq!(plain(&once), once, "{s:?}");
    }
    assert_eq!(plain("Küche · 2F"), "Küche · 2F");
    let long = format!("{} tail", "a".repeat(127));
    let capped = plain(&long);
    assert_eq!(capped, "a".repeat(127));
    assert_eq!(plain(&capped), capped);
}
