use atriumd::filter::{domain_of, is_hidden_domain, is_visible};
use atriumd::registry::EntityEntry;

fn entry() -> EntityEntry {
    EntityEntry {
        entity_id: "light.desk".into(),
        ..Default::default()
    }
}

#[test]
fn domain_split_handles_missing_dot() {
    assert_eq!(domain_of("light.desk"), "light");
    assert_eq!(domain_of("bogus"), "bogus");
}

#[test]
fn plain_entity_is_visible() {
    assert!(is_visible("light.desk", Some(&entry())));
}

#[test]
fn unregistered_entity_is_visible() {
    assert!(is_visible("light.desk", None));
}

#[test]
fn hidden_domains_never_show_even_unregistered() {
    for id in ["automation.morning", "script.bed", "sun.sun", "zone.home"] {
        assert!(!is_visible(id, None), "{id} should be hidden");
    }
}

#[test]
fn category_disabled_and_hidden_entities_are_dropped() {
    let mut e = entry();
    e.entity_category = Some("config".into());
    assert!(!is_visible("light.desk", Some(&e)));

    let mut e = entry();
    e.entity_category = Some("diagnostic".into());
    assert!(!is_visible("light.desk", Some(&e)));

    let mut e = entry();
    e.disabled_by = Some("integration".into());
    assert!(!is_visible("light.desk", Some(&e)));

    let mut e = entry();
    e.hidden_by = Some("user".into());
    assert!(!is_visible("light.desk", Some(&e)));
}

#[test]
fn bookkeeping_platforms_are_dropped() {
    let mut e = entry();
    e.platform = Some("mobile_app".into());
    assert!(!is_visible("sensor.phone_battery", Some(&e)));
}

#[test]
fn the_domain_is_what_comes_before_the_first_dot() {
    assert_eq!(domain_of("a.b.c"), "a");
    assert_eq!(domain_of(".x"), "");
    assert!(is_hidden_domain("todo.list"));
    assert!(!is_hidden_domain("todolist.x"));
    let mut e = entry();
    e.platform = Some("hue".into());
    assert!(is_visible("light.desk", Some(&e)));
}
