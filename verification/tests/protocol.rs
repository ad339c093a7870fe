use atriumd::protocol::{ConnectionState, Envelope, Event, Level, VERSION};

#[test]
fn every_event_is_stamped_with_the_version_and_generation() {
    let envelope = Envelope::new(7, Event::Log { level: Level::Error, at: 1, text: "nope".into(), entity_id: None });
    assert_eq!(envelope.v, VERSION);
    assert_eq!(envelope.v, 1);
    assert_eq!(envelope.gen, 7);
    match envelope.event {
        Event::Log { level, at, text, entity_id } => {
            assert_eq!(level, Level::Error);
            assert_eq!(at, 1);
            assert_eq!(text, "nope");
            assert_eq!(entity_id, None);
        }
        other => panic!("the event changed: {other:?}"),
    }
}

#[test]
fn a_status_event_keeps_what_it_was_given() {
    let envelope = Envelope::new(
        2,
        Event::Status {
            state: ConnectionState::Connected,
            message: None,
            origin: Some("https://ha.example.com".into()),
            ha_version: Some("2026.8.3".into()),
            plaintext: false,
        },
    );
    assert_eq!(envelope.gen, 2);
    assert!(matches!(
        envelope.event,
        Event::Status { state: ConnectionState::Connected, plaintext: false, .. }
    ));
}
