use atriumd::keyring::{candidates, cleared, finished, helper, looked_up, store_label, Error, SAFE_PATH};

#[test]
fn the_helper_is_never_taken_from_an_inherited_path() {
    for candidate in candidates() {
        assert!(candidate.starts_with('/'), "{candidate} must be absolute");
    }
    assert!(!SAFE_PATH.split(':').any(|p| p.is_empty() || !p.starts_with('/')));
}

#[test]
fn the_first_helper_that_exists_is_used() {
    assert_eq!(helper(&[true, true, true]), Some("/usr/bin/secret-tool"));
    assert_eq!(helper(&[false, true, true]), Some("/bin/secret-tool"));
    assert_eq!(helper(&[false, false, true]), Some("/usr/local/bin/secret-tool"));
    assert_eq!(helper(&[false, false, false]), None);
    assert_eq!(helper(&[]), None);
}

#[test]
fn a_quiet_exit_with_code_one_is_an_absent_entry() {
    assert_eq!(finished(false, Some(1), String::new(), "  \n", "exit status: 1"), Err(Error::NotFound));
    assert_eq!(
        finished(false, Some(2), String::new(), "", "exit status: 2"),
        Err(Error::Failed("exit status exit status: 2".to_string()))
    );
    assert_eq!(
        finished(false, Some(1), String::new(), " no such collection\n", "exit status: 1"),
        Err(Error::Failed("no such collection".to_string()))
    );
    assert_eq!(finished(true, Some(0), "tok\n".to_string(), "", "exit status: 0"), Ok("tok\n".to_string()));
}

#[test]
fn a_lookup_trims_the_token_and_reads_absence_as_none() {
    assert_eq!(looked_up(Ok("  secret\n".to_string())), Ok(Some("secret".to_string())));
    assert_eq!(looked_up(Ok(" \n".to_string())), Ok(None));
    assert_eq!(looked_up(Err(Error::NotFound)), Ok(None));
    assert_eq!(looked_up(Err(Error::Timeout)), Err(Error::Timeout));
}

#[test]
fn clearing_an_absent_entry_is_fine() {
    assert_eq!(cleared(Ok(String::new())), Ok(()));
    assert_eq!(cleared(Err(Error::NotFound)), Ok(()));
    assert_eq!(cleared(Err(Error::Unavailable)), Err(Error::Unavailable));
}

#[test]
fn keyring_messages_and_label() {
    assert_eq!(store_label("https://ha.example.com"), "Atrium \u{2014} https://ha.example.com");
    assert_eq!(Error::Timeout.message(), "the system keyring did not respond");
    assert_eq!(Error::Failed("locked".into()).message(), "the system keyring refused: locked");
    assert_eq!(
        Error::Unavailable.message(),
        "secret-tool is not installed, so the access token cannot be stored"
    );
    assert_eq!(Error::NotFound.message(), "no access token is stored for that address");
}
