use rahgozar::camouflage::{expected_names, NameTrials};

fn texts(items: &[&str]) -> Vec<String> {
    items.iter().map(|s| s.to_string()).collect()
}

#[test]
fn empty_verify_names_is_rejected() {
    assert!(expected_names(&texts(&[])).is_err());
    assert!(expected_names(&texts(&["", " . "])).is_err());
}

#[test]
fn valid_names_build_a_connector() {
    let c = expected_names(&texts(&["googlevideo.com", "www.youtube.com"]));
    assert!(c.is_ok(), "expected Ok, got {:?}", c.err());
}

#[test]
fn ip_literals_parse_as_names() {
    let c = expected_names(&texts(&["1.1.1.1"]));
    assert!(c.is_ok());
}

#[test]
fn names_are_cleaned_and_filtered() {
    assert_eq!(
        expected_names(&texts(&[" facebook.com. ", "not a name", "", "::1"])).unwrap(),
        vec!["facebook.com", "::1"]
    );
    assert_eq!(
        expected_names(&texts(&["not a name"])).unwrap_err(),
        "no valid verify_names for camouflage connector"
    );
}

#[test]
fn the_first_valid_name_wins() {
    let mut t: NameTrials<&str> = NameTrials::new();
    assert_eq!(t.tried::<u8>(Err("wrong host")), None);
    assert_eq!(t.tried(Ok(7)), Some(7));
    let mut t: NameTrials<&str> = NameTrials::new();
    assert_eq!(t.tried::<u8>(Err("a")), None);
    assert_eq!(t.tried::<u8>(Err("b")), None);
    assert_eq!(t.exhausted("none"), "b");
    let t: NameTrials<&str> = NameTrials::new();
    assert_eq!(t.exhausted("none"), "none");
}
