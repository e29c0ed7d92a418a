use betcore::sports::get_sport_metadata;

#[test]
fn test_sport_metadata_known_keys() {
    assert_eq!(
        get_sport_metadata("NFL"),
        (String::from("NFL Football"), String::from("\u{1F3C8}"))
    );
    assert_eq!(get_sport_metadata("basketball").0, "NBA Basketball");
    assert_eq!(get_sport_metadata("Soccer").0, "Soccer");
    assert_eq!(get_sport_metadata("esports").0, "eSports");
}

#[test]
fn test_sport_metadata_unknown_key() {
    let (name, icon) = get_sport_metadata("curling");
    assert_eq!(name, "curling");
    assert_eq!(icon, "\u{1F3C5}");
}
