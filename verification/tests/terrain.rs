use balloon_predictor::terrain::{
    normalize_opentopo_base_url, should_throttle_opentopo, DemSource, DEFAULT_OPENTOPO_BASE_URL,
};

#[test]
fn dem_source_roundtrip() {
    assert_eq!(DemSource::parse("gsi"), Some(DemSource::GsiDem10b));
    assert_eq!(DemSource::parse("opentopodata"), Some(DemSource::OpenTopoData));
    assert_eq!(DemSource::parse("terrarium"), None);
    assert_eq!(DemSource::parse("nope"), None);
}

#[test]
fn normalize_opentopo_base_url_defaults_and_trims() {
    assert_eq!(normalize_opentopo_base_url(""), DEFAULT_OPENTOPO_BASE_URL);
    assert_eq!(
        normalize_opentopo_base_url("https://api.opentopodata.org/"),
        "https://api.opentopodata.org"
    );
    assert_eq!(
        normalize_opentopo_base_url(" http://127.0.0.1:5000/ "),
        "http://127.0.0.1:5000"
    );
    assert!(should_throttle_opentopo(DEFAULT_OPENTOPO_BASE_URL));
    assert!(!should_throttle_opentopo("http://127.0.0.1:5000"));
}

#[test]
fn dem_source_names_and_default() {
    for s in [DemSource::GsiDem10b, DemSource::OpenTopoData] {
        assert_eq!(DemSource::parse(s.as_str()), Some(s));
    }
    assert_eq!(DemSource::default(), DemSource::GsiDem10b);
}

#[test]
fn normalize_handles_unicode_space_and_many_slashes() {
    assert_eq!(normalize_opentopo_base_url("\u{3000}http://x///\t"), "http://x");
    assert_eq!(normalize_opentopo_base_url(" /// "), DEFAULT_OPENTOPO_BASE_URL);
    let once = normalize_opentopo_base_url("http://h:1/ ");
    assert_eq!(normalize_opentopo_base_url(&once), once);
    // Removing the slash can leave a space at the end, which a second pass trims.
    assert_eq!(normalize_opentopo_base_url("a /"), "a ");
    assert_eq!(normalize_opentopo_base_url("a "), "a");
}
