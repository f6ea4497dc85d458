#[test]
fn can_get_version() {
    assert!(!annalib::info::version().is_empty());
}

#[test]
fn version_has_major_minor_patch_form() {
    assert_eq!(annalib::info::version(), "0.1.0");
    assert_eq!(annalib::info::version().split('.').count(), 3);
}
