use benteng::VERSION;

#[test]
fn test_version() {
    assert_eq!(VERSION, "0.1.0");
}
