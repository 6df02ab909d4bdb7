use slothy::homepage;

#[test]
fn homepage_test_default_request_leads_to_homepage() {
    assert_eq!("Slothy", homepage());
}

#[test]
fn lib_test_default_request_leads_to_homepage() {
    assert_eq!(homepage().as_bytes(), b"Slothy");
}
