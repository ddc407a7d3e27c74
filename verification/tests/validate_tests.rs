use port_sentinel::validate::{validate_container_id, validate_service_name};

#[test]
fn service_name_accepts_allowed_charset() {
    assert!(validate_service_name("nginx"));
    assert!(validate_service_name("nginx.service"));
    assert!(validate_service_name("my-app-2"));
    assert!(validate_service_name("A.B-c.9"));
}

#[test]
fn service_name_rejects_disallowed_characters() {
    assert!(!validate_service_name("nginx; rm -rf /"));
    assert!(!validate_service_name("a b"));
    assert!(!validate_service_name("$(reboot)"));
    assert!(!validate_service_name("svc_name"));
    assert!(!validate_service_name("svc/name"));
    assert!(!validate_service_name("svc|name"));
    assert!(!validate_service_name("névé"));
}

#[test]
fn service_name_rejects_empty() {
    assert!(!validate_service_name(""));
}

#[test]
fn container_id_additionally_allows_underscore() {
    assert!(validate_container_id("svc_name"));
    assert!(validate_container_id("abc123_def.4-x"));
    assert!(!validate_service_name("svc_name"));
}

#[test]
fn container_id_rejects_disallowed_characters() {
    assert!(!validate_container_id(""));
    assert!(!validate_container_id("a b"));
    assert!(!validate_container_id("a;b"));
    assert!(!validate_container_id("a$b"));
    assert!(!validate_container_id("a`b"));
}
