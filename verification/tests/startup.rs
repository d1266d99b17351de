use backend::routes::products::files::AuthKey;
use backend::startup::{bucket_key, listen_address, parse_port, state_plan, AddressError, BucketSource};
use backend::Environment;

#[test]
fn ports_parse_like_u16() {
    for text in ["0", "80", "+8080", "65535", "007", "65536", "", "+", "-1", " 80", "8o", "99999999999999999999"] {
        assert_eq!(parse_port(text), text.parse::<u16>().ok(), "{text}");
    }
}

#[test]
fn development_listens_on_loopback_3000() {
    let a = listen_address(Environment::Development, None).unwrap();
    assert_eq!(a.ip, [127, 0, 0, 1]);
    assert_eq!(a.port, 3000);
}

#[test]
fn production_listens_on_all_interfaces_at_port() {
    let a = listen_address(Environment::Production, Some("8080")).unwrap();
    assert_eq!(a.ip, [0, 0, 0, 0]);
    assert_eq!(a.port, 8080);
    assert_eq!(listen_address(Environment::Production, None).unwrap_err(), AddressError::PortMissing);
    assert_eq!(
        listen_address(Environment::Production, Some("http")).unwrap_err(),
        AddressError::PortInvalid
    );
}

#[test]
fn production_plan_migrates_and_uses_configured_bucket() {
    let plan = state_plan(Environment::Production);
    assert!(plan.migrate_database);
    assert!(!plan.build_frontend);
    assert!(matches!(plan.bucket, BucketSource::Configured));
}

#[test]
fn development_plan_builds_frontend_and_uses_local_bucket() {
    let plan = state_plan(Environment::Development);
    assert!(!plan.migrate_database);
    assert!(plan.build_frontend);
    match plan.bucket {
        BucketSource::Local { url } => assert_eq!(url, "http://127.0.0.1:3001"),
        BucketSource::Configured => panic!("development uses the local bucket"),
    }
}

#[test]
fn bucket_key_needs_two_uuids() {
    let k: Option<AuthKey> = bucket_key(
        "550e8400-e29b-41d4-a716-446655440000",
        "a1a2a3a4-b1b2-c1c2-d1d2-d3d4d5d6d7d8",
    );
    let k = k.unwrap();
    assert_eq!(k.key, 0x550e8400e29b41d4a716446655440000);
    assert_eq!(k.id, 0xa1a2a3a4b1b2c1c2d1d2d3d4d5d6d7d8);
    assert!(bucket_key("550e8400-e29b-41d4-a716-446655440000", "nope").is_none());
    assert!(bucket_key("", "a1a2a3a4-b1b2-c1c2-d1d2-d3d4d5d6d7d8").is_none());
}
