use bless::db::mongodb_uri;
use bless::error::BlessError;

#[test]
fn setup_mongodb_without_uri_is_config_error() {
    match mongodb_uri(None) {
        Err(BlessError::Config(msg)) => assert!(msg.contains("MONGODB_URI"), "{msg}"),
        other => panic!("expected Config, got {other:?}"),
    }
}

#[test]
fn srv_uris_are_recognised() {
    let u = mongodb_uri(Some("mongodb+srv://cluster.example.net/")).unwrap();
    assert!(u.srv);
    assert_eq!(u.uri, "mongodb+srv://cluster.example.net/");
    let u = mongodb_uri(Some("mongodb://localhost:27017/")).unwrap();
    assert!(!u.srv);
}
