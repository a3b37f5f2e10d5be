use objstore::config::{create_client, EnvValue};
use objstore::errors::ConfigError;

fn lookup(name: &str, value: Option<&str>) -> EnvValue {
    EnvValue { name: String::from(name), value: value.map(String::from) }
}

#[test]
fn client_is_built_from_both_credentials() {
    let c = create_client(
        String::from("us-west-2"),
        lookup("S3_KEY_ID", Some("SECRET-REDACTED")),
        lookup("S3_KEY_SECRET", Some("SECRET-REDACTED")),
    )
    .unwrap();
    assert_eq!(c.region, "us-west-2");
    assert_eq!(c.access_key_id, "SECRET-REDACTED");
    assert_eq!(c.secret_access_key, "SECRET-REDACTED");
    assert_eq!(c.source_label, "loaded-from-custom-env");
}

#[test]
fn missing_id_names_the_id_variable() {
    let r = create_client(
        String::from("us-west-2"),
        lookup("S3_KEY_ID", None),
        lookup("S3_KEY_SECRET", Some("SECRET-REDACTED")),
    );
    assert_eq!(
        r.err(),
        Some(ConfigError::MissingCredential(String::from("S3_KEY_ID")))
    );
}

#[test]
fn missing_secret_names_the_secret_variable() {
    let r = create_client(
        String::from("us-west-2"),
        lookup("S3_KEY_ID", Some("SECRET-REDACTED")),
        lookup("S3_KEY_SECRET", None),
    );
    assert_eq!(
        r.err(),
        Some(ConfigError::MissingCredential(String::from("S3_KEY_SECRET")))
    );
}
