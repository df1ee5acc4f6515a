use photo_backup::credentials::{credentials_from_parts, load_credentials, save_credentials, Credentials};
use photo_backup::error::BackupError;

#[test]
fn saved_credentials_are_a_json_object() {
    let c = Credentials {
        cloud_name: "demo".to_string(),
        api_key: "key".to_string(),
        api_secret: "s\"x".to_string(),
    };
    assert_eq!(
        save_credentials(&c),
        "{\"api_key\":\"key\",\"api_secret\":\"s\\\"x\",\"cloud_name\":\"demo\"}"
    );
}

#[test]
fn saved_credentials_load_again() {
    let c = Credentials {
        cloud_name: "demo".to_string(),
        api_key: "key".to_string(),
        api_secret: "secret".to_string(),
    };
    let token = save_credentials(&c);
    let back = load_credentials(&token).ok().unwrap().unwrap();
    assert_eq!(back.cloud_name, "demo");
    assert_eq!(back.api_key, "key");
    assert_eq!(back.api_secret, "secret");
}

#[test]
fn token_that_is_not_json_is_an_error() {
    assert!(matches!(
        load_credentials("not json"),
        Err(BackupError::MalformedResponse { .. })
    ));
    assert!(load_credentials("").is_err());
    assert!(load_credentials("{\"cloud_name\":").is_err());
}

#[test]
fn token_with_a_missing_part_holds_no_credentials() {
    assert_eq!(load_credentials("{}"), Ok(None));
    assert_eq!(load_credentials("{\"cloud_name\":\"c\",\"api_key\":\"k\"}"), Ok(None));
    assert_eq!(load_credentials("[1,2]"), Ok(None));
    assert_eq!(load_credentials("null"), Ok(None));
}

#[test]
fn token_with_an_empty_or_non_string_part_holds_no_credentials() {
    assert_eq!(
        load_credentials("{\"cloud_name\":\"c\",\"api_key\":\"\",\"api_secret\":\"s\"}"),
        Ok(None)
    );
    assert_eq!(
        load_credentials("{\"cloud_name\":\"c\",\"api_key\":7,\"api_secret\":\"s\"}"),
        Ok(None)
    );
}

#[test]
fn token_with_three_parts_holds_credentials() {
    assert_eq!(
        load_credentials("{\"api_secret\":\"s\",\"cloud_name\":\"c\",\"extra\":true,\"api_key\":\"k\"}"),
        Ok(Some(Credentials {
            cloud_name: "c".to_string(),
            api_key: "k".to_string(),
            api_secret: "s".to_string(),
        }))
    );
}

#[test]
fn parts_make_credentials_only_if_all_are_there() {
    let some = |s: &str| Some(s.to_string());
    assert_eq!(
        credentials_from_parts(some("c"), some("k"), some("s")),
        Some(Credentials { cloud_name: "c".to_string(), api_key: "k".to_string(), api_secret: "s".to_string() })
    );
    assert_eq!(credentials_from_parts(None, some("k"), some("s")), None);
    assert_eq!(credentials_from_parts(some("c"), None, some("s")), None);
    assert_eq!(credentials_from_parts(some("c"), some("k"), None), None);
    assert_eq!(credentials_from_parts(some(""), some("k"), some("s")), None);
    assert_eq!(credentials_from_parts(some("c"), some("k"), some("")), None);
}
