use twitter_api_service::auth_middleware::{
    admin_auth, admin_key_header, resolve_admin_key, same_bytes, AdminKey,
};
use twitter_api_service::reply::Status;

#[test]
fn the_key_travels_in_its_own_header() {
    assert_eq!(admin_key_header(), "X-Admin-API-Key");
}

#[test]
fn missing_header_is_unauthorized() {
    assert_eq!(admin_auth(None, b"secret"), Err(Status::Unauthorized));
    assert_eq!(admin_auth(None, b""), Err(Status::Unauthorized));
}

#[test]
fn mismatched_header_is_unauthorized() {
    let wrong: [&[u8]; 7] =
        [b"", b"secre", b"secret ", b"Secret", b"secreT", b"\xffsecret", b"tercer"];
    for provided in wrong {
        assert_eq!(admin_auth(Some(provided), b"secret"), Err(Status::Unauthorized));
    }
}

#[test]
fn matching_header_passes() {
    assert_eq!(admin_auth(Some(b"secret"), b"secret"), Ok(()));
    assert_eq!(admin_auth(Some(b""), b""), Ok(()));
    assert_eq!(admin_auth(Some(&[0, 255, 7]), &[0, 255, 7]), Ok(()));
}

#[test]
fn unauthorized_is_401() {
    assert_eq!(Status::Unauthorized.code(), 401);
}

#[test]
fn bytes_are_compared_one_by_one() {
    assert!(same_bytes(b"", b""));
    assert!(same_bytes(b"abc", b"abc"));
    assert!(!same_bytes(b"abc", b"abd"));
    assert!(!same_bytes(b"abc", b"ab"));
    assert!(!same_bytes(b"ab", b"abc"));
    assert!(!same_bytes(b"xbc", b"abc"));
}

#[test]
fn a_configured_key_is_used_as_it_is() {
    assert_eq!(
        resolve_admin_key(Some("s3cret".to_string())),
        AdminKey { secret: "s3cret".to_string(), is_default: false }
    );
    assert_eq!(
        resolve_admin_key(Some(String::new())),
        AdminKey { secret: String::new(), is_default: false }
    );
}

#[test]
fn without_a_configured_key_the_fallback_is_used_and_flagged() {
    let key = resolve_admin_key(None);
    assert_eq!(key, AdminKey { secret: "default_admin_key".to_string(), is_default: true });
    assert_eq!(admin_auth(Some(b"default_admin_key"), key.secret.as_bytes()), Ok(()));
}
