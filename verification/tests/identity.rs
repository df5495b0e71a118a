//! The identity of an endpoint.

use syncmesh::identity::{
    generate, parse_secret, plan_identity, secret_file, IdentityError, IdentityRead, IdentityStep,
};

#[test]
fn fresh_generates_new_each_time() {
    let a = generate();
    let b = generate();
    assert_ne!(a.to_bytes(), b.to_bytes());
}

#[test]
fn an_identity_file_reads_back_as_the_same_key() {
    let k1 = generate();
    let k2 = parse_secret(&secret_file(&k1)).unwrap();
    assert_eq!(k1.to_bytes(), k2.to_bytes());
    assert_eq!(k1.public(), k2.public());
}

#[test]
fn a_file_of_another_length_is_refused() {
    assert!(matches!(
        parse_secret(b"too short"),
        Err(IdentityError::BadLength(9))
    ));
    assert!(matches!(
        parse_secret(&[0; 33]),
        Err(IdentityError::BadLength(33))
    ));
}

#[test]
fn a_missing_file_asks_for_a_fresh_key() {
    assert!(matches!(
        plan_identity(IdentityRead::Missing),
        Ok(IdentityStep::Create)
    ));
}

#[test]
fn a_readable_file_is_used_and_other_failures_are_passed_on() {
    let bytes = [7u8; 32];
    match plan_identity(IdentityRead::Contents(bytes.to_vec())) {
        Ok(IdentityStep::Use(key)) => assert_eq!(key.to_bytes(), bytes),
        other => panic!("unexpected: {other:?}"),
    }
    assert!(matches!(
        plan_identity(IdentityRead::Contents(vec![1, 2])),
        Err(IdentityError::BadLength(2))
    ));
    let e = std::io::Error::other("denied");
    assert!(matches!(
        plan_identity(IdentityRead::Failed(e)),
        Err(IdentityError::Io(_))
    ));
}

#[test]
fn round_trip_on_disk() {
    // First start: there is no file, so a key is made and written.
    assert!(matches!(
        plan_identity(IdentityRead::Missing),
        Ok(IdentityStep::Create)
    ));
    let k1 = generate();
    let on_disk = secret_file(&k1).to_vec();
    // Second start: the file is there.
    let k2 = match plan_identity(IdentityRead::Contents(on_disk)) {
        Ok(IdentityStep::Use(key)) => key,
        other => panic!("unexpected: {other:?}"),
    };
    assert_eq!(k1.to_bytes(), k2.to_bytes());
}

#[test]
fn rejects_bad_length() {
    assert!(matches!(
        plan_identity(IdentityRead::Contents(b"too short".to_vec())),
        Err(IdentityError::BadLength(_))
    ));
}
