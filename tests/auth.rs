use base64::Engine;
use trimlight::sign;

#[test]
fn sign_matches_known_vector() {
    let h = sign("test_id", "test_secret", 1700000000000);
    assert_eq!(h.access_token, "J57vlJpvW5yziNQ3YWvP+3jsS1NJlV6LyjUI0KgSxPE=");
    assert_eq!(h.client_id, "test_id");
    assert_eq!(h.timestamp, "1700000000000");
}

#[test]
fn one_millisecond_changes_the_token() {
    let a = sign("test_id", "test_secret", 1700000000000);
    let b = sign("test_id", "test_secret", 1700000000001);
    assert_eq!(b.access_token, "ZC/Rv18f69qVBWah5U9Nsyj5JDtRiXCF93ojRsx/aBg=");
    assert_ne!(a.access_token, b.access_token);
    assert_eq!(b.timestamp, "1700000000001");
}

#[test]
fn client_id_changes_the_token() {
    let a = sign("test_id", "test_secret", 1700000000000);
    let b = sign("other_id", "test_secret", 1700000000000);
    assert_eq!(b.access_token, "VIogc8KMar3Og8FiDrIDh7Cfx95nj+BUbI/G8IGoatU=");
    assert_ne!(a.access_token, b.access_token);
}

#[test]
fn signing_is_deterministic() {
    let a = sign("id", "secret", 42);
    let b = sign("id", "secret", 42);
    assert_eq!(a.access_token, b.access_token);
    assert_eq!(a.client_id, b.client_id);
    assert_eq!(a.timestamp, b.timestamp);
}

#[test]
fn token_decodes_to_32_bytes() {
    let h = sign("test_id", "test_secret", 1700000000000);
    let bytes = base64::engine::general_purpose::STANDARD.decode(&h.access_token).unwrap();
    assert_eq!(bytes.len(), 32);
    assert!(h.access_token.chars().all(|c| c.is_ascii_alphanumeric() || c == '+' || c == '/' || c == '='));
}

#[test]
fn empty_secret_still_signs() {
    let h = sign("test_id", "", 0);
    assert_eq!(h.access_token, "EG+MwxdW6yoKAGKRb149hX4ISm9NhKWKlJXCHSFN1vc=");
    assert_eq!(h.timestamp, "0");
}

#[test]
fn message_layout() {
    assert_eq!(trimlight::message_to_sign("test_id", 1700000000000), "Trimlight|test_id|1700000000000");
    assert_eq!(trimlight::message_to_sign("", 0), "Trimlight||0");
}

#[test]
fn headers_carry_base64_of_the_tag() {
    let h = trimlight::headers_from_tag(b"hello", "abc", 7);
    assert_eq!(h.access_token, "aGVsbG8=");
    assert_eq!(h.client_id, "abc");
    assert_eq!(h.timestamp, "7");
    assert_eq!(trimlight::headers_from_tag(&[0xfb, 0xff], "abc", 7).access_token, "+/8=");
    assert_eq!(trimlight::headers_from_tag(&[], "abc", 7).access_token, "");
    assert_eq!(
        trimlight::headers_from_tag(&[0u8; 32], "abc", 18446744073709551615).timestamp,
        "18446744073709551615"
    );
}
