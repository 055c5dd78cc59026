use base64::Engine;
use ed25519_dalek::Signer;
use ezlotter_core::date::Date;
use ezlotter_core::license::{is_software_activated, verify_license, LicenseError};
use ezlotter_core::machine::get_machine_code;

const TODAY: Date = Date { year: 2024, month: 6, day: 15 };

fn signing_key() -> ed25519_dalek::SigningKey {
    ed25519_dalek::SigningKey::from_bytes(&[7u8; 32])
}

// The trusted key text: standard base64 of a blob whose trailing 32 bytes
// are the raw verifying key, as the embedded key structure wraps it.
fn trusted_key_b64() -> String {
    let vk = signing_key().verifying_key().to_bytes();
    let mut blob = vec![0x30u8, 0x2a, 0x30, 0x05, 0x06, 0x03, 0x2b, 0x65, 0x70, 0x03, 0x21, 0x00];
    blob.extend_from_slice(&vk);
    base64::engine::general_purpose::STANDARD.encode(&blob)
}

fn host_machine_code() -> String {
    get_machine_code(&vec!["board-1".to_string(), "cpu-1".to_string(), "disk-1".to_string()])
}

fn make_token(payload: &[u8]) -> String {
    let sig = signing_key().sign(payload).to_bytes();
    let p64 = base64::engine::general_purpose::URL_SAFE_NO_PAD.encode(payload);
    let s64 = base64::engine::general_purpose::URL_SAFE_NO_PAD.encode(sig);
    format!("{}.{}", p64, s64)
}

fn payload_for(device_id: &str, expires: &str) -> Vec<u8> {
    format!(
        "{{\"device_id\":\"{}\",\"expires\":\"{}\",\"features\":[\"full\"]}}",
        device_id, expires
    )
    .into_bytes()
}

#[test]
fn valid_token_verifies() {
    let mc = host_machine_code();
    let token = make_token(&payload_for(&mc, "2099-01-01"));
    let r = verify_license(&token, &trusted_key_b64(), &mc, TODAY);
    assert_eq!(r, Ok(true));
}

#[test]
fn device_id_matches_up_to_dashes() {
    let mc = host_machine_code();
    let stripped: String = mc.chars().filter(|c| *c != '-').collect();
    let token = make_token(&payload_for(&stripped, "2099-01-01"));
    let r = verify_license(&token, &trusted_key_b64(), &mc, TODAY);
    assert_eq!(r, Ok(true));
}

#[test]
fn mutated_payload_fails() {
    let mc = host_machine_code();
    let mut payload = payload_for(&mc, "2099-01-01");
    payload[3] ^= 1;
    let sig = signing_key().sign(&payload_for(&mc, "2099-01-01")).to_bytes();
    let p64 = base64::engine::general_purpose::URL_SAFE_NO_PAD.encode(&payload);
    let s64 = base64::engine::general_purpose::URL_SAFE_NO_PAD.encode(sig);
    let token = format!("{}.{}", p64, s64);
    let r = verify_license(&token, &trusted_key_b64(), &mc, TODAY);
    assert_eq!(r, Err(LicenseError::SignatureInvalid));
}

#[test]
fn mutated_signature_fails() {
    let mc = host_machine_code();
    let payload = payload_for(&mc, "2099-01-01");
    let mut sig = signing_key().sign(&payload).to_bytes();
    sig[10] ^= 0xff;
    let p64 = base64::engine::general_purpose::URL_SAFE_NO_PAD.encode(&payload);
    let s64 = base64::engine::general_purpose::URL_SAFE_NO_PAD.encode(sig);
    let token = format!("{}.{}", p64, s64);
    let r = verify_license(&token, &trusted_key_b64(), &mc, TODAY);
    assert_eq!(r, Err(LicenseError::SignatureInvalid));
}

#[test]
fn expires_yesterday_fails_expired() {
    let mc = host_machine_code();
    let token = make_token(&payload_for(&mc, "2024-06-14"));
    let r = verify_license(&token, &trusted_key_b64(), &mc, TODAY);
    assert_eq!(r, Err(LicenseError::Expired));
}

#[test]
fn expires_today_still_valid() {
    let mc = host_machine_code();
    let token = make_token(&payload_for(&mc, "2024-06-15"));
    let r = verify_license(&token, &trusted_key_b64(), &mc, TODAY);
    assert_eq!(r, Ok(true));
}

#[test]
fn token_without_dot_is_malformed() {
    let mc = host_machine_code();
    let r = verify_license("nodotatall", &trusted_key_b64(), &mc, TODAY);
    assert_eq!(r, Err(LicenseError::MalformedToken));
}

#[test]
fn token_with_two_dots_is_malformed() {
    let mc = host_machine_code();
    let r = verify_license("a.b.c", &trusted_key_b64(), &mc, TODAY);
    assert_eq!(r, Err(LicenseError::MalformedToken));
}

#[test]
fn token_with_bad_base64_fails_encoding() {
    let mc = host_machine_code();
    let r = verify_license("!!bad!!.AAAA", &trusted_key_b64(), &mc, TODAY);
    assert_eq!(r, Err(LicenseError::TokenEncoding));
}

#[test]
fn padded_segment_fails_encoding() {
    // The token segments are base64url without padding: a padded segment is
    // rejected by the decoder.
    let mc = host_machine_code();
    let r = verify_license("AA==.AAAA", &trusted_key_b64(), &mc, TODAY);
    assert_eq!(r, Err(LicenseError::TokenEncoding));
}

#[test]
fn bad_key_text_fails_key_encoding() {
    let mc = host_machine_code();
    let token = make_token(&payload_for(&mc, "2099-01-01"));
    let r = verify_license(&token, "!!!not base64!!!", &mc, TODAY);
    assert_eq!(r, Err(LicenseError::KeyEncoding));
}

#[test]
fn short_key_blob_fails() {
    let mc = host_machine_code();
    let token = make_token(&payload_for(&mc, "2099-01-01"));
    let short = base64::engine::general_purpose::STANDARD.encode([1u8; 16]);
    let r = verify_license(&token, &short, &mc, TODAY);
    assert_eq!(r, Err(LicenseError::KeyTooShort));
}

#[test]
fn short_signature_fails_length() {
    let mc = host_machine_code();
    let payload = payload_for(&mc, "2099-01-01");
    let p64 = base64::engine::general_purpose::URL_SAFE_NO_PAD.encode(&payload);
    let s64 = base64::engine::general_purpose::URL_SAFE_NO_PAD.encode([0u8; 10]);
    let token = format!("{}.{}", p64, s64);
    let r = verify_license(&token, &trusted_key_b64(), &mc, TODAY);
    assert_eq!(r, Err(LicenseError::SignatureLength));
}

#[test]
fn non_json_payload_fails_format() {
    let mc = host_machine_code();
    let token = make_token(b"this is not json");
    let r = verify_license(&token, &trusted_key_b64(), &mc, TODAY);
    assert_eq!(r, Err(LicenseError::PayloadFormat));
}

#[test]
fn wrong_device_fails_binding() {
    let mc = host_machine_code();
    let token = make_token(&payload_for("feed-beef", "2099-01-01"));
    let r = verify_license(&token, &trusted_key_b64(), &mc, TODAY);
    assert_eq!(r, Err(LicenseError::DeviceMismatch));
}

#[test]
fn bad_expiry_text_fails_format() {
    let mc = host_machine_code();
    let token = make_token(&payload_for(&mc, "not-a-date"));
    let r = verify_license(&token, &trusted_key_b64(), &mc, TODAY);
    assert_eq!(r, Err(LicenseError::ExpiryFormat));
}

#[test]
fn impossible_calendar_date_fails_format() {
    let mc = host_machine_code();
    let token = make_token(&payload_for(&mc, "2023-02-29"));
    let r = verify_license(&token, &trusted_key_b64(), &mc, TODAY);
    assert_eq!(r, Err(LicenseError::ExpiryFormat));
}

#[test]
fn fresh_install_is_not_activated() {
    let mc = host_machine_code();
    assert!(!is_software_activated(None, &trusted_key_b64(), &mc, TODAY));
}

#[test]
fn cached_bad_token_is_not_activated() {
    let mc = host_machine_code();
    assert!(!is_software_activated(Some("garbage"), &trusted_key_b64(), &mc, TODAY));
}

#[test]
fn cached_valid_token_is_activated() {
    let mc = host_machine_code();
    let token = make_token(&payload_for(&mc, "2099-01-01"));
    assert!(is_software_activated(Some(&token), &trusted_key_b64(), &mc, TODAY));
}

#[test]
fn invalid_key_point_fails_key_build() {
    let mc = host_machine_code();
    let token = make_token(&payload_for(&mc, "2099-01-01"));
    // A 32-byte pattern that is not a valid Ed25519 verifying key.
    let bad = (0u8..=255)
        .map(|b| [b; 32])
        .find(|k| ed25519_dalek::VerifyingKey::from_bytes(k).is_err())
        .unwrap();
    let mut blob = vec![0u8; 12];
    blob.extend_from_slice(&bad);
    let key_b64 = base64::engine::general_purpose::STANDARD.encode(&blob);
    let r = verify_license(&token, &key_b64, &mc, TODAY);
    assert_eq!(r, Err(LicenseError::InvalidKey));
}
