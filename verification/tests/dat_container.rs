use ezlotter_core::container::{decrypt_dat_file, DatError};

const CSV_PLAINTEXT: &[u8] = b"prize,manual_code,security_code\n100,AAA-1,SEC-1\n200,BBB-2,SEC-2\n";

// A deterministic RSA key pair for the round trip; generation is seeded by
// openssl's RNG, so the pair is made once per test via generate.
fn rsa_key() -> openssl::rsa::Rsa<openssl::pkey::Private> {
    openssl::rsa::Rsa::generate(2048).unwrap()
}

fn build_container(
    rsa: &openssl::rsa::Rsa<openssl::pkey::Private>,
    plaintext: &[u8],
) -> Vec<u8> {
    let sym_key = [0x42u8; 32];
    let iv = [0x07u8; 12];
    let mut wrapped = vec![0u8; rsa.size() as usize];
    let n = rsa
        .public_encrypt(&sym_key, &mut wrapped, openssl::rsa::Padding::PKCS1)
        .unwrap();
    wrapped.truncate(n);
    let mut tag = [0u8; 16];
    let ciphertext = openssl::symm::encrypt_aead(
        openssl::symm::Cipher::aes_256_gcm(),
        &sym_key,
        Some(&iv),
        &[],
        plaintext,
        &mut tag,
    )
    .unwrap();
    let mut out = Vec::new();
    out.extend_from_slice(b"EZLOTTER");
    out.push(1);
    out.extend_from_slice(&[0, 0, 0]);
    out.extend_from_slice(&(wrapped.len() as u16).to_le_bytes());
    out.extend_from_slice(&wrapped);
    out.extend_from_slice(&iv);
    out.extend_from_slice(&tag);
    out.extend_from_slice(&ciphertext);
    out
}

#[test]
fn round_trip_reproduces_plaintext() {
    let rsa = rsa_key();
    let pem = rsa.private_key_to_pem().unwrap();
    let container = build_container(&rsa, CSV_PLAINTEXT);
    let r = decrypt_dat_file(&container, &pem);
    assert_eq!(r, Ok(CSV_PLAINTEXT.to_vec()));
}

#[test]
fn wrong_magic_fails_before_any_crypto() {
    let rsa = rsa_key();
    let mut container = build_container(&rsa, CSV_PLAINTEXT);
    container[0] = b'X';
    // An intentionally invalid private key: were any cryptographic step
    // attempted, the error would name the key, not the format.
    let garbage_pem = b"not a pem at all".to_vec();
    let r = decrypt_dat_file(&container, &garbage_pem);
    assert_eq!(r, Err(DatError::BadMagic));
}

#[test]
fn corrupted_tag_fails_with_no_plaintext() {
    let rsa = rsa_key();
    let pem = rsa.private_key_to_pem().unwrap();
    let mut container = build_container(&rsa, CSV_PLAINTEXT);
    let tag_offset = 14 + rsa.size() as usize + 12;
    container[tag_offset] ^= 0xff;
    let r = decrypt_dat_file(&container, &pem);
    assert_eq!(r, Err(DatError::AuthFailed));
}

#[test]
fn corrupted_ciphertext_fails_authentication() {
    let rsa = rsa_key();
    let pem = rsa.private_key_to_pem().unwrap();
    let mut container = build_container(&rsa, CSV_PLAINTEXT);
    let last = container.len() - 1;
    container[last] ^= 0x01;
    let r = decrypt_dat_file(&container, &pem);
    assert_eq!(r, Err(DatError::AuthFailed));
}

#[test]
fn wrong_private_key_fails_key_unwrap() {
    let rsa = rsa_key();
    let other = rsa_key();
    let pem = other.private_key_to_pem().unwrap();
    let container = build_container(&rsa, CSV_PLAINTEXT);
    let r = decrypt_dat_file(&container, &pem);
    assert_eq!(r, Err(DatError::KeyUnwrapFailed));
}

#[test]
fn bad_private_key_text_is_distinct() {
    let rsa = rsa_key();
    let container = build_container(&rsa, CSV_PLAINTEXT);
    let r = decrypt_dat_file(&container, &b"junk".to_vec());
    assert_eq!(r, Err(DatError::BadPrivateKey));
}

#[test]
fn unsupported_version_names_the_byte() {
    let rsa = rsa_key();
    let pem = rsa.private_key_to_pem().unwrap();
    let mut container = build_container(&rsa, CSV_PLAINTEXT);
    container[8] = 3;
    let r = decrypt_dat_file(&container, &pem);
    assert_eq!(r, Err(DatError::UnsupportedVersion(3)));
}

#[test]
fn truncations_name_the_field() {
    let rsa = rsa_key();
    let pem = rsa.private_key_to_pem().unwrap();
    let full = build_container(&rsa, CSV_PLAINTEXT);
    let cut = |n: usize| decrypt_dat_file(&full[..n].to_vec(), &pem);
    assert_eq!(cut(5), Err(DatError::HeaderTruncated));
    assert_eq!(cut(8), Err(DatError::VersionTruncated));
    assert_eq!(cut(10), Err(DatError::ReservedTruncated));
    assert_eq!(cut(13), Err(DatError::KeyLenTruncated));
    assert_eq!(cut(20), Err(DatError::KeyTruncated));
    let klen = rsa.size() as usize;
    assert_eq!(cut(14 + klen + 5), Err(DatError::IvTruncated));
    assert_eq!(cut(14 + klen + 12 + 7), Err(DatError::TagTruncated));
}

#[test]
fn empty_ciphertext_round_trips() {
    let rsa = rsa_key();
    let pem = rsa.private_key_to_pem().unwrap();
    let container = build_container(&rsa, b"");
    let r = decrypt_dat_file(&container, &pem);
    assert_eq!(r, Ok(Vec::new()));
}
