//! The encrypted `.dat` container: bit-exact framing of the magic tag,
//! version, key length, wrapped key, IV, tag and ciphertext, then RSA
//! unwrapping of the symmetric key and AES-256-GCM authenticated decryption.
use vstd::prelude::*;

verus! {

/// The distinct reasons a container is rejected, one per framing field and
/// one per cryptographic step.
#[derive(Clone, Copy, PartialEq, Eq, Structural, Debug)]
pub enum DatError {
    /// Too short to hold the 8-byte magic tag.
    HeaderTruncated,
    /// The first 8 bytes are not the literal tag.
    BadMagic,
    /// Too short to hold the version byte.
    VersionTruncated,
    /// The version byte is not the single supported value; carries the byte
    /// found.
    UnsupportedVersion(u8),
    /// Too short to hold the 3 reserved bytes.
    ReservedTruncated,
    /// Too short to hold the 2-byte key length.
    KeyLenTruncated,
    /// Too short to hold the wrapped key the key length announces.
    KeyTruncated,
    /// Too short to hold the 12-byte initialization vector.
    IvTruncated,
    /// Too short to hold the 16-byte authentication tag.
    TagTruncated,
    /// The embedded RSA private key text does not parse.
    BadPrivateKey,
    /// The wrapped symmetric key does not decrypt under the private key.
    KeyUnwrapFailed,
    /// Authenticated decryption failed: tag mismatch or cipher failure.
    AuthFailed,
}

/// The literal ASCII tag `EZLOTTER` that opens every container.
pub open spec fn magic_tag() -> Seq<u8> {
    seq![69u8, 90u8, 76u8, 79u8, 84u8, 84u8, 69u8, 82u8]
}

/// The single supported container version.
pub open spec fn supported_version() -> u8 {
    1u8
}

/// Whether an RSA private key in PEM form parses; pinned down only by the
/// trusted wrapper below.
pub uninterp spec fn rsa_pem_ok(pem: Seq<u8>) -> bool;

/// What PKCS#1 v1.5 RSA decryption of a wrapped key yields under a private
/// key, if it succeeds; pinned down only by the trusted wrapper below.
pub uninterp spec fn rsa_pkcs1_unwrap(pem: Seq<u8>, wrapped: Seq<u8>) -> Option<Seq<u8>>;

/// The two ways unwrapping the symmetric key can fail.
#[derive(Clone, Copy, PartialEq, Eq, Structural, Debug)]
pub enum KeyUnwrapError {
    /// The private key text does not parse as a PEM RSA key.
    BadPrivateKey,
    /// RSA decryption of the wrapped key failed.
    DecryptFailed,
}

/// Relies on openssl's `Rsa::private_key_from_pem` and `private_decrypt`
/// with `Padding::PKCS1`: both pure functions of the key text and the
/// ciphertext bytes. The recovered key is at most `RSA_size` bytes, and
/// OpenSSL reports that size as a positive C int, so it fits the same
/// length limit.
#[verifier::external_body]
fn rsa_unwrap_key(pem: &Vec<u8>, wrapped: &Vec<u8>) -> (r: Result<Vec<u8>, KeyUnwrapError>)
    requires
        wrapped@.len() <= 0x7fffffff,
    ensures
        match r {
            Ok(k) => rsa_pem_ok(pem@) && rsa_pkcs1_unwrap(pem@, wrapped@) == Some(k@)
                && k@.len() <= 0x7fffffff,
            Err(KeyUnwrapError::BadPrivateKey) => !rsa_pem_ok(pem@),
            Err(KeyUnwrapError::DecryptFailed) => rsa_pem_ok(pem@) && rsa_pkcs1_unwrap(
                pem@,
                wrapped@,
            ) is None,
        },
{
    let rsa = match openssl::rsa::Rsa::private_key_from_pem(pem.as_slice()) {
        Ok(r) => r,
        Err(_) => return Err(KeyUnwrapError::BadPrivateKey),
    };
    let mut buf = vec![0u8; rsa.size() as usize];
    match rsa.private_decrypt(wrapped.as_slice(), &mut buf, openssl::rsa::Padding::PKCS1) {
        Ok(n) => {
            buf.truncate(n);
            Ok(buf)
        },
        Err(_) => Err(KeyUnwrapError::DecryptFailed),
    }
}

/// What AES-256-GCM authenticated decryption yields for a key, IV,
/// ciphertext and tag with empty associated data, if the tag verifies;
/// pinned down only by the trusted wrapper below.
pub uninterp spec fn aes256_gcm_plaintext(
    key: Seq<u8>,
    iv: Seq<u8>,
    ciphertext: Seq<u8>,
    tag: Seq<u8>,
) -> Option<Seq<u8>>;

/// Relies on openssl's `symm::decrypt_aead` with `Cipher::aes_256_gcm` and
/// empty associated data: a pure function of key, IV, ciphertext and tag
/// that yields nothing when the tag does not authenticate (a wrong-length
/// key deterministically fails the same way). Each buffer length is fed to
/// OpenSSL as a C int, and the conversion aborts past `i32::MAX`, so the
/// lengths are bounded here: the key and ciphertext by that limit, the IV
/// and tag to the sizes this container format fixes.
#[verifier::external_body]
fn aes256_gcm_decrypt(key: &Vec<u8>, iv: &Vec<u8>, ciphertext: &Vec<u8>, tag: &Vec<u8>) -> (r:
    Option<Vec<u8>>)
    requires
        key@.len() <= 0x7fffffff,
        iv@.len() == 12,
        tag@.len() == 16,
        ciphertext@.len() <= 0x7fffffff,
    ensures
        match r {
            Some(p) => aes256_gcm_plaintext(key@, iv@, ciphertext@, tag@) == Some(p@),
            None => aes256_gcm_plaintext(key@, iv@, ciphertext@, tag@) is None,
        },
{
    openssl::symm::decrypt_aead(
        openssl::symm::Cipher::aes_256_gcm(),
        key.as_slice(),
        Some(iv.as_slice()),
        &[],
        ciphertext.as_slice(),
        tag.as_slice(),
    ).ok()
}

/// The announced length of the wrapped key: 2 bytes little-endian at offset
/// 12.
pub open spec fn key_len_of(data: Seq<u8>) -> int {
    data[12] + 256 * data[13]
}

/// The outcome decryption owes for a container and a private key: the
/// plaintext exactly when the framing is bit-exact and both cryptographic
/// steps succeed, and otherwise the error of the first field or step that
/// fails, in file order.
pub open spec fn decrypt_outcome(data: Seq<u8>, pem: Seq<u8>) -> Result<Seq<u8>, DatError> {
    if data.len() < 8 {
        Err(DatError::HeaderTruncated)
    } else if data.take(8) != magic_tag() {
        Err(DatError::BadMagic)
    } else if data.len() < 9 {
        Err(DatError::VersionTruncated)
    } else if data[8] != supported_version() {
        Err(DatError::UnsupportedVersion(data[8]))
    } else if data.len() < 12 {
        Err(DatError::ReservedTruncated)
    } else if data.len() < 14 {
        Err(DatError::KeyLenTruncated)
    } else {
        let klen = key_len_of(data);
        if data.len() < 14 + klen {
            Err(DatError::KeyTruncated)
        } else if data.len() < 26 + klen {
            Err(DatError::IvTruncated)
        } else if data.len() < 42 + klen {
            Err(DatError::TagTruncated)
        } else {
            let wrapped = data.subrange(14, 14 + klen);
            let iv = data.subrange(14 + klen, 26 + klen);
            let tag = data.subrange(26 + klen, 42 + klen);
            let body = data.skip(42 + klen);
            if !rsa_pem_ok(pem) {
                Err(DatError::BadPrivateKey)
            } else {
                match rsa_pkcs1_unwrap(pem, wrapped) {
                    None => Err(DatError::KeyUnwrapFailed),
                    Some(key) => match aes256_gcm_plaintext(key, iv, body, tag) {
                        None => Err(DatError::AuthFailed),
                        Some(plain) => Ok(plain),
                    },
                }
            }
        }
    }
}

/// Copies `data[start..end]` into a fresh vector.
fn copy_range(data: &Vec<u8>, start: usize, end: usize) -> (r: Vec<u8>)
    requires
        start <= end <= data@.len(),
    ensures
        r@ == data@.subrange(start as int, end as int),
{
    let mut out: Vec<u8> = Vec::new();
    let mut i: usize = start;
    while i < end
        invariant
            start <= i <= end <= data@.len(),
            out@ == data@.subrange(start as int, i as int),
        decreases end - i,
    {
        out.push(data[i]);
        proof {
            assert(out@ =~= data@.subrange(start as int, i + 1int));
        }
        i = i + 1;
    }
    out
}

/// Parses and decrypts a `.dat` container under the embedded RSA private
/// key, returning the plaintext CSV bytes; all-or-nothing, never partial
/// plaintext. The container must fit the cipher's `i32::MAX` length limit,
/// a machine bound far above expected file sizes.
pub fn decrypt_dat_file(data: &Vec<u8>, private_key_pem: &Vec<u8>) -> (r: Result<Vec<u8>, DatError>)
    requires
        data@.len() <= 0x7fffffff,
    ensures
        match r {
            Ok(p) => decrypt_outcome(data@, private_key_pem@) == Ok::<Seq<u8>, DatError>(p@),
            Err(e) => decrypt_outcome(data@, private_key_pem@) == Err::<Seq<u8>, DatError>(e),
        },
{
    if data.len() < 8 {
        return Err(DatError::HeaderTruncated);
    }
    if data[0] != 69 || data[1] != 90 || data[2] != 76 || data[3] != 79 || data[4] != 84 || data[5]
        != 84 || data[6] != 69 || data[7] != 82 {
        proof {
            assert(data@.take(8) != magic_tag());
        }
        return Err(DatError::BadMagic);
    }
    proof {
        assert(data@.take(8) =~= magic_tag());
    }
    if data.len() < 9 {
        return Err(DatError::VersionTruncated);
    }
    if data[8] != 1 {
        return Err(DatError::UnsupportedVersion(data[8]));
    }
    if data.len() < 12 {
        return Err(DatError::ReservedTruncated);
    }
    if data.len() < 14 {
        return Err(DatError::KeyLenTruncated);
    }
    let klen: usize = data[12] as usize + 256 * data[13] as usize;
    if data.len() < 14 + klen {
        return Err(DatError::KeyTruncated);
    }
    if data.len() < 26 + klen {
        return Err(DatError::IvTruncated);
    }
    if data.len() < 42 + klen {
        return Err(DatError::TagTruncated);
    }
    let wrapped = copy_range(data, 14, 14 + klen);
    let iv = copy_range(data, 14 + klen, 26 + klen);
    let tag = copy_range(data, 26 + klen, 42 + klen);
    let body = copy_range(data, 42 + klen, data.len());
    proof {
        assert(body@ =~= data@.skip(42 + klen as int));
    }
    let key = match rsa_unwrap_key(private_key_pem, &wrapped) {
        Ok(k) => k,
        Err(KeyUnwrapError::BadPrivateKey) => {
            return Err(DatError::BadPrivateKey);
        },
        Err(KeyUnwrapError::DecryptFailed) => {
            return Err(DatError::KeyUnwrapFailed);
        },
    };
    match aes256_gcm_decrypt(&key, &iv, &body, &tag) {
        Some(plain) => Ok(plain),
        None => Err(DatError::AuthFailed),
    }
}

} // verus!
