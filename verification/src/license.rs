//! License token verification: token splitting, base64url decoding, Ed25519
//! signature checking against the trusted key, payload decoding, device
//! binding and expiry checking.
use vstd::prelude::*;
use vstd::string::StrSliceExecFns;
use base64::Engine;
use ed25519_dalek::Verifier;
use crate::date::{Date, parse_date, parse_date_spec, date_after, is_past_expiry};
use crate::machine::{strip_dashes, codes_match};

verus! {

/// The distinct reasons a license token is rejected, one per verification
/// step.
#[derive(Clone, Copy, PartialEq, Eq, Structural, Debug)]
pub enum LicenseError {
    /// The token is not exactly two `.`-separated segments.
    MalformedToken,
    /// A token segment is not valid base64url without padding.
    TokenEncoding,
    /// The embedded trusted key is not valid standard base64.
    KeyEncoding,
    /// The decoded trusted key blob is shorter than a raw key.
    KeyTooShort,
    /// The raw key bytes are not a valid Ed25519 verifying key.
    InvalidKey,
    /// The decoded signature is not exactly 64 bytes.
    SignatureLength,
    /// The signature does not verify over the payload bytes.
    SignatureInvalid,
    /// The verified payload is not the expected JSON structure.
    PayloadFormat,
    /// The payload device id does not match this machine's code.
    DeviceMismatch,
    /// The payload expiry is not a valid `YYYY-MM-DD` date.
    ExpiryFormat,
    /// The current date is strictly after the expiry date.
    Expired,
}

/// What base64url (no padding) decoding yields on a text, if it decodes;
/// pinned down only by the trusted wrapper below.
pub uninterp spec fn b64url_decode(s: Seq<char>) -> Option<Seq<u8>>;

/// Relies on base64's `URL_SAFE_NO_PAD` engine `decode`: a pure function of
/// the input text that rejects padded or non-alphabet input.
#[verifier::external_body]
fn base64url_decode(s: &str) -> (r: Option<Vec<u8>>)
    ensures
        match r {
            Some(v) => b64url_decode(s@) == Some(v@),
            None => b64url_decode(s@) is None,
        },
{
    base64::engine::general_purpose::URL_SAFE_NO_PAD.decode(s).ok()
}

/// What standard base64 (with padding) decoding yields on a text, if it
/// decodes; pinned down only by the trusted wrapper below.
pub uninterp spec fn b64std_decode(s: Seq<char>) -> Option<Seq<u8>>;

/// Relies on base64's `STANDARD` engine `decode`: a pure function of the
/// input text.
#[verifier::external_body]
fn base64std_decode(s: &str) -> (r: Option<Vec<u8>>)
    ensures
        match r {
            Some(v) => b64std_decode(s@) == Some(v@),
            None => b64std_decode(s@) is None,
        },
{
    base64::engine::general_purpose::STANDARD.decode(s).ok()
}

/// Whether 32 bytes are a valid Ed25519 verifying key encoding; pinned down
/// only by the trusted wrapper below.
pub uninterp spec fn ed25519_key_valid(key: Seq<u8>) -> bool;

/// Relies on ed25519_dalek's `VerifyingKey::from_bytes`: succeeds exactly on
/// the 32-byte encodings of valid curve points, a pure function of the bytes.
#[verifier::external_body]
fn ed25519_check_key(key: &Vec<u8>) -> (r: bool)
    requires
        key@.len() == 32,
    ensures
        r == ed25519_key_valid(key@),
{
    let arr: [u8; 32] = match key.as_slice().try_into() {
        Ok(a) => a,
        Err(_) => return false,
    };
    ed25519_dalek::VerifyingKey::from_bytes(&arr).is_ok()
}

/// Whether a 64-byte signature verifies over a message under a 32-byte key;
/// pinned down only by the trusted wrapper below.
pub uninterp spec fn ed25519_verifies(key: Seq<u8>, msg: Seq<u8>, sig: Seq<u8>) -> bool;

/// Relies on ed25519_dalek's `Verifier::verify` (with `VerifyingKey::from_bytes`
/// and `Signature::from_bytes` converting the arguments): deterministic in the
/// key, message and signature bytes.
#[verifier::external_body]
fn ed25519_verify(key: &Vec<u8>, msg: &Vec<u8>, sig: &Vec<u8>) -> (r: bool)
    requires
        key@.len() == 32,
        sig@.len() == 64,
        ed25519_key_valid(key@),
    ensures
        r == ed25519_verifies(key@, msg@, sig@),
{
    let ka: [u8; 32] = key.as_slice().try_into().unwrap();
    let sa: [u8; 64] = sig.as_slice().try_into().unwrap();
    let vk = match ed25519_dalek::VerifyingKey::from_bytes(&ka) {
        Ok(k) => k,
        Err(_) => return false,
    };
    let sig = ed25519_dalek::Signature::from_bytes(&sa);
    vk.verify(msg.as_slice(), &sig).is_ok()
}

/// What the payload bytes parse to as license JSON, if they parse: the
/// device id, the expiry text and the feature list; pinned down only by the
/// trusted wrapper below.
pub uninterp spec fn license_payload_of(bytes: Seq<u8>) -> Option<(Seq<char>, Seq<char>, Seq<Seq<char>>)>;

/// Relies on serde_json's `from_slice` and `Value` accessors: parses the
/// payload object `{"device_id": string, "expires": string, "features":
/// [string, ...]}`, a pure function of the input bytes. A duplicated field
/// keeps the last value, serde_json's object semantics.
#[verifier::external_body]
fn parse_license_payload(bytes: &Vec<u8>) -> (r: Option<(String, String, Vec<String>)>)
    ensures
        match r {
            Some(p) => license_payload_of(bytes@) == Some((p.0@, p.1@, p.2.deep_view())),
            None => license_payload_of(bytes@) is None,
        },
{
    let v: serde_json::Value = serde_json::from_slice(bytes.as_slice()).ok()?;
    let device = v.get("device_id")?.as_str()?.to_string();
    let expires = v.get("expires")?.as_str()?.to_string();
    let mut feats: Vec<String> = Vec::new();
    for f in v.get("features")?.as_array()? {
        feats.push(f.as_str()?.to_string());
    }
    Some((device, expires, feats))
}

/// How many `.` characters a text holds.
pub open spec fn dot_count(s: Seq<char>) -> int
    decreases s.len(),
{
    if s.len() == 0 {
        0
    } else {
        dot_count(s.drop_last()) + if s.last() == '.' { 1int } else { 0int }
    }
}

/// The index of the first `.`, or the length when there is none.
pub open spec fn first_dot(s: Seq<char>) -> int
    decreases s.len(),
{
    if s.len() == 0 {
        0
    } else if s.first() == '.' {
        0
    } else {
        1 + first_dot(s.drop_first())
    }
}

proof fn lemma_first_dot_is(s: Seq<char>, i: int)
    requires
        0 <= i <= s.len(),
        forall|k: int| 0 <= k < i ==> s[k] != '.',
        i == s.len() || s[i] == '.',
    ensures
        first_dot(s) == i,
    decreases i,
{
    if s.len() == 0 {
    } else if i == 0 {
    } else {
        assert(s.first() != '.');
        lemma_first_dot_is(s.drop_first(), i - 1);
    }
}

/// The payload segment of a token: everything before the first dot.
pub open spec fn token_payload_part(t: Seq<char>) -> Seq<char> {
    t.take(first_dot(t))
}

/// The signature segment of a token: everything after the first dot.
pub open spec fn token_sig_part(t: Seq<char>) -> Seq<char> {
    t.skip(first_dot(t) + 1)
}

/// Scans a token for its single separating dot: the index of the first dot
/// when the token holds exactly one, `None` otherwise.
fn find_single_dot(t: &str) -> (r: Option<usize>)
    ensures
        match r {
            Some(i) => dot_count(t@) == 1 && i == first_dot(t@) && i < t@.len(),
            None => dot_count(t@) != 1,
        },
{
    let n = t.unicode_len();
    let mut i: usize = 0;
    let mut count: usize = 0;
    let mut first: usize = 0;
    while i < n
        invariant
            i <= n,
            n == t@.len(),
            count <= i,
            count == dot_count(t@.take(i as int)),
            count == 0 ==> forall|k: int| 0 <= k < i ==> t@[k] != '.',
            count > 0 ==> first < i && t@[first as int] == '.' && forall|k: int|
                0 <= k < first ==> t@[k] != '.',
        decreases n - i,
    {
        let c = t.get_char(i);
        if c == '.' && count == 0 {
            first = i;
        }
        if c == '.' {
            count = count + 1;
        }
        proof {
            let pre = t@.take(i + 1int);
            assert(pre.drop_last() =~= t@.take(i as int));
            assert(pre.last() == t@[i as int]);
        }
        i = i + 1;
    }
    proof {
        assert(t@.take(n as int) =~= t@);
    }
    if count == 1 {
        proof {
            lemma_first_dot_is(t@, first as int);
        }
        Some(first)
    } else {
        None
    }
}

/// The outcome license verification owes for a token, the embedded trusted
/// key text, this machine's code and the current date: `Ok(true)` exactly
/// when every step succeeds, and otherwise the error of the first step that
/// fails, in the order the steps run.
pub open spec fn verify_outcome(
    token: Seq<char>,
    key_b64: Seq<char>,
    machine_code: Seq<char>,
    today: Date,
) -> Result<bool, LicenseError> {
    if dot_count(token) != 1 {
        Err(LicenseError::MalformedToken)
    } else if b64url_decode(token_payload_part(token)) is None || b64url_decode(
        token_sig_part(token),
    ) is None {
        Err(LicenseError::TokenEncoding)
    } else {
        let payload = b64url_decode(token_payload_part(token)).unwrap();
        let sig = b64url_decode(token_sig_part(token)).unwrap();
        if b64std_decode(key_b64) is None {
            Err(LicenseError::KeyEncoding)
        } else {
            let blob = b64std_decode(key_b64).unwrap();
            if blob.len() < 32 {
                Err(LicenseError::KeyTooShort)
            } else {
                let key = blob.skip(blob.len() - 32);
                if !ed25519_key_valid(key) {
                    Err(LicenseError::InvalidKey)
                } else if sig.len() != 64 {
                    Err(LicenseError::SignatureLength)
                } else if !ed25519_verifies(key, payload, sig) {
                    Err(LicenseError::SignatureInvalid)
                } else {
                    match license_payload_of(payload) {
                        None => Err(LicenseError::PayloadFormat),
                        Some(p) => {
                            if strip_dashes(p.0) != strip_dashes(machine_code) {
                                Err(LicenseError::DeviceMismatch)
                            } else {
                                match parse_date_spec(p.1) {
                                    None => Err(LicenseError::ExpiryFormat),
                                    Some(exp) => {
                                        if date_after(today, exp) {
                                            Err(LicenseError::Expired)
                                        } else {
                                            Ok(true)
                                        }
                                    },
                                }
                            }
                        },
                    }
                }
            }
        }
    }
}

/// A token is accepted exactly when it is well-formed, both segments and the
/// key decode, the signature verifies over the payload under the trailing 32
/// key bytes, the payload parses, the device id matches the machine code up
/// to dashes, and the expiry date is today or later.
pub open spec fn license_valid(
    token: Seq<char>,
    key_b64: Seq<char>,
    machine_code: Seq<char>,
    today: Date,
) -> bool {
    &&& dot_count(token) == 1
    &&& b64url_decode(token_payload_part(token)) is Some
    &&& b64url_decode(token_sig_part(token)) is Some
    &&& b64std_decode(key_b64) is Some
    &&& b64std_decode(key_b64).unwrap().len() >= 32
    &&& {
        let payload = b64url_decode(token_payload_part(token)).unwrap();
        let sig = b64url_decode(token_sig_part(token)).unwrap();
        let blob = b64std_decode(key_b64).unwrap();
        let key = blob.skip(blob.len() - 32);
        &&& ed25519_key_valid(key)
        &&& sig.len() == 64
        &&& ed25519_verifies(key, payload, sig)
        &&& license_payload_of(payload) is Some
        &&& {
            let p = license_payload_of(payload).unwrap();
            &&& strip_dashes(p.0) == strip_dashes(machine_code)
            &&& parse_date_spec(p.1) is Some
            &&& !date_after(today, parse_date_spec(p.1).unwrap())
        }
    }
}

/// Verification returns `Ok(true)` exactly on valid licenses: every other
/// outcome is an error naming the step that failed.
pub proof fn lemma_verify_ok_iff_valid(
    token: Seq<char>,
    key_b64: Seq<char>,
    machine_code: Seq<char>,
    today: Date,
)
    ensures
        verify_outcome(token, key_b64, machine_code, today) == Ok::<bool, LicenseError>(true)
            <==> license_valid(token, key_b64, machine_code, today),
        verify_outcome(token, key_b64, machine_code, today) is Ok ==> verify_outcome(
            token,
            key_b64,
            machine_code,
            today,
        ) == Ok::<bool, LicenseError>(true),
{
}

/// Verifies a license token against the embedded trusted key text, this
/// machine's code and the current date.
pub fn verify_license(license: &str, trusted_key_b64: &str, machine_code: &str, today: Date) -> (r:
    Result<bool, LicenseError>)
    ensures
        r == verify_outcome(license@, trusted_key_b64@, machine_code@, today),
{
    let sep = match find_single_dot(license) {
        Some(i) => i,
        None => {
            return Err(LicenseError::MalformedToken);
        },
    };
    let n = license.unicode_len();
    let payload_b64 = license.substring_char(0, sep);
    let sig_b64 = license.substring_char(sep + 1, n);
    proof {
        assert(payload_b64@ =~= token_payload_part(license@));
        assert(sig_b64@ =~= token_sig_part(license@));
    }
    let payload = match base64url_decode(payload_b64) {
        Some(v) => v,
        None => {
            return Err(LicenseError::TokenEncoding);
        },
    };
    let sig = match base64url_decode(sig_b64) {
        Some(v) => v,
        None => {
            return Err(LicenseError::TokenEncoding);
        },
    };
    let blob = match base64std_decode(trusted_key_b64) {
        Some(v) => v,
        None => {
            return Err(LicenseError::KeyEncoding);
        },
    };
    if blob.len() < 32 {
        return Err(LicenseError::KeyTooShort);
    }
    let start = blob.len() - 32;
    let mut key: Vec<u8> = Vec::new();
    let mut k: usize = 0;
    while k < 32
        invariant
            k <= 32,
            start == blob.len() - 32,
            blob@.len() >= 32,
            key@ == blob@.subrange(start as int, start as int + k as int),
        decreases 32 - k,
    {
        key.push(blob[start + k]);
        proof {
            assert(key@ =~= blob@.subrange(start as int, start as int + k as int + 1));
        }
        k = k + 1;
    }
    proof {
        assert(key@ =~= blob@.skip(blob@.len() - 32));
    }
    if !ed25519_check_key(&key) {
        return Err(LicenseError::InvalidKey);
    }
    if sig.len() != 64 {
        return Err(LicenseError::SignatureLength);
    }
    if !ed25519_verify(&key, &payload, &sig) {
        return Err(LicenseError::SignatureInvalid);
    }
    let parsed = match parse_license_payload(&payload) {
        Some(p) => p,
        None => {
            return Err(LicenseError::PayloadFormat);
        },
    };
    let (device_id, expires, _features) = parsed;
    if !codes_match(device_id.as_str(), machine_code) {
        return Err(LicenseError::DeviceMismatch);
    }
    let expiry = match parse_date(expires.as_str()) {
        Some(d) => d,
        None => {
            return Err(LicenseError::ExpiryFormat);
        },
    };
    if is_past_expiry(&today, &expiry) {
        return Err(LicenseError::Expired);
    }
    Ok(true)
}

/// The startup activation check over the cached token, if any: `false` on a
/// missing cache or any verification failure, `true` only for a cached token
/// that still verifies. Never an error.
pub fn is_software_activated(
    cached: Option<&str>,
    trusted_key_b64: &str,
    machine_code: &str,
    today: Date,
) -> (r: bool)
    ensures
        match cached {
            None => r == false,
            Some(t) => r == (verify_outcome(t@, trusted_key_b64@, machine_code@, today)
                == Ok::<bool, LicenseError>(true)),
        },
{
    match cached {
        None => false,
        Some(t) => match verify_license(t, trusted_key_b64, machine_code, today) {
            Ok(b) => b,
            Err(_) => false,
        },
    }
}

} // verus!
