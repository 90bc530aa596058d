//! Signing and verifying governance envelopes: the attestation is the
//! SHA-256 of the canonical envelope content, bound to the signer, and only
//! a process with governance privilege may produce one.
use vstd::prelude::*;
use vstd::string::StringSliceAdditionalSpecFns;
use vstd::utf8::encode_utf8;
use crate::json::Json;
use crate::text::str_eq;
use sha2::Digest;

verus! {

/// The SHA-256 digest of `data`.
pub uninterp spec fn sha256(data: Seq<u8>) -> Seq<u8>;

/// The SHA-256 digest of the bytes.
///
/// Calls `sha2::Sha256::digest`. The contract claims that the digest is a
/// function of the bytes alone, named `sha256`, and is 32 bytes long (the
/// hash's output size); nothing more of SHA-256 is stated.
#[verifier::external_body]
fn sha256_digest(data: &[u8]) -> (r: Vec<u8>)
    ensures
        r@ == sha256(data@),
        r@.len() == 32,
{
    sha2::Sha256::digest(data).to_vec()
}

/// The lowercase hexadecimal digit of a value below 16.
pub open spec fn hex_digit(d: u8) -> char {
    if d < 10 {
        (48u8 + d) as char
    } else {
        (97u8 + d - 10) as char
    }
}

/// Bytes as lowercase hexadecimal, two digits each.
pub open spec fn hex_of(bytes: Seq<u8>) -> Seq<char>
    decreases bytes.len(),
{
    if bytes.len() == 0 {
        Seq::empty()
    } else {
        hex_of(bytes.drop_last()) + seq![hex_digit(bytes.last() / 16), hex_digit(bytes.last() % 16)]
    }
}

fn hex_char(d: u8) -> (r: char)
    requires
        d < 16,
    ensures
        r == hex_digit(d),
{
    if d < 10 {
        (48u8 + d) as char
    } else {
        (97u8 + d - 10) as char
    }
}

/// The SHA-256 of bytes, in lowercase hexadecimal.
pub fn sha256_hex(bytes: &[u8]) -> (r: String)
    ensures
        r@ == hex_of(sha256(bytes@)),
{
    let digest = sha256_digest(bytes);
    let mut r = String::new();
    proof {
        reveal_strlit("");
    }
    let mut i: usize = 0;
    while i < digest.len()
        invariant
            i <= digest.len(),
            r@ == hex_of(digest@.subrange(0, i as int)),
        decreases digest.len() - i,
    {
        proof {
            assert(digest@.subrange(0, i + 1).drop_last() =~= digest@.subrange(0, i as int));
            assert(digest@.subrange(0, i + 1).last() == digest@[i as int]);
        }
        let b = digest[i];
        crate::text::push_char(&mut r, hex_char(b / 16));
        crate::text::push_char(&mut r, hex_char(b % 16));
        i += 1;
    }
    assert(digest@.subrange(0, digest.len() as int) =~= digest@);
    r
}

/// The SHA-256 of a text's UTF-8 bytes, in lowercase hexadecimal.
pub fn hash_hex(content: &str) -> (r: String)
    ensures
        r@ == hex_of(sha256(encode_utf8(content@))),
{
    sha256_hex(content.as_bytes())
}

/// A signed governance envelope: the canonical content and an attestation
/// binding its hash to the signer.
#[derive(Clone, Debug)]
pub struct SignedEnvelope {
    pub canonical: String,
    pub envelope_hash: String,
    pub signer: String,
}

/// The refusal to sign without governance privilege.
pub open spec fn privilege_message() -> Seq<char> {
    "signing a governance envelope requires admin/governance privilege \u{2014} run via the governance agent (sudo)"@
}

impl SignedEnvelope {
    /// Signs a governance config, given what canonicalizing it gave, with
    /// the privilege decision made by the caller: without privilege it is
    /// refused; a config that did not canonicalize is that error; otherwise
    /// the canonical content, its hash, and the signer.
    pub fn sign_with_privilege(canonical: Result<String, String>, signer: &str, privileged: bool) -> (r: Result<Self, String>)
        ensures
            !privileged ==> (r matches Err(e) && e@ == privilege_message()),
            privileged ==> match canonical {
                Err(c) => (r matches Err(e) && e@ == c@),
                Ok(c) => (r matches Ok(s) && s.canonical@ == c@ && s.envelope_hash@ == hex_of(
                    sha256(encode_utf8(c@)),
                ) && s.signer@ == signer@),
            },
    {
        if !privileged {
            return Err(
                "signing a governance envelope requires admin/governance privilege \u{2014} run via the governance agent (sudo)".to_owned(),
            );
        }
        let canonical = match canonical {
            Ok(c) => c,
            Err(e) => {
                return Err(e);
            },
        };
        let envelope_hash = hash_hex(canonical.as_str());
        Ok(SignedEnvelope { canonical, envelope_hash, signer: signer.to_owned() })
    }
}

/// The string member `key` of a JSON value.
pub open spec fn text_member(v: Json, key: Seq<char>) -> Option<Seq<char>> {
    match v.get_spec(key) {
        Some(m) => m.str_spec(),
        None => None,
    }
}

/// The outcome of verifying a signed envelope, given its parsed JSON and
/// what re-canonicalizing its resources gave: it must carry an attestation
/// with an envelope hash; the signer (`unknown` where unnamed) is verified
/// when the hash of the canonical content matches the attested one.
pub open spec fn verify_spec(value: Json, recanonical: Result<String, String>) -> Result<Seq<char>, Seq<char>> {
    match value.get_spec("attestation"@) {
        None => Err("envelope is not signed (no attestation)"@),
        Some(att) => match text_member(att, "envelope_hash"@) {
            None => Err("attestation has no envelope_hash"@),
            Some(attested) => match recanonical {
                Err(e) => Err(e@),
                Ok(c) => if hex_of(sha256(encode_utf8(c@))) == attested {
                    Ok(
                        match text_member(att, "signer"@) {
                            Some(s) => s,
                            None => "unknown"@,
                        },
                    )
                } else {
                    Err(
                        "signed envelope failed verification \u{2014} content does not match its attestation (tampered or re-edited without re-signing)"@,
                    )
                },
            },
        },
    }
}

/// Verifies a signed envelope, given its parsed JSON and what
/// re-canonicalizing its resources gave; the signer on success.
pub fn verify_signed_envelope(value: &Json, recanonical: Result<String, String>) -> (r: Result<String, String>)
    ensures
        match verify_spec(*value, recanonical) {
            Ok(s) => r matches Ok(x) && x@ == s,
            Err(e) => r matches Err(x) && x@ == e,
        },
{
    let att = match value.get("attestation") {
        Some(a) => a,
        None => {
            return Err("envelope is not signed (no attestation)".to_owned());
        },
    };
    let attested = match att.get("envelope_hash") {
        Some(h) => match h.as_str() {
            Some(h) => h,
            None => {
                return Err("attestation has no envelope_hash".to_owned());
            },
        },
        None => {
            return Err("attestation has no envelope_hash".to_owned());
        },
    };
    let signer = match att.get("signer") {
        Some(s) => match s.as_str() {
            Some(s) => s.to_owned(),
            None => "unknown".to_owned(),
        },
        None => "unknown".to_owned(),
    };
    let canonical = match recanonical {
        Ok(c) => c,
        Err(e) => {
            return Err(e);
        },
    };
    let hash = hash_hex(canonical.as_str());
    if str_eq(hash.as_str(), attested) {
        Ok(signer)
    } else {
        Err(
            "signed envelope failed verification \u{2014} content does not match its attestation (tampered or re-edited without re-signing)".to_owned(),
        )
    }
}

} // verus!
