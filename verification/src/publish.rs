//! Publishing to the Kumo registry: where a package goes, how its integrity is signed, and
//! how the registry's answers are read.
use vstd::prelude::*;
use rsa::pkcs8::DecodePrivateKey;
use sha2::Digest;
use vstd::string::StringSliceAdditionalSpecFns;
use crate::text::{strip_trailing, strip_trailing_vec, to_chars, string_of_all, str_eq, split_on, split_on_vec, views};
use crate::digest::{hex, hex_string};

verus! {

/// The Kumo registry, the only one that takes publications.
pub open spec fn kumo_registry() -> Seq<char> {
    "https://kumo.unsetsoft.com"@
}

/// The npm registry.
pub open spec fn npm_registry() -> Seq<char> {
    "https://registry.npmjs.org"@
}

/// Why a publication cannot go ahead.
#[derive(Clone, Debug, PartialEq, Eq)]
pub enum PublishError {
    /// The registry is not the Kumo registry.
    UnsupportedRegistry,
}

impl PublishError {
    /// The message of the error.
    pub fn message(&self) -> (r: &'static str)
        ensures
            r@ == "Publishing is only supported for the Kumo registry (https://kumo.unsetsoft.com)."@,
    {
        "Publishing is only supported for the Kumo registry (https://kumo.unsetsoft.com)."
    }
}

/// The registry that a publication goes to: the one given, without trailing slashes; else the
/// resolver's, with npm standing for Kumo. Only Kumo is accepted.
pub open spec fn publish_registry(given: Option<Seq<char>>, resolver_url: Seq<char>) -> Result<Seq<char>, ()> {
    let url = match given {
        Some(r) => strip_trailing(r, '/'),
        None => if resolver_url == npm_registry() { kumo_registry() } else { resolver_url },
    };
    if url == kumo_registry() { Ok(url) } else { Err(()) }
}

/// Executable `publish_registry`.
pub fn resolve_publish_registry(given: Option<&str>, resolver_url: &str) -> (r: Result<String, PublishError>)
    ensures
        (match r {
            Ok(u) => publish_registry(match given { Some(g) => Some(g@), None => None }, resolver_url@) == Ok::<Seq<char>, ()>(u@),
            Err(_) => publish_registry(match given { Some(g) => Some(g@), None => None }, resolver_url@) is Err,
        }),
{
    let url = match given {
        Some(r) => {
            let c = to_chars(r);
            let t = strip_trailing_vec(&c, '/');
            string_of_all(&t)
        },
        None => if str_eq(resolver_url, "https://registry.npmjs.org") {
            "https://kumo.unsetsoft.com".to_owned()
        } else {
            resolver_url.to_owned()
        },
    };
    if str_eq(url.as_str(), "https://kumo.unsetsoft.com") {
        Ok(url)
    } else {
        Err(PublishError::UnsupportedRegistry)
    }
}

/// The file name of a published tarball: the last `/`-part of the name, `-`, the version and
/// `.tgz`; and its URL under the registry.
pub open spec fn tarball_location(registry: Seq<char>, name: Seq<char>, version: Seq<char>) -> (Seq<char>, Seq<char>) {
    let file = split_on(name, '/').last() + seq!['-'] + version + ".tgz"@;
    (file, registry + seq!['/'] + name + "/-/"@ + file)
}

/// Executable `tarball_location`.
pub fn tarball_location_for(registry: &str, name: &str, version: &str) -> (r: (String, String))
    ensures
        (r.0@, r.1@) == tarball_location(registry@, name@, version@),
{
    let c = to_chars(name);
    let parts = split_on_vec(&c, '/');
    proof { crate::range::lemma_split_on_nonempty(c@, '/'); }
    let last = parts.len() - 1;
    assert(views(parts@)[last as int] == parts@[last as int]@);
    let mut file = string_of_all(&parts[last]);
    crate::text::push_char(&mut file, '-');
    file.append(version);
    file.append(".tgz");
    let mut url = registry.to_owned();
    crate::text::push_char(&mut url, '/');
    url.append(name);
    url.append("/-/");
    url.append(file.as_str());
    (file, url)
}

/// What one poll of a publish authorisation says.
#[derive(Clone, Debug, PartialEq, Eq)]
pub enum PollOutcome {
    /// Authorised, with the one-time token.
    Authorized(String),
    /// Refused by the user, or failed.
    Denied,
    /// Not decided yet: poll again.
    Pending,
}

/// The text of an optional string.
pub open spec fn opt_text(o: Option<&str>) -> Option<Seq<char>> {
    match o {
        Some(s) => Some(s@),
        None => None,
    }
}

/// Reads one answer of the authorisation poll: `done` with a token authorises, `failed`
/// refuses, anything else (a missing status counting as `pending`) waits.
pub fn poll_outcome(status: Option<&str>, token: Option<&str>) -> (r: PollOutcome)
    ensures
        (match r {
            PollOutcome::Authorized(t) => opt_text(status) == Some("done"@) && opt_text(token) == Some(t@),
            PollOutcome::Denied => opt_text(status) == Some("failed"@),
            PollOutcome::Pending => opt_text(status) != Some("failed"@)
                && !(opt_text(status) == Some("done"@) && token is Some),
        }),
{
    let s: &str = match status {
        Some(s) => s,
        None => "pending",
    };
    proof { reveal_strlit("pending"); reveal_strlit("done"); reveal_strlit("failed"); }
    assert("pending"@.len() == 7 && "done"@.len() == 4 && "failed"@.len() == 6);
    if str_eq(s, "done") {
        match token {
            Some(t) => PollOutcome::Authorized(t.to_owned()),
            None => PollOutcome::Pending,
        }
    } else if str_eq(s, "failed") {
        PollOutcome::Denied
    } else {
        PollOutcome::Pending
    }
}

/// The SHA-256 digest of a byte string (`sha2::Sha256`).
pub uninterp spec fn sha256_of(data: Seq<u8>) -> Seq<u8>;

/// What signing a digest with a private key in PKCS#8 PEM gives: the PKCS#1 v1.5 signature
/// (SHA-256) that `rsa` makes, or which step failed (`true` for reading the key).
pub uninterp spec fn rsa_signature(pem: Seq<char>, digest: Seq<u8>) -> Result<Seq<u8>, bool>;

/// Hashes `data` with `sha2::Sha256`.
#[verifier::external_body]
fn sha256_digest(data: &[u8]) -> (r: Vec<u8>)
    ensures
        r@ == sha256_of(data@),
{
    let mut hasher = sha2::Sha256::new();
    hasher.update(data);
    hasher.finalize().to_vec()
}

/// Reads a private key with `rsa::RsaPrivateKey::from_pkcs8_pem` and signs the digest with
/// `RsaPrivateKey::sign` and `Pkcs1v15Sign::new::<Sha256>()`.
#[verifier::external_body]
fn rsa_sign(pem: &str, digest: &[u8]) -> (r: Result<Vec<u8>, bool>)
    ensures
        (match r {
            Ok(s) => rsa_signature(pem@, digest@) == Ok::<Seq<u8>, bool>(s@),
            Err(b) => rsa_signature(pem@, digest@) == Err::<Seq<u8>, bool>(b),
        }),
{
    match rsa::RsaPrivateKey::from_pkcs8_pem(pem) {
        Ok(key) => match key.sign(rsa::Pkcs1v15Sign::new::<sha2::Sha256>(), digest) {
            Ok(sig) => Ok(sig),
            Err(_) => Err(false),
        },
        Err(_) => Err(true),
    }
}

/// Why a payload could not be signed.
#[derive(Clone, Copy, Debug, PartialEq, Eq, Structural)]
pub enum SignError {
    /// The private key is not a PKCS#8 PEM key.
    BadKey,
    /// The signature could not be made.
    SigningFailed,
}

impl SignError {
    /// The message of the error.
    pub fn message(&self) -> (r: &'static str)
        ensures
            r@ == (match *self {
                SignError::BadKey => "Failed to parse private key from PEM"@,
                SignError::SigningFailed => "Signing failed"@,
            }),
    {
        match self {
            SignError::BadKey => "Failed to parse private key from PEM",
            SignError::SigningFailed => "Signing failed",
        }
    }
}

/// Signs a payload with a private key: the SHA-256 of its UTF-8 bytes, signed with PKCS#1
/// v1.5, in hexadecimal.
pub fn sign_payload(private_key_pem: &str, payload: &str) -> (r: Result<String, SignError>)
    ensures
        (match r {
            Ok(s) => rsa_signature(private_key_pem@, sha256_of(payload.spec_bytes())) matches Ok(sig) && s@ == hex(sig),
            Err(e) => rsa_signature(private_key_pem@, sha256_of(payload.spec_bytes()))
                == Err::<Seq<u8>, bool>(e == SignError::BadKey),
        }),
{
    let bytes = payload.as_bytes();
    let hashed = sha256_digest(bytes);
    match rsa_sign(private_key_pem, hashed.as_slice()) {
        Ok(sig) => Ok(hex_string(&sig)),
        Err(true) => Err(SignError::BadKey),
        Err(false) => Err(SignError::SigningFailed),
    }
}

} // verus!
