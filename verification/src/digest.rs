//! Content digests: SHA-1 for the integrity of tarballs, BLAKE3 for the content-addressed store
//! and the configuration hash, both written in lowercase hexadecimal.
use vstd::prelude::*;
use sha1::Digest;
use crate::text::{to_chars, string_of_all, eq_vec};

verus! {

/// The SHA-1 digest of a byte string (`sha1::Sha1`).
pub uninterp spec fn sha1_of(data: Seq<u8>) -> Seq<u8>;

/// The BLAKE3 hash of a byte string (`blake3::hash`).
pub uninterp spec fn blake3_of(data: Seq<u8>) -> Seq<u8>;

/// Hashes `data` with `sha1::Sha1` and hands out the 20 bytes of its digest.
#[verifier::external_body]
fn sha1_digest(data: &[u8]) -> (r: Vec<u8>)
    ensures
        r@ == sha1_of(data@),
        r@.len() == 20,
{
    let mut hasher = sha1::Sha1::new();
    hasher.update(data);
    hasher.finalize().to_vec()
}

/// Hashes `data` with `blake3::hash` and hands out the 32 bytes of the hash.
#[verifier::external_body]
fn blake3_digest(data: &[u8]) -> (r: Vec<u8>)
    ensures
        r@ == blake3_of(data@),
        r@.len() == 32,
{
    blake3::hash(data).as_bytes().to_vec()
}

/// A digit `0..16` as a lowercase hexadecimal char.
pub open spec fn hex_digit(n: u8) -> char {
    if n < 10 { ((n + 48) as u8) as char } else { ((n + 87) as u8) as char }
}

/// Bytes in lowercase hexadecimal, two digits a byte (`{:02x}` for each).
pub open spec fn hex(bytes: Seq<u8>) -> Seq<char>
    decreases bytes.len(),
{
    if bytes.len() == 0 {
        Seq::empty()
    } else {
        hex(bytes.drop_last()) + seq![hex_digit(bytes.last() / 16), hex_digit(bytes.last() % 16)]
    }
}

fn hex_digit_exec(n: u8) -> (c: char)
    requires
        n < 16,
    ensures
        c == hex_digit(n),
{
    if n < 10 { (n + 48) as char } else { (n + 87) as char }
}

/// Executable `hex`.
pub fn hex_string(bytes: &Vec<u8>) -> (r: String)
    ensures
        r@ == hex(bytes@),
        r@.len() == 2 * bytes@.len(),
{
    let mut out: Vec<char> = Vec::new();
    let mut i: usize = 0;
    while i < bytes.len()
        invariant
            i <= bytes@.len(),
            out@ == hex(bytes@.take(i as int)),
            out@.len() == 2 * i,
        decreases bytes@.len() - i,
    {
        let b = bytes[i];
        out.push(hex_digit_exec(b / 16));
        out.push(hex_digit_exec(b % 16));
        assert(bytes@.take(i + 1).drop_last() =~= bytes@.take(i as int));
        i += 1;
    }
    assert(bytes@.take(bytes@.len() as int) =~= bytes@);
    string_of_all(&out)
}

/// The SHA-1 of `data` in hexadecimal.
pub fn sha1_hex(data: &[u8]) -> (r: String)
    ensures
        r@ == hex(sha1_of(data@)),
        r@.len() == 40,
{
    let d = sha1_digest(data);
    hex_string(&d)
}

/// The BLAKE3 hash of `data` in hexadecimal: the name of a file in the store, and the hash of
/// a configuration that a lockfile records.
pub fn content_hash(data: &[u8]) -> (r: String)
    ensures
        r@ == hex(blake3_of(data@)),
        r@.len() == 64,
{
    let d = blake3_digest(data);
    hex_string(&d)
}

/// A tarball whose SHA-1 differs from the one the registry announced.
#[derive(Clone, Debug, PartialEq, Eq)]
pub struct ShasumError {
    pub expected: String,
    pub actual: String,
}

impl ShasumError {
    /// The message of the error.
    pub fn message(&self) -> (r: String)
        ensures
            r@ == "Tarball integrity check failed!\n  Expected SHA-1: "@ + self.expected@
                + "\n  Actual SHA-1:   "@ + self.actual@
                + "\n  This could indicate a corrupted download or a supply chain attack."@,
    {
        let mut m = String::new();
        m.append("Tarball integrity check failed!\n  Expected SHA-1: ");
        m.append(self.expected.as_str());
        m.append("\n  Actual SHA-1:   ");
        m.append(self.actual.as_str());
        m.append("\n  This could indicate a corrupted download or a supply chain attack.");
        m
    }
}

/// Checks a tarball against the SHA-1 that the registry announced: `Ok` exactly where the
/// hexadecimal digest of the data is the expected text.
pub fn verify_shasum(tarball_data: &[u8], expected_shasum: &str) -> (r: Result<(), ShasumError>)
    ensures
        r is Ok <==> hex(sha1_of(tarball_data@)) == expected_shasum@,
        r matches Err(e) ==> e.expected@ == expected_shasum@ && e.actual@ == hex(sha1_of(tarball_data@)),
{
    let actual = sha1_hex(tarball_data);
    let a = to_chars(actual.as_str());
    let e = to_chars(expected_shasum);
    if !eq_vec(&a, &e) {
        return Err(ShasumError { expected: expected_shasum.to_owned(), actual });
    }
    Ok(())
}


/// The alphabet of base64 (RFC 4648, with `+` and `/`).
pub open spec fn base64_alphabet() -> Seq<char> {
    "ABCDEFGHIJKLMNOPQRSTUVWXYZabcdefghijklmnopqrstuvwxyz0123456789+/"@
}

/// Bytes in base64 with `=` padding: each group of three bytes as four chars of six bits each,
/// a last group of one or two bytes padded to four chars.
pub open spec fn base64(bytes: Seq<u8>) -> Seq<char>
    decreases bytes.len(),
{
    let a = base64_alphabet();
    let b0 = bytes[0] as int;
    let b1 = bytes[1] as int;
    let b2 = bytes[2] as int;
    if bytes.len() == 0 {
        Seq::empty()
    } else if bytes.len() == 1 {
        seq![a[b0 / 4], a[(b0 % 4) * 16], '=', '=']
    } else if bytes.len() == 2 {
        seq![a[b0 / 4], a[(b0 % 4) * 16 + b1 / 16], a[(b1 % 16) * 4], '=']
    } else {
        seq![a[b0 / 4], a[(b0 % 4) * 16 + b1 / 16], a[(b1 % 16) * 4 + b2 / 64], a[b2 % 64]]
            + base64(bytes.skip(3))
    }
}

fn base64_char(table: &str, n: u8) -> (c: char)
    requires
        table@ == base64_alphabet(),
        n < 64,
    ensures
        c == base64_alphabet()[n as int],
{
    proof { reveal_strlit("ABCDEFGHIJKLMNOPQRSTUVWXYZabcdefghijklmnopqrstuvwxyz0123456789+/"); }
    assert(base64_alphabet().len() == 64);
    let cs = to_chars(table);
    cs[n as usize]
}

/// Executable `base64`.
pub fn base64_encode(bytes: &[u8]) -> (r: String)
    ensures
        r@ == base64(bytes@),
{
    let table = "ABCDEFGHIJKLMNOPQRSTUVWXYZabcdefghijklmnopqrstuvwxyz0123456789+/";
    let mut out: Vec<char> = Vec::new();
    let mut i: usize = 0;
    assert(bytes@.skip(0) =~= bytes@);
    assert(out@ + base64(bytes@.skip(0)) =~= base64(bytes@));
    while i < bytes.len()
        invariant
            i <= bytes@.len(),
            table@ == base64_alphabet(),
            out@ + base64(bytes@.skip(i as int)) == base64(bytes@),
        decreases bytes@.len() - i,
    {
        let rest = bytes.len() - i;
        let ghost tail = bytes@.skip(i as int);
        let b0 = bytes[i];
        out.push(base64_char(table, b0 / 4));
        if rest == 1 {
            out.push(base64_char(table, (b0 % 4) * 16));
            out.push('=');
            out.push('=');
            assert(tail.skip(1).len() == 0);
            assert(bytes@.skip(i + 1) =~= Seq::<u8>::empty());
            i = i + 1;
        } else if rest == 2 {
            let b1 = bytes[i + 1];
            out.push(base64_char(table, (b0 % 4) * 16 + b1 / 16));
            out.push(base64_char(table, (b1 % 16) * 4));
            out.push('=');
            assert(bytes@.skip(i + 2) =~= Seq::<u8>::empty());
            i = i + 2;
        } else {
            let b1 = bytes[i + 1];
            let b2 = bytes[i + 2];
            out.push(base64_char(table, (b0 % 4) * 16 + b1 / 16));
            out.push(base64_char(table, (b1 % 16) * 4 + b2 / 64));
            out.push(base64_char(table, b2 % 64));
            assert(tail.skip(3) =~= bytes@.skip(i + 3));
            i = i + 3;
        }
    }
    assert(bytes@.skip(bytes@.len() as int) =~= Seq::<u8>::empty());
    assert(out@ =~= base64(bytes@));
    string_of_all(&out)
}

} // verus!
