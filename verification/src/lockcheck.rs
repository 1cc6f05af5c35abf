//! The checks of a lockfile against injection: secure schemes, trusted hosts, tarball URLs
//! that name their package, and integrity hashes of a plausible length.
use vstd::prelude::*;
use crate::text::{
    split_on, split_on_vec, views, to_chars, string_of_all, starts_with, ends_with, contains_pat,
    starts_with_str, ends_with_str, contains_pat_str, str_views, str_eq, replace, replace_vec,
};
use crate::store::utf8_len;
use crate::engine::SecurityEngine;

verus! {

/// What `url::Url::parse` makes of a text: `None` where it fails, else the URL's host
/// (`host_str`), where it has one.
pub uninterp spec fn url_host(s: Seq<char>) -> Option<Option<Seq<char>>>;

/// The bytes of a char in UTF-8.
pub open spec fn utf8_bytes(c: char) -> Seq<int> {
    let n = c as int;
    if n < 0x80 {
        seq![n]
    } else if n < 0x800 {
        seq![0xC0 + n / 64, 0x80 + n % 64]
    } else if n < 0x10000 {
        seq![0xE0 + n / 4096, 0x80 + (n / 64) % 64, 0x80 + n % 64]
    } else {
        seq![0xF0 + n / 262144, 0x80 + (n / 4096) % 64, 0x80 + (n / 64) % 64, 0x80 + n % 64]
    }
}

/// The bytes of a text in UTF-8.
pub open spec fn utf8_of(s: Seq<char>) -> Seq<int>
    decreases s.len(),
{
    if s.len() == 0 { Seq::empty() } else { utf8_of(s.drop_last()) + utf8_bytes(s.last()) }
}

/// A byte that percent-encoding keeps: an ASCII letter or digit, `-`, `.`, `_` or `~`.
pub open spec fn url_safe_byte(b: int) -> bool {
    (48 <= b <= 57) || (65 <= b <= 90) || (97 <= b <= 122) || b == 45 || b == 46 || b == 95 || b == 126
}

/// A digit `0..16` in uppercase hexadecimal.
pub open spec fn hex_upper(d: int) -> char {
    if d < 10 { (48 + d) as char } else { (55 + d) as char }
}

/// One byte percent-encoded: kept where it is safe, else `%` and two uppercase hex digits.
pub open spec fn encode_byte(b: int) -> Seq<char> {
    if url_safe_byte(b) { seq![b as char] } else { seq!['%', hex_upper(b / 16), hex_upper(b % 16)] }
}

/// The bytes percent-encoded one after another.
pub open spec fn encode_bytes(bs: Seq<int>) -> Seq<char>
    decreases bs.len(),
{
    if bs.len() == 0 { Seq::empty() } else { encode_bytes(bs.drop_last()) + encode_byte(bs.last()) }
}

/// What `urlencoding::encode` makes of a text: each byte of its UTF-8 encoding kept where it
/// is an ASCII letter or digit, `-`, `.`, `_` or `~`, else written `%XX` in uppercase hex.
pub open spec fn url_encoded(s: Seq<char>) -> Seq<char> {
    encode_bytes(utf8_of(s))
}

/// Parses a URL with `url::Url::parse` and hands out its host.
#[verifier::external_body]
fn parse_url_host(s: &str) -> (r: Option<Option<String>>)
    ensures
        (match r {
            None => url_host(s@) is None,
            Some(None) => url_host(s@) == Some(None::<Seq<char>>),
            Some(Some(h)) => url_host(s@) == Some(Some(h@)),
        }),
{
    match url::Url::parse(s) {
        Ok(u) => match u.host_str() {
            Some(h) => Some(Some(h.to_string())),
            None => Some(None),
        },
        Err(_) => None,
    }
}

/// Percent-encodes a text with `urlencoding::encode`: every UTF-8 byte but the unreserved ASCII
/// ones becomes `%XX` (see `url_encoded`).
#[verifier::external_body]
fn encode_component(s: &str) -> (r: String)
    ensures
        r@ == url_encoded(s@),
{
    urlencoding::encode(s).into_owned()
}

/// A package of a lockfile as the check sees it: its key, tarball URL and SHA-1.
#[derive(Clone, Debug)]
pub struct LockEntry {
    pub key: String,
    pub tarball: String,
    pub shasum: String,
}

/// The kinds of lockfile injection that the check catches.
#[derive(Clone, Copy, Debug, PartialEq, Eq, Structural)]
pub enum ViolationKind {
    InsecureScheme,
    UntrustedHost,
    InvalidUrl,
    NameMismatch,
    MissingIntegrity,
    ShortIntegrity,
    NonHexIntegrity,
}

/// A caught injection: its kind, the package's name, the tarball URL, and the offending host or
/// hash where the kind has one (else empty).
#[derive(Clone, Debug)]
pub struct LockViolation {
    pub kind: ViolationKind,
    pub name: String,
    pub url: String,
    pub detail: String,
}

impl View for LockViolation {
    type V = (ViolationKind, Seq<char>, Seq<char>, Seq<char>);

    open spec fn view(&self) -> (ViolationKind, Seq<char>, Seq<char>, Seq<char>) {
        (self.kind, self.name@, self.url@, self.detail@)
    }
}

/// The package name in a lockfile key, split at `@` signs: the part before the first `@`;
/// for a scoped key, `@` and the part between the first two `@` signs (the whole key where it
/// has fewer than two).
pub open spec fn lock_name(key: Seq<char>) -> Seq<char> {
    let parts = split_on(key, '@');
    if key.contains('@') && !(key.len() > 0 && key[0] == '@') {
        parts[0]
    } else if key.len() > 0 && key[0] == '@' {
        if parts.len() >= 3 { seq!['@'] + parts[1] } else { key }
    } else {
        key
    }
}

/// The number of bytes of a text in UTF-8 (`str::len`).
pub open spec fn utf8_size(s: Seq<char>) -> nat
    decreases s.len(),
{
    if s.len() == 0 { 0 } else { utf8_size(s.drop_last()) + utf8_len(s.last()) }
}

/// A hexadecimal digit, in either case.
pub open spec fn is_hex_digit(c: char) -> bool {
    ('0' <= c && c <= '9') || ('a' <= c && c <= 'f') || ('A' <= c && c <= 'F')
}

/// Every char of the text is a hexadecimal digit.
pub open spec fn all_hex(s: Seq<char>) -> bool {
    forall|i: int| 0 <= i < s.len() ==> #[trigger] is_hex_digit(s[i])
}

/// Executable `all_hex`.
fn all_hex_exec(s: &str) -> (r: bool)
    ensures
        r == all_hex(s@),
{
    let c = to_chars(s);
    let mut i: usize = 0;
    while i < c.len()
        invariant
            i <= c@.len(),
            c@ == s@,
            forall|k: int| 0 <= k < i ==> #[trigger] is_hex_digit(c@[k]),
        decreases c@.len() - i,
    {
        let ch = c[i];
        if !(('0' <= ch && ch <= '9') || ('a' <= ch && ch <= 'f') || ('A' <= ch && ch <= 'F')) {
            assert(!is_hex_digit(c@[i as int]));
            return false;
        }
        i += 1;
    }
    true
}

/// The host is one of the domains, or a subdomain of one.
pub open spec fn host_allowed(domains: Seq<Seq<char>>, host: Seq<char>) -> bool {
    exists|i: int| 0 <= i < domains.len()
        && (host == #[trigger] domains[i] || ends_with(host, seq!['.'] + domains[i]))
}

/// What the check finds wrong with one package, in the order of the checks; `None` where it
/// passes.
pub open spec fn entry_violation(
    domains: Seq<Seq<char>>,
    key: Seq<char>,
    url: Seq<char>,
    shasum: Seq<char>,
) -> Option<(ViolationKind, Seq<char>, Seq<char>, Seq<char>)> {
    let name = lock_name(key);
    if !starts_with(url, "https://"@) && !starts_with(url, "git+https://"@) && !starts_with(url, "git+ssh://"@) {
        Some((ViolationKind::InsecureScheme, name, url, Seq::empty()))
    } else if url_host(url) is None {
        Some((ViolationKind::InvalidUrl, name, url, Seq::empty()))
    } else if url_host(url) matches Some(Some(h)) && !host_allowed(domains, h) {
        Some((ViolationKind::UntrustedHost, name, url, url_host(url)->Some_0->Some_0))
    } else if !contains_pat(url, name) && !contains_pat(url, url_encoded(name))
        && !contains_pat(url, replace(name, seq!['/'], seq!['%', '2', 'f'])) {
        Some((ViolationKind::NameMismatch, name, url, Seq::empty()))
    } else if shasum.len() == 0 {
        Some((ViolationKind::MissingIntegrity, name, url, Seq::empty()))
    } else if utf8_size(shasum) < 40 {
        Some((ViolationKind::ShortIntegrity, name, url, shasum))
    } else if !all_hex(shasum) {
        Some((ViolationKind::NonHexIntegrity, name, url, shasum))
    } else {
        None
    }
}

/// The first violation among the entries, in their order.
pub open spec fn first_violation(
    domains: Seq<Seq<char>>,
    entries: Seq<LockEntry>,
) -> Option<(ViolationKind, Seq<char>, Seq<char>, Seq<char>)>
    decreases entries.len(),
{
    if entries.len() == 0 {
        None
    } else {
        match entry_violation(domains, entries[0].key@, entries[0].tarball@, entries[0].shasum@) {
            Some(v) => Some(v),
            None => first_violation(domains, entries.drop_first()),
        }
    }
}

fn lock_name_exec(key: &str) -> (r: String)
    ensures
        r@ == lock_name(key@),
{
    let k = to_chars(key);
    let parts = split_on_vec(&k, '@');
    proof { crate::range::lemma_split_on_nonempty(k@, '@'); }
    let mut has_at = false;
    let mut i: usize = 0;
    while i < k.len()
        invariant
            i <= k@.len(),
            has_at == exists|j: int| 0 <= j < i && k@[j] == '@',
        decreases k@.len() - i,
    {
        if k[i] == '@' {
            has_at = true;
        }
        i += 1;
    }
    assert(has_at == k@.contains('@'));
    let scoped = k.len() > 0 && k[0] == '@';
    if has_at && !scoped {
        assert(views(parts@)[0] == parts@[0]@);
        string_of_all(&parts[0])
    } else if scoped {
        if parts.len() >= 3 {
            assert(views(parts@)[1] == parts@[1]@);
            let mut r: Vec<char> = Vec::new();
            r.push('@');
            crate::text::extend(&mut r, &parts[1]);
            assert(r@ =~= seq!['@'] + parts@[1]@);
            string_of_all(&r)
        } else {
            key.to_owned()
        }
    } else {
        key.to_owned()
    }
}

proof fn lemma_utf8_size_prefix(s: Seq<char>, i: int)
    requires
        0 <= i <= s.len(),
    ensures
        utf8_size(s.take(i)) <= utf8_size(s),
    decreases s.len() - i,
{
    if i < s.len() {
        lemma_utf8_size_prefix(s, i + 1);
        assert(s.take(i + 1).drop_last() =~= s.take(i));
    } else {
        assert(s.take(i) =~= s);
    }
}

/// Whether the text takes fewer than `bound` bytes in UTF-8.
fn utf8_size_below(s: &str, bound: usize) -> (r: bool)
    requires
        bound < usize::MAX - 4,
    ensures
        r == (utf8_size(s@) < bound),
{
    if bound == 0 {
        return false;
    }
    let c = to_chars(s);
    let mut n: usize = 0;
    let mut i: usize = 0;
    while i < c.len()
        invariant
            i <= c@.len(),
            c@ == s@,
            bound < usize::MAX - 4,
            n == utf8_size(c@.take(i as int)),
            n < bound,
        decreases c@.len() - i,
    {
        let ch = c[i];
        let w: usize = if (ch as u32) < 0x80 {
            1
        } else if (ch as u32) < 0x800 {
            2
        } else if (ch as u32) < 0x10000 {
            3
        } else {
            4
        };
        assert(c@.take(i + 1).drop_last() =~= c@.take(i as int));
        n = n + w;
        i += 1;
        if n >= bound {
            proof { lemma_utf8_size_prefix(c@, i as int); }
            return false;
        }
    }
    assert(c@.take(c@.len() as int) =~= c@);
    true
}

fn host_allowed_exec(domains: &Vec<String>, host: &str) -> (r: bool)
    ensures
        r == host_allowed(str_views(domains@), host@),
{
    let ghost d = str_views(domains@);
    let mut i: usize = 0;
    while i < domains.len()
        invariant
            i <= domains@.len(),
            d == str_views(domains@),
            forall|k: int| 0 <= k < i ==> !(host@ == #[trigger] d[k] || ends_with(host@, seq!['.'] + d[k])),
        decreases domains@.len() - i,
    {
        assert(d[i as int] == domains@[i as int]@);
        let mut dotted = String::new();
        crate::text::push_char(&mut dotted, '.');
        dotted.append(domains[i].as_str());
        if str_eq(host, domains[i].as_str()) || ends_with_str(host, dotted.as_str()) {
            return true;
        }
        i += 1;
    }
    false
}

fn entry_violation_exec(domains: &Vec<String>, e: &LockEntry) -> (r: Option<LockViolation>)
    ensures
        (match r {
            Some(v) => entry_violation(str_views(domains@), e.key@, e.tarball@, e.shasum@) == Some(v@),
            None => entry_violation(str_views(domains@), e.key@, e.tarball@, e.shasum@) is None,
        }),
{
    proof {
        reveal_strlit("https://");
        reveal_strlit("git+https://");
        reveal_strlit("git+ssh://");
        reveal_strlit("/");
        reveal_strlit("%2f");
    }
    assert("/"@ =~= seq!['/']);
    assert("%2f"@ =~= seq!['%', '2', 'f']);
    let name = lock_name_exec(e.key.as_str());
    let url = e.tarball.as_str();
    if !starts_with_str(url, "https://") && !starts_with_str(url, "git+https://") && !starts_with_str(url, "git+ssh://") {
        return Some(LockViolation { kind: ViolationKind::InsecureScheme, name, url: e.tarball.clone(), detail: String::new() });
    }
    match parse_url_host(url) {
        None => {
            return Some(LockViolation { kind: ViolationKind::InvalidUrl, name, url: e.tarball.clone(), detail: String::new() });
        },
        Some(Some(h)) => {
            if !host_allowed_exec(domains, h.as_str()) {
                return Some(LockViolation { kind: ViolationKind::UntrustedHost, name, url: e.tarball.clone(), detail: h });
            }
        },
        Some(None) => {},
    }
    let encoded = encode_component(name.as_str());
    let nc = to_chars(name.as_str());
    let scoped = replace_vec(&nc, "/", "%2f");
    let scoped_s = string_of_all(&scoped);
    if !contains_pat_str(url, name.as_str()) && !contains_pat_str(url, encoded.as_str())
        && !contains_pat_str(url, scoped_s.as_str()) {
        return Some(LockViolation { kind: ViolationKind::NameMismatch, name, url: e.tarball.clone(), detail: String::new() });
    }
    let sc = to_chars(e.shasum.as_str());
    if sc.len() == 0 {
        return Some(LockViolation { kind: ViolationKind::MissingIntegrity, name, url: e.tarball.clone(), detail: String::new() });
    }
    if utf8_size_below(e.shasum.as_str(), 40) {
        return Some(LockViolation { kind: ViolationKind::ShortIntegrity, name, url: e.tarball.clone(), detail: e.shasum.clone() });
    }
    if !all_hex_exec(e.shasum.as_str()) {
        return Some(LockViolation { kind: ViolationKind::NonHexIntegrity, name, url: e.tarball.clone(), detail: e.shasum.clone() });
    }
    None
}

impl LockViolation {
    /// The message of the violation.
    pub fn message(&self) -> (r: String)
        ensures
            (match self.kind {
                ViolationKind::InsecureScheme => r@ == "Lockfile injection detected! Package '"@ + self.name@
                    + "' resolves to an insecure or unsupported URL scheme: "@ + self.url@,
                ViolationKind::UntrustedHost => r@ == "Lockfile injection detected! Package '"@ + self.name@
                    + "' resolves to an untrusted host '"@ + self.detail@ + "'. URL: "@ + self.url@,
                ViolationKind::InvalidUrl => r@ == "Lockfile injection detected! Invalid URL for package '"@
                    + self.name@ + "': "@ + self.url@,
                ViolationKind::NameMismatch => r@ == "Lockfile injection detected! The resolved URL for '"@
                    + self.name@ + "' does not appear to contain the package name. URL: "@ + self.url@,
                ViolationKind::MissingIntegrity => r@ == "Lockfile injection detected! Package '"@ + self.name@
                    + "' is missing an integrity hash (shasum)."@,
                ViolationKind::ShortIntegrity => r@ == "Lockfile injection detected! Package '"@ + self.name@
                    + "' has a suspiciously short integrity hash: "@ + self.detail@,
                ViolationKind::NonHexIntegrity => r@ == "Lockfile injection detected! Package '"@ + self.name@
                    + "' has an integrity hash that is not hexadecimal: "@ + self.detail@,
            }),
    {
        let mut m = String::new();
        match self.kind {
            ViolationKind::InsecureScheme => {
                m.append("Lockfile injection detected! Package '");
                m.append(self.name.as_str());
                m.append("' resolves to an insecure or unsupported URL scheme: ");
                m.append(self.url.as_str());
            },
            ViolationKind::UntrustedHost => {
                m.append("Lockfile injection detected! Package '");
                m.append(self.name.as_str());
                m.append("' resolves to an untrusted host '");
                m.append(self.detail.as_str());
                m.append("'. URL: ");
                m.append(self.url.as_str());
            },
            ViolationKind::InvalidUrl => {
                m.append("Lockfile injection detected! Invalid URL for package '");
                m.append(self.name.as_str());
                m.append("': ");
                m.append(self.url.as_str());
            },
            ViolationKind::NameMismatch => {
                m.append("Lockfile injection detected! The resolved URL for '");
                m.append(self.name.as_str());
                m.append("' does not appear to contain the package name. URL: ");
                m.append(self.url.as_str());
            },
            ViolationKind::MissingIntegrity => {
                m.append("Lockfile injection detected! Package '");
                m.append(self.name.as_str());
                m.append("' is missing an integrity hash (shasum).");
            },
            ViolationKind::ShortIntegrity => {
                m.append("Lockfile injection detected! Package '");
                m.append(self.name.as_str());
                m.append("' has a suspiciously short integrity hash: ");
                m.append(self.detail.as_str());
            },
            ViolationKind::NonHexIntegrity => {
                m.append("Lockfile injection detected! Package '");
                m.append(self.name.as_str());
                m.append("' has an integrity hash that is not hexadecimal: ");
                m.append(self.detail.as_str());
            },
        }
        m
    }
}

impl SecurityEngine {
    /// Checks every package of a lockfile, in order, and stops at the first violation (see
    /// `entry_violation`): `Ok` exactly where none has one.
    pub fn validate_lockfile(&self, entries: &Vec<LockEntry>) -> (r: Result<(), LockViolation>)
        ensures
            (match r {
                Ok(()) => first_violation(str_views(self.policy.allowed_domains@), entries@) is None,
                Err(v) => first_violation(str_views(self.policy.allowed_domains@), entries@) == Some(v@),
            }),
    {
        let ghost d = str_views(self.policy.allowed_domains@);
        let mut i: usize = 0;
        assert(entries@.skip(0) =~= entries@);
        while i < entries.len()
            invariant
                i <= entries@.len(),
                d == str_views(self.policy.allowed_domains@),
                first_violation(d, entries@) == first_violation(d, entries@.skip(i as int)),
            decreases entries@.len() - i,
        {
            let ghost rest = entries@.skip(i as int);
            assert(rest[0] == entries@[i as int]);
            match entry_violation_exec(&self.policy.allowed_domains, &entries[i]) {
                Some(v) => return Err(v),
                None => {},
            }
            assert(rest.drop_first() =~= entries@.skip(i + 1));
            i += 1;
        }
        Ok(())
    }
}

} // verus!
