//! Semantic versions and npm version ranges, read and compared by the `semver` crate.
use vstd::prelude::*;
use crate::text::{
    trim, split_pat, views, dec, dec_exec, to_chars, trim_vec, split_pat_vec, string_of_all,
    extend, eq_str,
};
use crate::range::{is_star, norm_clause, clause_overflows, clause_overflows_exec, norm_clause_vec};

verus! {

/// A semantic version as the `semver` crate reads it: the numeric core, then the texts of the
/// pre-release and of the build metadata (empty where absent).
#[derive(Clone, Debug, PartialEq, Eq)]
pub struct SemVer {
    pub major: u64,
    pub minor: u64,
    pub patch: u64,
    pub pre: String,
    pub build: String,
}

impl View for SemVer {
    type V = (u64, u64, u64, Seq<char>, Seq<char>);

    open spec fn view(&self) -> (u64, u64, u64, Seq<char>, Seq<char>) {
        (self.major, self.minor, self.patch, self.pre@, self.build@)
    }
}

/// What `semver::Version::parse` makes of a text: `None` where it fails, else the parsed
/// version's major, minor, patch, pre-release and build metadata.
pub uninterp spec fn semver_parse(s: Seq<char>) -> Option<(u64, u64, u64, Seq<char>, Seq<char>)>;

/// The order of `semver::Version` (`Ord::cmp`) between the versions that two texts parse to:
/// -1, 0 or 1.
pub uninterp spec fn semver_order(a: Seq<char>, b: Seq<char>) -> int;

/// What `semver::VersionReq::parse` makes of a text: `Ok` where it parses, else the
/// message of its error.
pub uninterp spec fn req_parse(s: Seq<char>) -> Result<(), Seq<char>>;

/// `semver::VersionReq::matches`: whether the version that `version` parses to satisfies the
/// requirement that `req` parses to.
pub uninterp spec fn req_matches(req: Seq<char>, version: Seq<char>) -> bool;

/// Parses a version with `semver::Version::parse` and hands out its fields. `0.0.0` parses:
/// three numeric components without leading zeros.
#[verifier::external_body]
pub(crate) fn parse_semver(s: &str) -> (r: Option<SemVer>)
    ensures
        (match r {
            Some(v) => semver_parse(s@) == Some(v@),
            None => semver_parse(s@) is None,
        }),
        s@ == seq!['0', '.', '0', '.', '0'] ==> r is Some,
{
    match semver::Version::parse(s) {
        Ok(v) => Some(SemVer {
            major: v.major,
            minor: v.minor,
            patch: v.patch,
            pre: v.pre.as_str().to_string(),
            build: v.build.as_str().to_string(),
        }),
        Err(_) => None,
    }
}

/// Compares the versions that two texts parse to, by the total order of `semver::Version`
/// (derived `Ord`, lexicographic over its fields); the order taken the other way round is the
/// reverse. That order is total and transitive: any third version at or below the lesser of
/// the two is at or below the greater too.
#[verifier::external_body]
pub(crate) fn compare_semver(a: &str, b: &str) -> (r: i8)
    requires
        semver_parse(a@) is Some,
        semver_parse(b@) is Some,
    ensures
        r == semver_order(a@, b@),
        -1 <= r <= 1,
        semver_order(b@, a@) == -r,
        forall|c: Seq<char>| semver_parse(c) is Some && semver_order(c, b@) <= 0 && r >= 0
            ==> #[trigger] semver_order(c, a@) <= 0,
        forall|c: Seq<char>| semver_parse(c) is Some && semver_order(c, a@) <= 0 && r <= 0
            ==> #[trigger] semver_order(c, b@) <= 0,
{
    match (semver::Version::parse(a), semver::Version::parse(b)) {
        (Ok(x), Ok(y)) => match x.cmp(&y) {
            std::cmp::Ordering::Less => -1,
            std::cmp::Ordering::Equal => 0,
            std::cmp::Ordering::Greater => 1,
        },
        _ => 0,
    }
}

/// Parses a requirement with `semver::VersionReq::parse`, keeping only the error's message.
/// `*` parses: the crate documents `VersionReq::STAR` as what it gives.
#[verifier::external_body]
pub(crate) fn check_req(s: &str) -> (r: Result<(), String>)
    ensures
        (match r {
            Ok(()) => req_parse(s@) is Ok,
            Err(e) => req_parse(s@) == Err::<(), Seq<char>>(e@),
        }),
        s@ == seq!['*'] ==> r is Ok,
{
    match semver::VersionReq::parse(s) {
        Ok(_) => Ok(()),
        Err(e) => Err(e.to_string()),
    }
}

/// Whether a version satisfies a requirement (`semver::VersionReq::matches`); a text that does
/// not parse as either matches nothing.
#[verifier::external_body]
pub(crate) fn matches_req(req: &str, version: &str) -> (r: bool)
    ensures
        r == (req_parse(req@) is Ok && semver_parse(version@) is Some && req_matches(req@, version@)),
{
    match (semver::VersionReq::parse(req), semver::Version::parse(version)) {
        (Ok(q), Ok(v)) => q.matches(&v),
        _ => false,
    }
}

/// A version written out as `major.minor.patch`, then `-pre` and `+build` where present (the
/// `Display` of `semver::Version`).
pub open spec fn semver_text(v: (u64, u64, u64, Seq<char>, Seq<char>)) -> Seq<char> {
    dec(v.0 as nat) + seq!['.'] + dec(v.1 as nat) + seq!['.'] + dec(v.2 as nat)
        + (if v.3.len() > 0 { seq!['-'] + v.3 } else { Seq::empty() })
        + (if v.4.len() > 0 { seq!['+'] + v.4 } else { Seq::empty() })
}

impl SemVer {
    /// The version as text: see `semver_text`.
    pub fn to_text(&self) -> (r: String)
        ensures
            r@ == semver_text(self@),
    {
        let mut out = dec_exec(self.major);
        out.push('.');
        let mi = dec_exec(self.minor);
        extend(&mut out, &mi);
        out.push('.');
        let pa = dec_exec(self.patch);
        extend(&mut out, &pa);
        let ghost core = out@;
        let pre = to_chars(self.pre.as_str());
        if pre.len() > 0 {
            out.push('-');
            extend(&mut out, &pre);
        }
        let ghost with_pre = out@;
        let build = to_chars(self.build.as_str());
        if build.len() > 0 {
            out.push('+');
            extend(&mut out, &build);
        }
        assert(out@ =~= semver_text(self@));
        string_of_all(&out)
    }
}

/// Parses a version text (`semver::Version::parse`).
pub fn parse_version(s: &str) -> (r: Option<SemVer>)
    ensures
        (match r {
            Some(v) => semver_parse(s@) == Some(v@),
            None => semver_parse(s@) is None,
        }),
{
    parse_semver(s)
}

// ---------------------------------------------------------------- version ranges

/// One clause of a version range, in the syntax of the `semver` crate.
#[derive(Clone, Debug, PartialEq, Eq)]
pub struct VersionRange {
    text: String,
}

impl View for VersionRange {
    type V = Seq<char>;

    closed spec fn view(&self) -> Seq<char> {
        self.text@
    }
}

impl VersionRange {
    /// The clause that admits any release: `*`.
    pub fn star() -> (r: VersionRange)
        ensures
            r@ == seq!['*'],
    {
        let mut text = String::new();
        crate::text::push_char(&mut text, '*');
        VersionRange { text }
    }

    /// The clause as text.
    pub fn as_str(&self) -> (r: &str)
        ensures
            r@ == self@,
    {
        self.text.as_str()
    }

    /// Whether the version written `version` satisfies this clause.
    pub fn matches(&self, version: &str) -> (r: bool)
        ensures
            r == (req_parse(self@) is Ok && semver_parse(version@) is Some && req_matches(self@, version@)),
    {
        matches_req(self.text.as_str(), version)
    }
}

/// A range that admits any version: empty, `*`, `x`, `X` or `latest` (once trimmed).
pub open spec fn is_any_range(t: Seq<char>) -> bool {
    t.len() == 0 || is_star(t) || t == seq!['l', 'a', 't', 'e', 's', 't']
}

/// The `||`-separated clauses of a range.
pub open spec fn range_clauses(range: Seq<char>) -> Seq<Seq<char>> {
    split_pat(trim(range), seq!['|', '|'])
}

/// Scanning the clauses from `i` on: `None` where rewriting a clause would count past
/// `u64::MAX` before any clause was refused, `Some(Err(k))` where clause `k` is the first
/// that `semver` refuses once rewritten, `Some(Ok(()))` where all of them parse.
pub open spec fn scan_clauses(cl: Seq<Seq<char>>, i: int) -> Option<Result<(), int>>
    decreases cl.len() - i,
{
    if i < 0 || i >= cl.len() {
        Some(Ok(()))
    } else if clause_overflows(cl[i]) {
        None
    } else if req_parse(norm_clause(cl[i])) is Err {
        Some(Err(i))
    } else {
        scan_clauses(cl, i + 1)
    }
}

/// The error of a refused range: the range as given, the clause as rewritten, and what
/// `semver` said of it.
#[derive(Clone, Debug, PartialEq, Eq)]
pub struct RangeError {
    pub range: String,
    pub normalized: String,
    pub detail: String,
}

impl View for RangeError {
    type V = (Seq<char>, Seq<char>, Seq<char>);

    open spec fn view(&self) -> (Seq<char>, Seq<char>, Seq<char>) {
        (self.range@, self.normalized@, self.detail@)
    }
}

/// `Invalid semver range '<range>' (normalized: '<normalized>'): <detail>`.
pub open spec fn range_error_text(e: (Seq<char>, Seq<char>, Seq<char>)) -> Seq<char> {
    "Invalid semver range '"@ + e.0 + "' (normalized: '"@ + e.1 + "'): "@ + e.2
}

impl RangeError {
    /// The message of the error: see `range_error_text`.
    pub fn message(&self) -> (r: String)
        ensures
            r@ == range_error_text(self@),
    {
        let mut m = String::new();
        m.append("Invalid semver range '");
        m.append(self.range.as_str());
        m.append("' (normalized: '");
        m.append(self.normalized.as_str());
        m.append("'): ");
        m.append(self.detail.as_str());
        m
    }
}

/// What reading a range gives: `None` where it cannot be read without counting past
/// `u64::MAX`; `Ok` with the rewritten clauses (`*` alone for a range that admits anything);
/// `Err` with the first clause that `semver` refuses.
pub open spec fn version_reqs(range: Seq<char>) -> Option<Result<Seq<Seq<char>>, (Seq<char>, Seq<char>, Seq<char>)>> {
    let cl = range_clauses(range);
    if is_any_range(trim(range)) {
        Some(Ok(seq![seq!['*']]))
    } else {
        match scan_clauses(cl, 0) {
            None => None,
            Some(Ok(())) => Some(Ok(cl.map_values(|c: Seq<char>| norm_clause(c)))),
            Some(Err(k)) => Some(Err((range, norm_clause(cl[k]), match req_parse(norm_clause(cl[k])) {
                Ok(()) => Seq::empty(),
                Err(m) => m,
            }))),
        }
    }
}

/// The ranges of `v` are, one for one, the texts of `t`.
pub open spec fn ranges_are(v: Seq<VersionRange>, t: Seq<Seq<char>>) -> bool {
    v.len() == t.len() && forall|k: int| 0 <= k < t.len() ==> #[trigger] v[k]@ == t[k]
}

/// `r` is what `version_reqs` says of the range.
pub open spec fn reqs_result(r: Option<Result<Vec<VersionRange>, RangeError>>, range: Seq<char>) -> bool {
    match version_reqs(range) {
        None => r is None,
        Some(Ok(texts)) => r matches Some(Ok(v)) && ranges_are(v@, texts),
        Some(Err(e)) => r matches Some(Err(err)) && err@ == e,
    }
}

proof fn lemma_scan_step(cl: Seq<Seq<char>>, i: int)
    requires
        0 <= i < cl.len(),
        !clause_overflows(cl[i]),
        req_parse(norm_clause(cl[i])) is Ok,
    ensures
        scan_clauses(cl, i) == scan_clauses(cl, i + 1),
{
}

fn is_any_range_exec(t: &Vec<char>) -> (r: bool)
    ensures
        r == is_any_range(t@),
{
    proof { reveal_strlit("latest"); }
    assert("latest"@ =~= seq!['l', 'a', 't', 'e', 's', 't']);
    proof {
        if t@.len() == 1 {
            assert(t@ =~= seq![t@[0]]);
        }
        if is_star(t@) {
            assert(t@.len() == 1);
        }
    }
    t.len() == 0 || (t.len() == 1 && (t[0] == '*' || t[0] == 'x' || t[0] == 'X')) || eq_str(t, "latest")
}

fn scan_reqs(range: &str) -> (r: Option<Result<Vec<VersionRange>, RangeError>>)
    ensures
        reqs_result(r, range@),
{
    let rv = to_chars(range);
    let t = trim_vec(&rv);
    proof {
        if t@.len() == 1 && (t@[0] == '*' || t@[0] == 'x' || t@[0] == 'X') {
            assert(t@ =~= seq![t@[0]]);
        }
    }
    if is_any_range_exec(&t) {
        let mut v: Vec<VersionRange> = Vec::new();
        v.push(VersionRange::star());
        assert(ranges_are(v@, seq![seq!['*']]));
        return Some(Ok(v));
    }
    proof { reveal_strlit("||"); }
    assert("||"@ =~= seq!['|', '|']);
    let cl = split_pat_vec(&t, "||");
    let ghost cls = views(cl@);
    assert(cls == range_clauses(range@));
    let mut out: Vec<VersionRange> = Vec::new();
    let mut i: usize = 0;
    while i < cl.len()
        invariant
            i <= cl@.len(),
            cls == views(cl@),
            cls == range_clauses(range@),
            !is_any_range(trim(range@)),
            scan_clauses(cls, 0) == scan_clauses(cls, i as int),
            out@.len() == i,
            forall|k: int| 0 <= k < i ==> #[trigger] out@[k]@ == norm_clause(cls[k]),
        decreases cl@.len() - i,
    {
        assert(cls[i as int] == cl@[i as int]@);
        if clause_overflows_exec(&cl[i]) {
            return None;
        }
        let n = norm_clause_vec(&cl[i]);
        let ns = string_of_all(&n);
        match check_req(ns.as_str()) {
            Ok(()) => {
                proof { lemma_scan_step(cls, i as int); }
                out.push(VersionRange { text: ns });
            },
            Err(detail) => {
                let err = RangeError { range: range.to_owned(), normalized: ns, detail };
                return Some(Err(err));
            },
        }
        i += 1;
    }
    assert(scan_clauses(cls, i as int) == Some(Ok::<(), int>(())));
    assert(ranges_are(out@, cls.map_values(|c: Seq<char>| norm_clause(c))));
    Some(Ok(out))
}

/// Reads a version range of a manifest: `||`-separated clauses in npm syntax, each rewritten
/// into the syntax of `semver` and checked by it (see `version_reqs`).
pub fn parse_version_reqs(range: &str) -> (r: Result<Vec<VersionRange>, RangeError>)
    requires
        version_reqs(range@) is Some,
    ensures
        reqs_result(Some(r), range@),
{
    match scan_reqs(range) {
        Some(r) => r,
        None => {
            assert(false);
            Err(RangeError { range: range.to_owned(), normalized: String::new(), detail: String::new() })
        },
    }
}

/// `parse_version_reqs` where it can be read: `None` for a range whose rewriting would count
/// past `u64::MAX`.
pub fn try_parse_version_reqs(range: &str) -> (r: Option<Result<Vec<VersionRange>, RangeError>>)
    ensures
        reqs_result(r, range@),
{
    match scan_reqs(range) {
        Some(_) => Some(parse_version_reqs(range)),
        None => None,
    }
}

} // verus!
