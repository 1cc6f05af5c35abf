//! The decisions of `upgrade`: what kind of change a new version is, which versions an
//! upgrade of a given kind may pick, and how a manifest range is rewritten for it.
use vstd::prelude::*;
use crate::text::{trim, trim_vec, to_chars, slice_vec, string_of_all, str_eq, str_views, contains_str};
use crate::versions::{SemVer, semver_parse, semver_order, semver_text, parse_semver, compare_semver};
use crate::policy::{lowercase, to_lowercase};

verus! {

/// How far a new version is from the current one.
#[derive(Clone, Copy, Debug, PartialEq, Eq, Structural)]
pub enum ChangeType {
    Major,
    Minor,
    Patch,
    UpToDate,
}

impl ChangeType {
    /// The label of the change in the upgrade table.
    pub fn label(&self) -> (r: &'static str)
        ensures
            r@ == (match *self {
                ChangeType::Major => "major"@,
                ChangeType::Minor => "minor"@,
                ChangeType::Patch => "patch"@,
                ChangeType::UpToDate => "up to date"@,
            }),
    {
        match self {
            ChangeType::Major => "major",
            ChangeType::Minor => "minor",
            ChangeType::Patch => "patch",
            ChangeType::UpToDate => "up to date",
        }
    }
}

/// The section of the manifest that a dependency is declared in.
#[derive(Clone, Copy, Debug, PartialEq, Eq, Structural)]
pub enum DepSection {
    Dependencies,
    DevDependencies,
}

impl DepSection {
    /// The short label of the section: `dep` or `dev`.
    pub fn label(&self) -> (r: &'static str)
        ensures
            r@ == (match *self { DepSection::Dependencies => "dep"@, DepSection::DevDependencies => "dev"@ }),
    {
        match self {
            DepSection::Dependencies => "dep",
            DepSection::DevDependencies => "dev",
        }
    }

    /// The key of the section in the manifest.
    pub fn key(&self) -> (r: &'static str)
        ensures
            r@ == (match *self {
                DepSection::Dependencies => "dependencies"@,
                DepSection::DevDependencies => "devDependencies"@,
            }),
    {
        match self {
            DepSection::Dependencies => "dependencies",
            DepSection::DevDependencies => "devDependencies",
        }
    }
}

/// The kind of change between a current and a new version: up to date where the two parse to
/// the same version (or, where the current does not parse, are the same text); major where
/// either does not parse or the major numbers differ; else minor or patch.
pub open spec fn change_type(current: Seq<char>, new: Seq<char>) -> ChangeType {
    match semver_parse(current) {
        None => if current == new { ChangeType::UpToDate } else { ChangeType::Major },
        Some(c) => match semver_parse(new) {
            None => ChangeType::Major,
            Some(l) => if c == l {
                ChangeType::UpToDate
            } else if l.0 != c.0 {
                ChangeType::Major
            } else if l.1 != c.1 {
                ChangeType::Minor
            } else {
                ChangeType::Patch
            },
        },
    }
}

fn same_version(a: &SemVer, b: &SemVer) -> (r: bool)
    ensures
        r == (a@ == b@),
{
    a.major == b.major && a.minor == b.minor && a.patch == b.patch
        && str_eq(a.pre.as_str(), b.pre.as_str()) && str_eq(a.build.as_str(), b.build.as_str())
}

/// The kind of change from `current` to `new`: see `change_type`.
pub fn classify_change(current: &str, new: &str) -> (r: ChangeType)
    ensures
        r == change_type(current@, new@),
{
    let cur = match parse_semver(current) {
        Some(v) => v,
        None => return if str_eq(current, new) { ChangeType::UpToDate } else { ChangeType::Major },
    };
    let latest = match parse_semver(new) {
        Some(v) => v,
        None => return ChangeType::Major,
    };
    if same_version(&cur, &latest) {
        ChangeType::UpToDate
    } else if latest.major != cur.major {
        ChangeType::Major
    } else if latest.minor != cur.minor {
        ChangeType::Minor
    } else {
        ChangeType::Patch
    }
}

/// The kind of upgrade that an argument asks for: `major`, `minor`, or `patch` (also written
/// `parch`), in any case.
pub open spec fn upgrade_kind(lower: Seq<char>) -> Option<ChangeType> {
    if lower == "major"@ {
        Some(ChangeType::Major)
    } else if lower == "minor"@ {
        Some(ChangeType::Minor)
    } else if lower == "patch"@ || lower == "parch"@ {
        Some(ChangeType::Patch)
    } else {
        None
    }
}

/// The arguments of `upgrade` read in order: the kind that the last kind word names, and the
/// other arguments as package names.
pub open spec fn upgrade_args(args: Seq<Seq<char>>) -> (Option<ChangeType>, Seq<Seq<char>>)
    decreases args.len(),
{
    if args.len() == 0 {
        (None, Seq::empty())
    } else {
        let (kind, names) = upgrade_args(args.drop_last());
        match upgrade_kind(lowercase(args.last())) {
            Some(k) => (Some(k), names),
            None => (kind, names.push(args.last())),
        }
    }
}

/// Splits the arguments of `upgrade`: see `upgrade_args`.
pub fn parse_upgrade_args(args: &Vec<String>) -> (r: (Option<ChangeType>, Vec<String>))
    ensures
        (r.0, str_views(r.1@)) == upgrade_args(str_views(args@)),
{
    let ghost a = str_views(args@);
    let mut kind: Option<ChangeType> = None;
    let mut names: Vec<String> = Vec::new();
    let mut i: usize = 0;
    while i < args.len()
        invariant
            i <= args@.len(),
            a == str_views(args@),
            (kind, str_views(names@)) == upgrade_args(a.take(i as int)),
        decreases args@.len() - i,
    {
        assert(a.take(i + 1).drop_last() =~= a.take(i as int));
        assert(a.take(i + 1).last() == args@[i as int]@);
        let lower = to_lowercase(args[i].as_str());
        let l = lower.as_str();
        let ghost before = names@;
        if str_eq(l, "major") {
            kind = Some(ChangeType::Major);
        } else if str_eq(l, "minor") {
            kind = Some(ChangeType::Minor);
        } else if str_eq(l, "patch") || str_eq(l, "parch") {
            kind = Some(ChangeType::Patch);
        } else {
            names.push(args[i].clone());
            assert(str_views(names@) =~= str_views(before).push(args@[i as int]@));
        }
        i += 1;
    }
    assert(a.take(args@.len() as int) =~= a);
    (kind, names)
}

/// A version text without what comes before its first ASCII digit.
pub open spec fn from_first_digit(s: Seq<char>) -> Seq<char> {
    s.skip(first_digit(s, 0))
}

/// The index of the first ASCII digit from `i` on, or the length.
pub open spec fn first_digit(s: Seq<char>, i: int) -> int
    decreases s.len() - i,
{
    if i < 0 || i >= s.len() {
        s.len() as int
    } else if '0' <= s[i] && s[i] <= '9' {
        i
    } else {
        first_digit(s, i + 1)
    }
}

proof fn lemma_first_digit(s: Seq<char>, i: int)
    requires
        0 <= i <= s.len(),
    ensures
        i <= first_digit(s, i) <= s.len(),
        forall|k: int| i <= k < first_digit(s, i) ==> !('0' <= s[k] && s[k] <= '9'),
        first_digit(s, i) < s.len() ==> '0' <= s[first_digit(s, i)] && s[first_digit(s, i)] <= '9',
    decreases s.len() - i,
{
    if i < s.len() && !('0' <= s[i] && s[i] <= '9') {
        lemma_first_digit(s, i + 1);
    }
}

fn first_digit_exec(v: &Vec<char>) -> (r: usize)
    ensures
        r == first_digit(v@, 0),
{
    let mut i: usize = 0;
    while i < v.len()
        invariant
            i <= v@.len(),
            first_digit(v@, 0) == first_digit(v@, i as int),
        decreases v@.len() - i,
    {
        if '0' <= v[i] && v[i] <= '9' {
            return i;
        }
        i += 1;
    }
    i
}

/// The current version of a dependency with what comes before its first digit dropped (so that
/// `^1.2.3` reads as `1.2.3`).
pub fn clean_current_version(current: &str) -> (r: String)
    ensures
        r@ == from_first_digit(current@),
{
    let c = to_chars(current);
    let i = first_digit_exec(&c);
    proof { lemma_first_digit(c@, 0); }
    let rest = slice_vec(&c, i, c.len());
    assert(rest@ =~= c@.skip(i as int));
    string_of_all(&rest)
}

/// The versions that an upgrade of `kind` may move to from `cur`: a patch upgrade keeps the
/// major and minor numbers, a minor one the major number; both only go up.
pub open spec fn upgrade_candidate(kind: ChangeType, cur: Seq<char>, v: Seq<char>) -> bool {
    semver_parse(v) matches Some(p) && semver_parse(cur) matches Some(c) && (match kind {
        ChangeType::Patch => p.0 == c.0 && p.1 == c.1 && semver_order(v, cur) > 0,
        ChangeType::Minor => p.0 == c.0 && semver_order(v, cur) > 0,
        _ => false,
    })
}

/// Among the versions, the greatest that an upgrade of `kind` may move to; of equal ones the
/// last.
pub open spec fn upgrade_target(kind: ChangeType, cur: Seq<char>, vs: Seq<Seq<char>>) -> Option<Seq<char>>
    decreases vs.len(),
{
    if vs.len() == 0 {
        None
    } else {
        let prev = upgrade_target(kind, cur, vs.drop_last());
        let v = vs.last();
        if upgrade_candidate(kind, cur, v) {
            match prev {
                None => Some(v),
                Some(b) => if semver_order(v, b) >= 0 { Some(v) } else { prev },
            }
        } else {
            prev
        }
    }
}

/// No version that an upgrade of `kind` may move to is greater than the one it picks.
pub open spec fn target_is_greatest(kind: ChangeType, cur: Seq<char>, vs: Seq<Seq<char>>) -> bool {
    upgrade_target(kind, cur, vs) matches Some(b) ==> forall|k: int| 0 <= k < vs.len()
        && #[trigger] upgrade_candidate(kind, cur, vs[k]) ==> vs[k] == b || semver_order(vs[k], b) <= 0
}

proof fn lemma_target_parses(kind: ChangeType, cur: Seq<char>, vs: Seq<Seq<char>>)
    ensures
        upgrade_target(kind, cur, vs) matches Some(b) ==> semver_parse(b) is Some,
    decreases vs.len(),
{
    if vs.len() > 0 {
        lemma_target_parses(kind, cur, vs.drop_last());
    }
}

/// The version that an upgrade of `kind` picks among the published `versions` for a
/// dependency at `current`, as `semver` writes it: see `upgrade_target`.
pub fn pick_upgrade_target(kind: ChangeType, current: &str, versions: &Vec<String>) -> (r: Option<String>)
    ensures
        (match r {
            Some(t) => upgrade_target(kind, current@, str_views(versions@)) matches Some(b)
                && t@ == semver_text(semver_parse(b)->Some_0),
            None => upgrade_target(kind, current@, str_views(versions@)) is None,
        }),
        target_is_greatest(kind, current@, str_views(versions@)),
{
    let ghost vs = str_views(versions@);
    let cur = parse_semver(current);
    let mut best: Option<usize> = None;
    let mut i: usize = 0;
    while i < versions.len()
        invariant
            i <= versions@.len(),
            vs == str_views(versions@),
            (match cur { Some(c) => semver_parse(current@) == Some(c@), None => semver_parse(current@) is None }),
            (match best {
                Some(b) => b < i && upgrade_target(kind, current@, vs.take(i as int)) == Some(versions@[b as int]@)
                    && forall|k: int| 0 <= k < i && upgrade_candidate(kind, current@, #[trigger] vs[k])
                        ==> vs[k] == vs[b as int] || semver_order(vs[k], vs[b as int]) <= 0,
                None => upgrade_target(kind, current@, vs.take(i as int)) is None
                    && forall|k: int| 0 <= k < i ==> !upgrade_candidate(kind, current@, #[trigger] vs[k]),
            }),
        decreases versions@.len() - i,
    {
        assert(vs.take(i + 1).drop_last() =~= vs.take(i as int));
        assert(vs.take(i + 1).last() == versions@[i as int]@);
        let candidate = match (&cur, parse_semver(versions[i].as_str())) {
            (Some(c), Some(p)) => {
                let same_major = p.major == c.major;
                let same_minor = p.minor == c.minor;
                let fits = match kind {
                    ChangeType::Patch => same_major && same_minor,
                    ChangeType::Minor => same_major,
                    _ => false,
                };
                fits && compare_semver(versions[i].as_str(), current) > 0
            },
            _ => false,
        };
        if candidate {
            match best {
                None => {
                    best = Some(i);
                },
                Some(b) => {
                    proof { lemma_target_parses(kind, current@, vs.take(i as int)); }
                    let c = compare_semver(versions[i].as_str(), versions[b].as_str());
                    if c >= 0 {
                        assert forall|k: int| 0 <= k < i + 1 && upgrade_candidate(kind, current@, #[trigger] vs[k])
                            implies vs[k] == vs[i as int] || semver_order(vs[k], vs[i as int]) <= 0 by {
                            if k < i && vs[k] != vs[b as int] {
                                assert(semver_order(vs[k], vs[b as int]) <= 0);
                            }
                        }
                        best = Some(i);
                    }
                },
            }
        }
        i += 1;
    }
    assert(vs.take(versions@.len() as int) =~= vs);
    match best {
        Some(b) => {
            proof { lemma_target_parses(kind, current@, vs); }
            assert(target_is_greatest(kind, current@, vs));
            match parse_semver(versions[b].as_str()) {
                Some(p) => Some(p.to_text()),
                None => {
                    assert(false);
                    None
                },
            }
        },
        None => None,
    }
}

/// The range of a manifest rewritten for a new version: `^<version>` for `latest`, `*` or an
/// empty range; else the new version after what stood before the first digit of the range.
pub open spec fn updated_range(original: Seq<char>, new_version: Seq<char>) -> Seq<char> {
    let t = trim(original);
    if t == "latest"@ || t == "*"@ || t.len() == 0 {
        seq!['^'] + new_version
    } else {
        let prefix = t.take(if first_digit(t, 0) < t.len() { first_digit(t, 0) } else { 0 });
        prefix + new_version
    }
}

/// Rewrites the range of a manifest for a new version: see `updated_range`.
pub fn update_range_version(original_range: &str, new_version: &str) -> (r: String)
    ensures
        r@ == updated_range(original_range@, new_version@),
{
    let o = to_chars(original_range);
    let t = trim_vec(&o);
    proof {
        reveal_strlit("latest");
        reveal_strlit("*");
    }
    let ts = string_of_all(&t);
    if str_eq(ts.as_str(), "latest") || str_eq(ts.as_str(), "*") || t.len() == 0 {
        let mut r = String::new();
        crate::text::push_char(&mut r, '^');
        r.append(new_version);
        return r;
    }
    let d = first_digit_exec(&t);
    proof { lemma_first_digit(t@, 0); }
    let end: usize = if d < t.len() { d } else { 0 };
    let prefix = slice_vec(&t, 0, end);
    assert(prefix@ =~= t@.take(end as int));
    let mut r = string_of_all(&prefix);
    r.append(new_version);
    r
}

/// The range that an upgrade writes into the manifest: the bare version when asked for fixed
/// versions or when the range has nothing before its first digit, else the rewritten range
/// (a missing range reading as `latest`).
pub open spec fn upgraded_range(fixed: bool, original: Option<Seq<char>>, new_version: Seq<char>) -> Seq<char> {
    let o = match original { Some(s) => s, None => "latest"@ };
    let t = trim(o);
    if fixed || first_digit(t, 0) >= t.len() || first_digit(t, 0) == 0 {
        new_version
    } else {
        updated_range(o, new_version)
    }
}

/// Executable `upgraded_range`.
pub fn upgraded_range_for(fixed: bool, original: Option<&str>, new_version: &str) -> (r: String)
    ensures
        r@ == upgraded_range(fixed, match original { Some(s) => Some(s@), None => None }, new_version@),
{
    if fixed {
        return new_version.to_owned();
    }
    let o: &str = match original {
        Some(s) => s,
        None => "latest",
    };
    let c = to_chars(o);
    let t = trim_vec(&c);
    let d = first_digit_exec(&t);
    if d >= t.len() || d == 0 {
        new_version.to_owned()
    } else {
        update_range_version(o, new_version)
    }
}


/// Which versions `upgrade` looks at for a dependency.
#[derive(Clone, Copy, Debug, PartialEq, Eq, Structural)]
pub enum UpgradeQuery {
    /// The newest version that the declared range admits.
    WithinRange,
    /// The newest release (the `latest` tag), whatever the declared range.
    Latest,
    /// The newest patch (or minor) release above the current version.
    Stepwise(ChangeType),
}

/// What `upgrade` looks for: a `patch` or `minor` scope looks for stepwise upgrades, a `major`
/// scope or `--latest` for the newest release, and otherwise the declared ranges are kept.
pub fn upgrade_query(kind: Option<ChangeType>, latest: bool) -> (r: UpgradeQuery)
    ensures
        r == (match kind {
            Some(ChangeType::Patch) => UpgradeQuery::Stepwise(ChangeType::Patch),
            Some(ChangeType::Minor) => UpgradeQuery::Stepwise(ChangeType::Minor),
            Some(ChangeType::Major) => UpgradeQuery::Latest,
            _ => if latest { UpgradeQuery::Latest } else { UpgradeQuery::WithinRange },
        }),
{
    match kind {
        Some(ChangeType::Patch) => UpgradeQuery::Stepwise(ChangeType::Patch),
        Some(ChangeType::Minor) => UpgradeQuery::Stepwise(ChangeType::Minor),
        Some(ChangeType::Major) => UpgradeQuery::Latest,
        _ => if latest { UpgradeQuery::Latest } else { UpgradeQuery::WithinRange },
    }
}

} // verus!
