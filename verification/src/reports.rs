//! The smaller decisions of the commands: the dependency graph, explanations, saved ranges,
//! automatic fixes, pruning targets and store integrity.
use vstd::prelude::*;
use crate::text::{
    to_chars, string_of_all, str_eq, str_views, starts_with, starts_with_str, replace, replace_vec,
};
use crate::store::utf8_len;
use crate::lockcheck::utf8_size;
use crate::digest::{hex, blake3_of, content_hash};
use crate::policy::{lowercase, to_lowercase};

verus! {

// ---------------------------------------------------------------- graph

/// The node that a dependency points at: the first package key (in order) that begins with the
/// dependency's name, else `name@range`.
pub open spec fn dep_node(keys: Seq<Seq<char>>, name: Seq<char>, range: Seq<char>) -> Seq<char>
    decreases keys.len(),
{
    if keys.len() == 0 {
        name + seq!['@'] + range
    } else if starts_with(keys[0], name) {
        keys[0]
    } else {
        dep_node(keys.drop_first(), name, range)
    }
}

/// A package of the lockfile as the graph sees it: its key and its dependencies.
#[derive(Clone, Debug)]
pub struct GraphPackage {
    pub key: String,
    pub dependencies: Option<Vec<(String, String)>>,
}

/// The edge line `  "<from>" -> "<to>";` and a newline.
pub open spec fn edge(from: Seq<char>, to: Seq<char>) -> Seq<char> {
    "  \""@ + from + "\" -> \""@ + to + "\";\n"@
}

/// The edges of the root dependencies, from `Project` to `name@version`.
pub open spec fn root_edges(roots: Seq<(String, String)>) -> Seq<char>
    decreases roots.len(),
{
    if roots.len() == 0 {
        Seq::empty()
    } else {
        root_edges(roots.drop_last()) + edge("Project"@, roots.last().0@ + seq!['@'] + roots.last().1@)
    }
}

/// The edges of one package's dependencies.
pub open spec fn dep_edges(keys: Seq<Seq<char>>, from: Seq<char>, deps: Seq<(String, String)>) -> Seq<char>
    decreases deps.len(),
{
    if deps.len() == 0 {
        Seq::empty()
    } else {
        dep_edges(keys, from, deps.drop_last()) + edge(from, dep_node(keys, deps.last().0@, deps.last().1@))
    }
}

/// The edges of all packages.
pub open spec fn package_edges(keys: Seq<Seq<char>>, pkgs: Seq<GraphPackage>) -> Seq<char>
    decreases pkgs.len(),
{
    if pkgs.len() == 0 {
        Seq::empty()
    } else {
        package_edges(keys, pkgs.drop_last()) + match pkgs.last().dependencies {
            Some(d) => dep_edges(keys, pkgs.last().key@, d@),
            None => Seq::empty(),
        }
    }
}

/// The dependency graph in the DOT language.
pub open spec fn dot_graph(roots: Seq<(String, String)>, pkgs: Seq<GraphPackage>) -> Seq<char> {
    "digraph G {\n"@ + "  node [shape=box, fontname=\"Arial\"];\n"@ + root_edges(roots)
        + package_edges(pkgs.map_values(|p: GraphPackage| p.key@), pkgs) + "}\n"@
}

fn dep_node_exec(pkgs: &Vec<GraphPackage>, name: &str, range: &str) -> (r: String)
    ensures
        r@ == dep_node(pkgs@.map_values(|p: GraphPackage| p.key@), name@, range@),
{
    let ghost keys = pkgs@.map_values(|p: GraphPackage| p.key@);
    let mut i: usize = 0;
    assert(keys.skip(0) =~= keys);
    while i < pkgs.len()
        invariant
            i <= pkgs@.len(),
            keys == pkgs@.map_values(|p: GraphPackage| p.key@),
            dep_node(keys, name@, range@) == dep_node(keys.skip(i as int), name@, range@),
        decreases pkgs@.len() - i,
    {
        let ghost rest = keys.skip(i as int);
        assert(rest[0] == pkgs@[i as int].key@);
        if starts_with_str(pkgs[i].key.as_str(), name) {
            return pkgs[i].key.clone();
        }
        assert(rest.drop_first() =~= keys.skip(i + 1));
        i += 1;
    }
    let mut r = name.to_owned();
    crate::text::push_char(&mut r, '@');
    r.append(range);
    r
}

fn push_edge(out: &mut String, from: &str, to: &str)
    ensures
        final(out)@ == old(out)@ + edge(from@, to@),
{
    out.append("  \"");
    out.append(from);
    out.append("\" -> \"");
    out.append(to);
    out.append("\";\n");
}

/// The dependency graph of a lockfile in the DOT language (see `dot_graph`): an edge from
/// `Project` to each root dependency, and from each package to each of its dependencies.
pub fn dependency_graph(roots: &Vec<(String, String)>, pkgs: &Vec<GraphPackage>) -> (r: String)
    ensures
        r@ == dot_graph(roots@, pkgs@),
{
    let ghost keys = pkgs@.map_values(|p: GraphPackage| p.key@);
    let mut dot = "digraph G {\n".to_owned();
    dot.append("  node [shape=box, fontname=\"Arial\"];\n");
    let ghost head = dot@;
    let mut i: usize = 0;
    while i < roots.len()
        invariant
            i <= roots@.len(),
            dot@ == head + root_edges(roots@.take(i as int)),
        decreases roots@.len() - i,
    {
        assert(roots@.take(i + 1).drop_last() =~= roots@.take(i as int));
        let mut target = roots[i].0.clone();
        crate::text::push_char(&mut target, '@');
        target.append(roots[i].1.as_str());
        push_edge(&mut dot, "Project", target.as_str());
        i += 1;
    }
    assert(roots@.take(roots@.len() as int) =~= roots@);
    let ghost mid = dot@;
    let mut j: usize = 0;
    while j < pkgs.len()
        invariant
            j <= pkgs@.len(),
            keys == pkgs@.map_values(|p: GraphPackage| p.key@),
            dot@ == mid + package_edges(keys, pkgs@.take(j as int)),
        decreases pkgs@.len() - j,
    {
        assert(pkgs@.take(j + 1).drop_last() =~= pkgs@.take(j as int));
        assert(pkgs@.take(j + 1).last() == pkgs@[j as int]);
        let ghost before = dot@;
        match &pkgs[j].dependencies {
            Some(deps) => {
                let mut k: usize = 0;
                while k < deps.len()
                    invariant
                        k <= deps@.len(),
                        j < pkgs@.len(),
                        keys == pkgs@.map_values(|p: GraphPackage| p.key@),
                        dot@ == before + dep_edges(keys, pkgs@[j as int].key@, deps@.take(k as int)),
                    decreases deps@.len() - k,
                {
                    assert(deps@.take(k + 1).drop_last() =~= deps@.take(k as int));
                    let to = dep_node_exec(pkgs, deps[k].0.as_str(), deps[k].1.as_str());
                    push_edge(&mut dot, pkgs[j].key.as_str(), to.as_str());
                    k += 1;
                }
                assert(deps@.take(deps@.len() as int) =~= deps@);
            },
            None => {},
        }
        j += 1;
    }
    assert(pkgs@.take(pkgs@.len() as int) =~= pkgs@);
    dot.append("}\n");
    dot
}

// ---------------------------------------------------------------- explain

/// A lockfile key is about the package `name`: it is the name, or the name followed by `@` (the
/// `@` sought at the name's length in bytes).
pub open spec fn key_is_about(key: Seq<char>, name: Seq<char>) -> bool {
    starts_with(key, name) && (key == name || (utf8_size(name) < key.len() && key[utf8_size(name) as int] == '@'))
}

/// Executable `key_is_about`.
pub fn key_is_about_exec(key: &str, name: &str) -> (r: bool)
    ensures
        r == key_is_about(key@, name@),
{
    if !starts_with_str(key, name) {
        return false;
    }
    if str_eq(key, name) {
        return true;
    }
    let k = to_chars(key);
    let n = to_chars(name);
    let mut bytes: usize = 0;
    let mut i: usize = 0;
    while i < n.len()
        invariant
            i <= n@.len(),
            n@ == name@,
            k@ == key@,
            key@ != name@,
            bytes == utf8_size(n@.take(i as int)),
            bytes <= k@.len(),
        decreases n@.len() - i,
    {
        let c = n[i];
        let w: usize = if (c as u32) < 0x80 { 1 } else if (c as u32) < 0x800 { 2 } else if (c as u32) < 0x10000 { 3 } else { 4 };
        assert(n@.take(i + 1).drop_last() =~= n@.take(i as int));
        assert(n@.take(i + 1).last() == c);
        assert(utf8_size(n@.take(i + 1)) == bytes + w);
        if w > k.len() - bytes {
            proof { lemma_size_prefix(n@, i + 1); }
            assert(!(utf8_size(name@) < key@.len()));
            return false;
        }
        bytes = bytes + w;
        i += 1;
    }
    assert(n@.take(n@.len() as int) =~= n@);
    bytes < k.len() && k[bytes] == '@'
}

proof fn lemma_size_prefix(s: Seq<char>, i: int)
    requires
        0 <= i <= s.len(),
    ensures
        utf8_size(s.take(i)) <= utf8_size(s),
    decreases s.len() - i,
{
    if i < s.len() {
        lemma_size_prefix(s, i + 1);
        assert(s.take(i + 1).drop_last() =~= s.take(i));
    } else {
        assert(s.take(i) =~= s);
    }
}

// ---------------------------------------------------------------- add

/// Whether `str`'s first char is numeric in the sense of `char::is_numeric`.
pub uninterp spec fn numeric_char(c: char) -> bool;

/// `char::is_numeric`.
#[verifier::external_body]
fn char_is_numeric(c: char) -> (r: bool)
    ensures
        r == numeric_char(c),
{
    c.is_numeric()
}

/// The range that `add` saves: `^<resolved>` for `latest`, `stable`, `*` or nothing; `^` and the
/// range for one that begins with a number; else the range as given.
pub open spec fn saved_range(req: Seq<char>, resolved: Seq<char>) -> Seq<char> {
    if req == "latest"@ || req == "stable"@ || req == "*"@ || req.len() == 0 {
        seq!['^'] + resolved
    } else if numeric_char(req[0]) {
        seq!['^'] + req
    } else {
        req
    }
}

/// Executable `saved_range`.
pub fn version_to_save(req: &str, resolved: &str) -> (r: String)
    ensures
        r@ == saved_range(req@, resolved@),
{
    let c = to_chars(req);
    proof { reveal_strlit("^"); }
    assert("^"@ =~= seq!['^']);
    if str_eq(req, "latest") || str_eq(req, "stable") || str_eq(req, "*") || c.len() == 0 {
        let mut r = "^".to_owned();
        r.append(resolved);
        r
    } else if char_is_numeric(c[0]) {
        let mut r = "^".to_owned();
        r.append(req);
        r
    } else {
        req.to_owned()
    }
}

// ---------------------------------------------------------------- audit fix

/// What an automatic fix does for a vulnerable package.
#[derive(Clone, Debug, PartialEq, Eq)]
pub enum FixDecision {
    /// Move to this range (`^<latest>`).
    Upgrade(String),
    /// The latest version is vulnerable too.
    LatestVulnerable,
    /// The package is already at its latest version.
    AlreadyLatest,
    /// The latest version could not be found.
    Unresolved,
}

/// The fix of a vulnerable package at `current`, given its latest version and whether that one
/// is vulnerable too.
pub fn fix_decision(current: &str, latest: Option<&str>, latest_vulnerable: bool) -> (r: FixDecision)
    ensures
        (match latest {
            None => r == FixDecision::Unresolved,
            Some(l) => if l@ == current@ {
                r == FixDecision::AlreadyLatest
            } else if latest_vulnerable {
                r == FixDecision::LatestVulnerable
            } else {
                r matches FixDecision::Upgrade(s) && s@ == seq!['^'] + l@
            },
        }),
{
    match latest {
        None => FixDecision::Unresolved,
        Some(l) => {
            if str_eq(l, current) {
                FixDecision::AlreadyLatest
            } else if latest_vulnerable {
                FixDecision::LatestVulnerable
            } else {
                let mut s = "^".to_owned();
                s.append(l);
                proof { reveal_strlit("^"); }
                FixDecision::Upgrade(s)
            }
        },
    }
}

// ---------------------------------------------------------------- prune

/// What pruning does with an entry found while searching for dependency directories.
#[derive(Clone, Copy, Debug, PartialEq, Eq, Structural)]
pub enum PruneEntry {
    /// Delete it.
    Delete,
    /// Search inside it.
    Descend,
    /// Leave it.
    Skip,
}

/// A directory named `node_modules`, `dependencies` or like the dependency directory is deleted;
/// other directories but `.git`, `.kumo` and `target` are searched; a `kumo.lock` file is
/// deleted in a full prune; anything else is left.
pub open spec fn prune_entry(name: Seq<char>, is_dir: bool, is_file: bool, deps_name: Seq<char>, full: bool) -> PruneEntry {
    if is_dir {
        if name == "node_modules"@ || name == "dependencies"@ || name == deps_name {
            PruneEntry::Delete
        } else if name != ".git"@ && name != ".kumo"@ && name != "target"@ {
            PruneEntry::Descend
        } else {
            PruneEntry::Skip
        }
    } else if is_file && full && name == "kumo.lock"@ {
        PruneEntry::Delete
    } else {
        PruneEntry::Skip
    }
}

/// Executable `prune_entry`.
pub fn classify_prune_entry(name: &str, is_dir: bool, is_file: bool, deps_name: &str, full: bool) -> (r: PruneEntry)
    ensures
        r == prune_entry(name@, is_dir, is_file, deps_name@, full),
{
    if is_dir {
        if str_eq(name, "node_modules") || str_eq(name, "dependencies") || str_eq(name, deps_name) {
            PruneEntry::Delete
        } else if !str_eq(name, ".git") && !str_eq(name, ".kumo") && !str_eq(name, "target") {
            PruneEntry::Descend
        } else {
            PruneEntry::Skip
        }
    } else if is_file && full && str_eq(name, "kumo.lock") {
        PruneEntry::Delete
    } else {
        PruneEntry::Skip
    }
}

/// The files that `lock` shields: the one named, else the configuration and the lockfile.
pub fn files_to_lock(file: Option<String>) -> (r: Vec<String>)
    ensures
        str_views(r@) == (match file {
            Some(f) => seq![f@],
            None => seq!["kumo.config.json"@, "kumo.lock"@],
        }),
{
    let mut r: Vec<String> = Vec::new();
    match file {
        Some(f) => r.push(f),
        None => {
            r.push("kumo.config.json".to_owned());
            r.push("kumo.lock".to_owned());
        },
    }
    assert(str_views(r@) =~= (match file {
        Some(f) => seq![f@],
        None => seq!["kumo.config.json"@, "kumo.lock"@],
    }));
    r
}

/// Whether `unlock` may make a file writable: only the configuration and the lockfile, by their
/// file names.
pub fn unlockable(file_name: &str) -> (r: bool)
    ensures
        r == (file_name@ == "kumo.config.json"@ || file_name@ == "kumo.lock"@),
{
    str_eq(file_name, "kumo.config.json") || str_eq(file_name, "kumo.lock")
}

// ---------------------------------------------------------------- doctor and init

/// Whether an object of the store is intact: its BLAKE3 hash is its name, the directory
/// `prefix` followed by the file name `suffix`.
pub fn object_intact(prefix: &str, suffix: &str, content: &[u8]) -> (r: bool)
    ensures
        r == (hex(blake3_of(content@)) == prefix@ + suffix@),
{
    let actual = content_hash(content);
    let mut expected = prefix.to_owned();
    expected.append(suffix);
    str_eq(actual.as_str(), expected.as_str())
}

/// The default name of a new package: the directory name lowercased, spaces as `-`; `project`
/// where there is none.
pub open spec fn default_package_name(dir_name: Option<Seq<char>>) -> Seq<char> {
    match dir_name {
        Some(n) => replace(lowercase(n), seq![' '], seq!['-']),
        None => "project"@,
    }
}

/// Executable `default_package_name`.
pub fn default_package_name_for(dir_name: Option<&str>) -> (r: String)
    ensures
        r@ == default_package_name(match dir_name { Some(n) => Some(n@), None => None }),
{
    match dir_name {
        Some(n) => {
            let l = to_lowercase(n);
            let c = to_chars(l.as_str());
            proof {
                reveal_strlit(" ");
                reveal_strlit("-");
            }
            assert(" "@ =~= seq![' ']);
            assert("-"@ =~= seq!['-']);
            let r = replace_vec(&c, " ", "-");
            string_of_all(&r)
        },
        None => "project".to_owned(),
    }
}

} // verus!
