//! Package keys (`name@version`) and command-line package arguments (`name@range`).
use vstd::prelude::*;
use crate::text::{first_from, lemma_first_from, find_char, to_chars, string_of, push_char};

verus! {

/// Where the separating `@` of `name@version` stands: the first `@` after a leading scope `@`.
pub open spec fn version_at(k: Seq<char>) -> Option<int> {
    if k.len() > 0 && k[0] == '@' {
        first_from(k, 1, '@')
    } else {
        first_from(k, 0, '@')
    }
}

/// Splits `k` at its separating `@`; with none, the whole of `k` with `default` as version.
pub open spec fn split_package(k: Seq<char>, default: Seq<char>) -> (Seq<char>, Seq<char>) {
    match version_at(k) {
        Some(i) => (k.take(i), k.skip(i + 1)),
        None => (k, default),
    }
}

/// A name that can stand before `@version` in a key: not empty, with no `@` but a leading one.
pub open spec fn is_key_name(n: Seq<char>) -> bool {
    n.len() > 0 && forall|i: int| 1 <= i < n.len() ==> n[i] != '@'
}

fn split_package_exec(key: &str, default: &str) -> (r: (String, String))
    ensures
        (r.0@, r.1@) == split_package(key@, default@),
{
    let k = to_chars(key);
    let at = if k.len() > 0 && k[0] == '@' {
        find_char(&k, 1, '@')
    } else {
        find_char(&k, 0, '@')
    };
    match at {
        Some(i) => {
            proof {
                lemma_first_from(k@, if k@.len() > 0 && k@[0] == '@' { 1 } else { 0 }, '@');
            }
            let name = string_of(&k, 0, i);
            let version = string_of(&k, i + 1, k.len());
            assert(k@.subrange(0, i as int) =~= k@.take(i as int));
            assert(k@.subrange(i + 1, k@.len() as int) =~= k@.skip(i + 1));
            (name, version)
        },
        None => (key.to_owned(), default.to_owned()),
    }
}

/// Splits a lockfile package key `name@version`; a key without version gives `"unknown"`.
pub fn parse_package_id(key: &str) -> (r: (String, String))
    ensures
        (r.0@, r.1@) == split_package(key@, "unknown"@),
{
    split_package_exec(key, "unknown")
}

/// Splits a command-line argument `name@range`; an argument without range gives `"latest"`.
pub fn parse_package_arg(arg: &str) -> (r: (String, String))
    ensures
        (r.0@, r.1@) == split_package(arg@, "latest"@),
{
    split_package_exec(arg, "latest")
}

/// The lockfile key of a package: `name@version`.
pub fn package_key(name: &str, version: &str) -> (r: String)
    ensures
        r@ == name@ + seq!['@'] + version@,
{
    let mut r = name.to_owned();
    push_char(&mut r, '@');
    r.append(version);
    r
}

/// A key made of a key name and any version splits back into that name and version.
pub proof fn lemma_package_key_roundtrip(name: Seq<char>, version: Seq<char>, default: Seq<char>)
    requires
        is_key_name(name),
    ensures
        split_package(name + seq!['@'] + version, default) == (name, version),
{
    let k = name + seq!['@'] + version;
    let start: int = if k[0] == '@' { 1 } else { 0 };
    lemma_first_from(k, start, '@');
    assert(k[name.len() as int] == '@');
    assert(forall|j: int| start <= j < name.len() ==> k[j] == name[j]);
    assert(k.take(name.len() as int) =~= name);
    assert(k.skip(name.len() + 1int) =~= version);
}

} // verus!
