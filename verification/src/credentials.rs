//! Registry credentials: one token and user name per registry URL.
use vstd::prelude::*;
use crate::text::{strip_trailing, to_chars, strip_trailing_vec, string_of_all, str_eq};

verus! {

/// The credential of one registry.
#[derive(Clone, Debug, Default)]
pub struct RegistryCredential {
    pub token: String,
    pub username: String,
}

/// The credentials of all registries, as entries keyed by registry URL.
#[derive(Clone, Debug, Default)]
pub struct Credentials {
    pub registries: Vec<(String, RegistryCredential)>,
}

/// The entries as (URL, (token, user name)).
pub open spec fn entry_views(v: Seq<(String, RegistryCredential)>) -> Seq<(Seq<char>, (Seq<char>, Seq<char>))> {
    v.map_values(|e: (String, RegistryCredential)| (e.0@, (e.1.token@, e.1.username@)))
}

/// The value of the first entry with URL `k`.
pub open spec fn first_value(e: Seq<(Seq<char>, (Seq<char>, Seq<char>))>, k: Seq<char>) -> Option<(Seq<char>, Seq<char>)>
    decreases e.len(),
{
    if e.len() == 0 {
        None
    } else if e[0].0 == k {
        Some(e[0].1)
    } else {
        first_value(e.drop_first(), k)
    }
}

impl View for Credentials {
    type V = Map<Seq<char>, (Seq<char>, Seq<char>)>;

    open spec fn view(&self) -> Map<Seq<char>, (Seq<char>, Seq<char>)> {
        let e = entry_views(self.registries@);
        Map::new(|k: Seq<char>| first_value(e, k) is Some, |k: Seq<char>| first_value(e, k)->Some_0)
    }
}

/// A registry URL as a key: without its trailing slashes.
pub open spec fn registry_key(url: Seq<char>) -> Seq<char> {
    strip_trailing(url, '/')
}

proof fn lemma_first_value_push(e: Seq<(Seq<char>, (Seq<char>, Seq<char>))>, x: (Seq<char>, (Seq<char>, Seq<char>)), k: Seq<char>)
    ensures
        first_value(e.push(x), k) == (match first_value(e, k) {
            Some(v) => Some(v),
            None => if x.0 == k { Some(x.1) } else { None },
        }),
    decreases e.len(),
{
    if e.len() > 0 {
        assert(e.push(x).drop_first() =~= e.drop_first().push(x));
        assert(e.push(x)[0] == e[0]);
        lemma_first_value_push(e.drop_first(), x, k);
    } else {
        assert(e.push(x).drop_first() =~= Seq::<(Seq<char>, (Seq<char>, Seq<char>))>::empty());
        assert(e.push(x)[0] == x);
        reveal_with_fuel(first_value, 2);
    }
}

proof fn lemma_first_value_update(e: Seq<(Seq<char>, (Seq<char>, Seq<char>))>, j: int, x: (Seq<char>, (Seq<char>, Seq<char>)), k: Seq<char>)
    requires
        0 <= j < e.len(),
        e[j].0 == x.0,
        forall|i: int| 0 <= i < j ==> e[i].0 != x.0,
    ensures
        first_value(e.update(j, x), k) == if k == x.0 { Some(x.1) } else { first_value(e, k) },
    decreases j,
{
    if j > 0 {
        assert(e.update(j, x).drop_first() =~= e.drop_first().update(j - 1, x));
        lemma_first_value_update(e.drop_first(), j - 1, x, k);
    } else {
        assert(e.update(j, x).drop_first() =~= e.drop_first());
    }
}

fn registry_key_exec(url: &str) -> (r: String)
    ensures
        r@ == registry_key(url@),
{
    let u = to_chars(url);
    let k = strip_trailing_vec(&u, '/');
    string_of_all(&k)
}

fn find_entry(v: &Vec<(String, RegistryCredential)>, key: &str) -> (r: Option<usize>)
    ensures
        (match r {
            Some(j) => j < v@.len() && v@[j as int].0@ == key@
                && forall|i: int| 0 <= i < j ==> #[trigger] v@[i].0@ != key@,
            None => forall|i: int| 0 <= i < v@.len() ==> #[trigger] v@[i].0@ != key@,
        }),
{
    let mut i: usize = 0;
    while i < v.len()
        invariant
            i <= v@.len(),
            forall|k: int| 0 <= k < i ==> #[trigger] v@[k].0@ != key@,
        decreases v@.len() - i,
    {
        if str_eq(v[i].0.as_str(), key) {
            return Some(i);
        }
        i += 1;
    }
    None
}

proof fn lemma_first_value_at(e: Seq<(Seq<char>, (Seq<char>, Seq<char>))>, j: int, k: Seq<char>)
    requires
        0 <= j < e.len(),
        e[j].0 == k,
        forall|i: int| 0 <= i < j ==> e[i].0 != k,
    ensures
        first_value(e, k) == Some(e[j].1),
    decreases j,
{
    if j > 0 {
        lemma_first_value_at(e.drop_first(), j - 1, k);
    }
}

proof fn lemma_first_value_none(e: Seq<(Seq<char>, (Seq<char>, Seq<char>))>, k: Seq<char>)
    requires
        forall|i: int| 0 <= i < e.len() ==> e[i].0 != k,
    ensures
        first_value(e, k) is None,
    decreases e.len(),
{
    if e.len() > 0 {
        lemma_first_value_none(e.drop_first(), k);
    }
}

/// The token stored for a registry, looked up by its URL without trailing slashes.
pub fn get_token(creds: &Credentials, registry_url: &str) -> (r: Option<String>)
    ensures
        (match r {
            Some(t) => creds@.contains_key(registry_key(registry_url@))
                && creds@[registry_key(registry_url@)].0 == t@,
            None => !creds@.contains_key(registry_key(registry_url@)),
        }),
{
    let key = registry_key_exec(registry_url);
    let ghost e = entry_views(creds.registries@);
    match find_entry(&creds.registries, key.as_str()) {
        Some(j) => {
            proof {
                assert forall|i: int| 0 <= i < j implies e[i].0 != key@ by {
                    assert(creds.registries@[i].0@ != key@);
                }
                lemma_first_value_at(e, j as int, key@);
            }
            Some(creds.registries[j].1.token.clone())
        },
        None => {
            proof {
                assert forall|i: int| 0 <= i < e.len() implies e[i].0 != key@ by {
                    assert(creds.registries@[i].0@ != key@);
                }
                lemma_first_value_none(e, key@);
            }
            None
        },
    }
}

/// Stores the credential of a registry under its URL without trailing slashes, in place of
/// any that it had.
pub fn set_credential(creds: &mut Credentials, registry_url: &str, username: String, token: String)
    ensures
        final(creds)@ == old(creds)@.insert(registry_key(registry_url@), (token@, username@)),
{
    let key = registry_key_exec(registry_url);
    let ghost e = entry_views(old(creds).registries@);
    let ghost x = (key@, (token@, username@));
    let entry = (key.clone(), RegistryCredential { token, username });
    match find_entry(&creds.registries, key.as_str()) {
        Some(j) => {
            creds.registries.set(j, entry);
            proof {
                assert(entry_views(creds.registries@) =~= e.update(j as int, x));
                assert forall|k: Seq<char>| #[trigger] first_value(entry_views(creds.registries@), k)
                    == (if k == x.0 { Some(x.1) } else { first_value(e, k) }) by {
                    assert forall|i: int| 0 <= i < j implies e[i].0 != x.0 by {
                        assert(old(creds).registries@[i].0@ != key@);
                    }
                    lemma_first_value_update(e, j as int, x, k);
                }
            }
        },
        None => {
            creds.registries.push(entry);
            proof {
                assert(entry_views(creds.registries@) =~= e.push(x));
                assert forall|i: int| 0 <= i < e.len() implies e[i].0 != key@ by {
                    assert(old(creds).registries@[i].0@ != key@);
                }
                lemma_first_value_none(e, key@);
                assert forall|k: Seq<char>| #[trigger] first_value(entry_views(creds.registries@), k)
                    == (if k == x.0 { Some(x.1) } else { first_value(e, k) }) by {
                    lemma_first_value_push(e, x, k);
                }
            }
        },
    }
    assert(creds@ =~= old(creds)@.insert(key@, (x.1)));
}

/// After a credential is set for a registry, its token is the one looked up there, under the
/// URL with or without trailing slashes; the other registries keep theirs.
pub proof fn lemma_token_after_set(
    before: Map<Seq<char>, (Seq<char>, Seq<char>)>,
    url: Seq<char>,
    token: Seq<char>,
    username: Seq<char>,
    other: Seq<char>,
)
    ensures
        before.insert(registry_key(url), (token, username))[registry_key(url)].0 == token,
        registry_key(other) != registry_key(url) ==> (
            before.insert(registry_key(url), (token, username)).contains_key(registry_key(other))
                == before.contains_key(registry_key(other))),
        registry_key(other) != registry_key(url) && before.contains_key(registry_key(other)) ==>
            before.insert(registry_key(url), (token, username))[registry_key(other)] == before[registry_key(other)],
{
}

} // verus!
