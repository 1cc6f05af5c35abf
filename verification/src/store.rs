//! The content-addressed store: where an object or a package index lives, and the shield
//! that keeps its files read-only.
use vstd::prelude::*;
use crate::text::{
    join_path, join_path_exec, to_chars, slice_vec, string_of_all, replace, replace_vec, trim,
    trim_vec, eq_str,
};

verus! {

/// The switch that makes files of the store read-only, kept in a state file.
#[derive(Clone, Debug)]
pub struct ShieldManager {
    state_path: String,
}

impl View for ShieldManager {
    type V = Seq<char>;

    closed spec fn view(&self) -> Seq<char> {
        self.state_path@
    }
}

/// `.kumo/.shield_state` under the home directory (or under `.` without one).
pub open spec fn shield_state_path(home: Option<Seq<char>>) -> Seq<char> {
    let base = match home {
        Some(h) => h,
        None => seq!['.'],
    };
    join_path(join_path(base, ".kumo"@), ".shield_state"@)
}

/// The content of a state file switches the shield on when it is `on`, around whitespace.
pub open spec fn shield_on(content: Seq<char>) -> bool {
    trim(content) == "on"@
}

/// What the state file holds for a state: `on` or `off`.
pub open spec fn shield_text(active: bool) -> Seq<char> {
    if active { "on"@ } else { "off"@ }
}

impl ShieldManager {
    /// The shield of the user whose home directory is `home`.
    pub fn new(home: Option<&str>) -> (r: ShieldManager)
        ensures
            r@ == shield_state_path(match home { Some(h) => Some(h@), None => None }),
    {
        proof { reveal_strlit("."); }
        assert("."@ =~= seq!['.']);
        let base: &str = match home {
            Some(h) => h,
            None => ".",
        };
        let dir = join_path_exec(base, ".kumo");
        let state_path = join_path_exec(dir.as_str(), ".shield_state");
        ShieldManager { state_path }
    }

    /// The file that holds the state.
    pub fn state_path(&self) -> (r: &str)
        ensures
            r@ == self@,
    {
        self.state_path.as_str()
    }

    /// Whether the content of the state file switches the shield on: see `shield_on`.
    pub fn is_active_content(content: &str) -> (r: bool)
        ensures
            r == shield_on(content@),
    {
        let c = to_chars(content);
        let t = trim_vec(&c);
        eq_str(&t, "on")
    }

    /// What the state file holds for a state: see `shield_text`.
    pub fn state_text(active: bool) -> (r: &'static str)
        ensures
            r@ == shield_text(active),
    {
        if active { "on" } else { "off" }
    }
}

/// The store of package contents, under a root directory.
#[derive(Clone, Debug)]
pub struct Store {
    root: String,
    shield: ShieldManager,
}

impl View for Store {
    type V = Seq<char>;

    closed spec fn view(&self) -> Seq<char> {
        self.root@
    }
}

/// The number of bytes that a char takes in UTF-8.
pub open spec fn utf8_len(c: char) -> nat {
    if (c as u32) < 0x80 {
        1
    } else if (c as u32) < 0x800 {
        2
    } else if (c as u32) < 0x10000 {
        3
    } else {
        4
    }
}

/// The first two bytes of `hash` make whole chars (so `&hash[0..2]` does not panic).
pub open spec fn splits_at_two(hash: Seq<char>) -> bool {
    (hash.len() >= 2 && utf8_len(hash[0]) == 1 && utf8_len(hash[1]) == 1)
        || (hash.len() >= 1 && utf8_len(hash[0]) == 2)
}

/// The chars in the first two bytes of `hash`.
pub open spec fn head_chars(hash: Seq<char>) -> int {
    if utf8_len(hash[0]) == 2 { 1 } else { 2 }
}

/// Where the object of a hash lives: `objects/<first two bytes>/<rest>` under the root.
pub open spec fn object_path(root: Seq<char>, hash: Seq<char>) -> Seq<char> {
    join_path(
        join_path(join_path(root, "objects"@), hash.take(head_chars(hash))),
        hash.skip(head_chars(hash)),
    )
}

/// A package key made safe as a file name: `/` as `__`, then `@` as `@@`.
pub open spec fn safe_key(key: Seq<char>) -> Seq<char> {
    replace(replace(key, seq!['/'], seq!['_', '_']), seq!['@'], seq!['@', '@'])
}

/// Where the index of a package lives: `metadata/<safe key>.json` under the root.
pub open spec fn index_path(root: Seq<char>, key: Seq<char>) -> Seq<char> {
    join_path(join_path(root, "metadata"@), safe_key(key) + ".json"@)
}

impl Store {
    /// The shield that the store was made with.
    pub closed spec fn shield_of(&self) -> ShieldManager {
        self.shield
    }

    /// A store under `root`, shielded by `shield`.
    pub fn new(root: String, shield: ShieldManager) -> (r: Store)
        ensures
            r@ == root@,
            r.shield_of() == shield,
    {
        Store { root, shield }
    }

    /// The root directory.
    pub fn get_root(&self) -> (r: &str)
        ensures
            r@ == self@,
    {
        self.root.as_str()
    }

    /// The shield of the store.
    pub fn shield(&self) -> (r: &ShieldManager)
        ensures
            *r == self.shield_of(),
    {
        &self.shield
    }

    /// Where the object with this hash lives: see `object_path`.
    pub fn get_path(&self, hash: &str) -> (r: String)
        requires
            splits_at_two(hash@),
        ensures
            r@ == object_path(self@, hash@),
    {
        let h = to_chars(hash);
        let n: usize = if (h[0] as u32) >= 0x80 { 1 } else { 2 };
        assert(n == head_chars(hash@));
        let head = slice_vec(&h, 0, n);
        let tail = slice_vec(&h, n, h.len());
        assert(head@ =~= hash@.take(n as int));
        assert(tail@ =~= hash@.skip(n as int));
        let hs = string_of_all(&head);
        let ts = string_of_all(&tail);
        let objects = join_path_exec(self.root.as_str(), "objects");
        let dir = join_path_exec(objects.as_str(), hs.as_str());
        join_path_exec(dir.as_str(), ts.as_str())
    }

    /// Where the index of the package `key` lives: see `index_path`.
    pub fn get_index_path(&self, key: &str) -> (r: String)
        ensures
            r@ == index_path(self@, key@),
    {
        proof {
            reveal_strlit("/");
            reveal_strlit("__");
            reveal_strlit("@");
            reveal_strlit("@@");
        }
        assert("/"@ =~= seq!['/']);
        assert("__"@ =~= seq!['_', '_']);
        assert("@"@ =~= seq!['@']);
        assert("@@"@ =~= seq!['@', '@']);
        let k = to_chars(key);
        let a = replace_vec(&k, "/", "__");
        let mut b = replace_vec(&a, "@", "@@");
        crate::text::extend_str(&mut b, ".json");
        let file = string_of_all(&b);
        let meta = join_path_exec(self.root.as_str(), "metadata");
        join_path_exec(meta.as_str(), file.as_str())
    }
}

/// Whether an object in the store is referenced by no index, and so is pruned: its name is
/// the directory `prefix` followed by the file name `suffix`.
pub fn is_unreferenced(prefix: &str, suffix: &str, referenced: &Vec<String>) -> (r: bool)
    ensures
        r == !crate::text::str_views(referenced@).contains(prefix@ + suffix@),
{
    let mut full = prefix.to_owned();
    full.append(suffix);
    !crate::text::contains_str(referenced, full.as_str())
}

} // verus!
