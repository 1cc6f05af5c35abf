//! What the registry says of a package tarball, and the paths of the files inside it.
use vstd::prelude::*;
use crate::text::{to_chars, slice_vec, string_of_all, starts_with, starts_with_str};

verus! {

/// A signature of a tarball by the registry.
#[derive(Clone, Debug, PartialEq, Eq)]
pub struct RegistrySignature {
    pub keyid: String,
    pub sig: String,
}

/// Where the registry publishes the attestations of a tarball.
#[derive(Clone, Debug, PartialEq, Eq)]
pub struct RegistryAttestations {
    pub url: String,
}

/// The `dist` entry of a published version.
#[derive(Clone, Debug)]
pub struct TarballInfo {
    pub tarball: String,
    pub shasum: String,
    pub size: u64,
    pub unpacked_size: u64,
    pub signatures: Option<Vec<RegistrySignature>>,
    pub npm_signature: Option<String>,
    pub attestations: Option<RegistryAttestations>,
}

impl TarballInfo {
    /// The size of the package on disk: its unpacked size where the registry gives one, else
    /// the size of the tarball.
    pub fn get_size(&self) -> (r: u64)
        ensures
            r == if self.unpacked_size > 0 { self.unpacked_size } else { self.size },
    {
        if self.unpacked_size > 0 {
            self.unpacked_size
        } else {
            self.size
        }
    }
}

/// The path of a file of a tarball within its package: without the leading `package/`.
pub open spec fn entry_path(path: Seq<char>) -> Seq<char> {
    if starts_with(path, "package/"@) { path.skip(8) } else { path }
}

/// Executable `entry_path`.
pub fn clean_entry_path(path: &str) -> (r: String)
    ensures
        r@ == entry_path(path@),
{
    proof { reveal_strlit("package/"); }
    assert("package/"@.len() == 8);
    if starts_with_str(path, "package/") {
        let p = to_chars(path);
        let rest = slice_vec(&p, 8, p.len());
        assert(rest@ =~= path@.skip(8));
        string_of_all(&rest)
    } else {
        path.to_owned()
    }
}

} // verus!

verus! {

/// What `tar` reads from a gzip-compressed tarball (`flate2::read::GzDecoder` under
/// `tar::Archive::entries`): `None` where reading fails; else each entry in order, as its path,
/// whether it is a regular file, and its content (for files only; other entries read as
/// empty with an empty path).
pub uninterp spec fn tar_gz_entries(data: Seq<u8>) -> Option<Seq<(Seq<char>, bool, Seq<u8>)>>;

/// The entries as text and bytes.
pub open spec fn entry_views(v: Seq<(String, bool, Vec<u8>)>) -> Seq<(Seq<char>, bool, Seq<u8>)> {
    v.map_values(|e: (String, bool, Vec<u8>)| (e.0@, e.1, e.2@))
}

/// Reads the entries of a gzip-compressed tarball with `flate2` and `tar`.
#[verifier::external_body]
fn read_tar_gz(data: &[u8]) -> (r: Option<Vec<(String, bool, Vec<u8>)>>)
    ensures
        (match r {
            Some(v) => tar_gz_entries(data@) == Some(entry_views(v@)),
            None => tar_gz_entries(data@) is None,
        }),
{
    let mut out = Vec::new();
    let mut archive = tar::Archive::new(flate2::read::GzDecoder::new(data));
    for entry in archive.entries().ok()? {
        let mut entry = entry.ok()?;
        if !entry.header().entry_type().is_file() {
            out.push((String::new(), false, Vec::new()));
            continue;
        }
        let path = entry.path().ok()?.to_string_lossy().to_string();
        let mut buf = Vec::new();
        std::io::Read::read_to_end(&mut entry, &mut buf).ok()?;
        out.push((path, true, buf));
    }
    Some(out)
}

/// The files of a package: the regular files of its tarball, in order, with their paths
/// within the package (see `entry_path`).
pub open spec fn package_files(entries: Seq<(Seq<char>, bool, Seq<u8>)>) -> Seq<(Seq<char>, Seq<u8>)>
    decreases entries.len(),
{
    if entries.len() == 0 {
        Seq::empty()
    } else if entries.last().1 {
        package_files(entries.drop_last()).push((entry_path(entries.last().0), entries.last().2))
    } else {
        package_files(entries.drop_last())
    }
}

fn copy_bytes(v: &Vec<u8>) -> (r: Vec<u8>)
    ensures
        r@ == v@,
{
    let mut r: Vec<u8> = Vec::new();
    let mut i: usize = 0;
    while i < v.len()
        invariant
            i <= v@.len(),
            r@ == v@.take(i as int),
        decreases v@.len() - i,
    {
        r.push(v[i]);
        i += 1;
        assert(r@ =~= v@.take(i as int));
    }
    assert(v@.take(v@.len() as int) =~= v@);
    r
}

/// The files of a package tarball, each with its path within the package: see
/// `package_files`; `None` where the tarball cannot be read.
pub fn unpack_package(data: &[u8]) -> (r: Option<Vec<(String, Vec<u8>)>>)
    ensures
        (match r {
            Some(v) => tar_gz_entries(data@) matches Some(e)
                && v@.map_values(|f: (String, Vec<u8>)| (f.0@, f.1@)) == package_files(e),
            None => tar_gz_entries(data@) is None,
        }),
{
    let entries = match read_tar_gz(data) {
        Some(e) => e,
        None => return None,
    };
    let ghost ev = entry_views(entries@);
    let mut out: Vec<(String, Vec<u8>)> = Vec::new();
    let mut i: usize = 0;
    let ghost orig = entries@;
    while i < entries.len()
        invariant
            i <= entries@.len(),
            entries@.len() == orig.len(),
            ev == entry_views(orig),
            forall|k: int| i <= k < orig.len() ==> entries@[k] == orig[k],
            out@.map_values(|f: (String, Vec<u8>)| (f.0@, f.1@)) == package_files(ev.take(i as int)),
        decreases entries@.len() - i,
    {
        assert(ev.take(i + 1).drop_last() =~= ev.take(i as int));
        assert(ev.take(i + 1).last() == ev[i as int]);
        let is_file = entries[i].1;
        let path = clean_entry_path(entries[i].0.as_str());
        let content = copy_bytes(&entries[i].2);
        let ghost before = out@;
        if is_file {
            out.push((path, content));
            assert(out@.map_values(|f: (String, Vec<u8>)| (f.0@, f.1@))
                =~= before.map_values(|f: (String, Vec<u8>)| (f.0@, f.1@)).push((entry_path(ev[i as int].0), ev[i as int].2)));
        }
        i += 1;
    }
    assert(ev.take(orig.len() as int) =~= ev);
    Some(out)
}

/// A linked file that is made executable: one under a `bin` directory, under `.bin`, or a
/// shell script.
pub open spec fn is_executable_path(rel: Seq<char>) -> bool {
    crate::text::contains_pat(rel, "/bin/"@) || starts_with(rel, "bin/"@)
        || crate::text::contains_pat(rel, ".bin"@) || crate::text::ends_with(rel, ".sh"@)
}

/// Executable `is_executable_path`.
pub fn is_executable_path_exec(rel: &str) -> (r: bool)
    ensures
        r == is_executable_path(rel@),
{
    crate::text::contains_pat_str(rel, "/bin/") || starts_with_str(rel, "bin/")
        || crate::text::contains_pat_str(rel, ".bin") || crate::text::ends_with_str(rel, ".sh")
}

/// Whether a failed copy of a file into a package is tried again: after fewer than ten
/// attempts, and only for the errors of a file in use (OS errors 32 and 5).
pub fn retry_link(attempts: u32, raw_os_error: Option<i32>) -> (r: bool)
    ensures
        r == (attempts < 10 && (raw_os_error == Some(32i32) || raw_os_error == Some(5i32))),
{
    if attempts >= 10 {
        return false;
    }
    match raw_os_error {
        Some(e) => e == 32 || e == 5,
        None => false,
    }
}

} // verus!
