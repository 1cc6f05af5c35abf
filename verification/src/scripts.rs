//! Running the scripts of a manifest: which runs are cached, under which key, and how the
//! command and its environment are put together.
use vstd::prelude::*;
use crate::text::{to_chars, slice_vec, string_of_all, str_eq, str_views, ends_with, ends_with_str, replace, replace_vec, strip_leading, strip_leading_vec, extend, extend_str, contains_pat, contains_pat_str};
use crate::digest::{hex, blake3_of, content_hash};

verus! {

/// The inputs hashed for a cached `build` when the configuration names none: the sources of
/// generic, Next.js and Vite projects, their configuration files and `.env` files.
pub open spec fn default_build_inputs() -> Seq<Seq<char>> {
    seq![
        "src/**/*"@, "public/**/*"@, "pages/**/*"@, "app/**/*"@, "components/**/*"@,
        "*.json"@, "*.config.*"@, "*.ts"@, "*.js"@, "*.css"@, "*.html"@, ".env*"@
    ]
}

/// The outputs kept for a cached `build` when the configuration names none.
pub open spec fn default_build_outputs() -> Seq<Seq<char>> {
    seq!["dist"@, "build"@, ".next"@]
}

/// Whether and how a script's run is cached.
#[derive(Clone, Debug)]
pub struct CachePlan {
    pub use_cache: bool,
    pub inputs: Vec<String>,
    pub outputs: Vec<String>,
}

fn owned(items: &[&str]) -> (r: Vec<String>)
    ensures
        r@.len() == items@.len(),
        forall|i: int| 0 <= i < items@.len() ==> #[trigger] r@[i]@ == items@[i]@,
{
    let mut r: Vec<String> = Vec::new();
    let mut i: usize = 0;
    while i < items.len()
        invariant
            i <= items@.len(),
            r@.len() == i,
            forall|k: int| 0 <= k < i ==> #[trigger] r@[k]@ == items@[k]@,
        decreases items@.len() - i,
    {
        r.push(items[i].to_owned());
        i += 1;
    }
    r
}

/// The cache plan of a script: the configuration's entry for it where there is one (inputs and
/// outputs as listed); else `build` is cached with the default inputs and outputs; else no
/// caching.
pub fn cache_plan(name: &str, configured: Option<(Vec<String>, Vec<String>)>) -> (r: CachePlan)
    ensures
        (match configured {
            Some((i, o)) => r.use_cache && r.inputs@ == i@ && r.outputs@ == o@,
            None => if name@ == "build"@ {
                r.use_cache && str_views(r.inputs@) == default_build_inputs()
                    && str_views(r.outputs@) == default_build_outputs()
            } else {
                !r.use_cache && r.inputs@.len() == 0 && r.outputs@.len() == 0
            },
        }),
{
    match configured {
        Some((inputs, outputs)) => CachePlan { use_cache: true, inputs, outputs },
        None => {
            if str_eq(name, "build") {
                let inputs = owned(&[
                    "src/**/*", "public/**/*", "pages/**/*", "app/**/*", "components/**/*",
                    "*.json", "*.config.*", "*.ts", "*.js", "*.css", "*.html", ".env*",
                ]);
                let outputs = owned(&["dist", "build", ".next"]);
                assert(str_views(inputs@) =~= default_build_inputs());
                assert(str_views(outputs@) =~= default_build_outputs());
                CachePlan { use_cache: true, inputs, outputs }
            } else {
                CachePlan { use_cache: false, inputs: Vec::new(), outputs: Vec::new() }
            }
        },
    }
}

/// `str::trim_end_matches(pat)`: `s` without all the copies of `pat` at its end.
pub open spec fn trim_end_all(s: Seq<char>, pat: Seq<char>) -> Seq<char>
    decreases s.len(),
{
    if pat.len() > 0 && ends_with(s, pat) {
        trim_end_all(s.take(s.len() - pat.len()), pat)
    } else {
        s
    }
}

fn trim_end_all_exec(s: &str, pat: &str) -> (r: String)
    ensures
        r@ == trim_end_all(s@, pat@),
{
    let p = to_chars(pat);
    let mut cur = s.to_owned();
    if p.len() == 0 {
        return cur;
    }
    loop
        invariant
            p@ == pat@,
            p@.len() > 0,
            trim_end_all(s@, pat@) == trim_end_all(cur@, pat@),
        decreases cur@.len(),
    {
        if !ends_with_str(cur.as_str(), pat) {
            return cur;
        }
        let c = to_chars(cur.as_str());
        let t = slice_vec(&c, 0, c.len() - p.len());
        assert(t@ =~= cur@.take(cur@.len() - pat@.len()));
        cur = string_of_all(&t);
    }
}

/// The path that an output pattern names: without trailing `/**`, then `/*`, then `/`.
pub open spec fn output_path(pattern: Seq<char>) -> Seq<char> {
    trim_end_all(trim_end_all(trim_end_all(pattern, "/**"@), "/*"@), "/"@)
}

/// Executable `output_path`.
pub fn output_path_of(pattern: &str) -> (r: String)
    ensures
        r@ == output_path(pattern@),
{
    let a = trim_end_all_exec(pattern, "/**");
    let b = trim_end_all_exec(a.as_str(), "/*");
    trim_end_all_exec(b.as_str(), "/")
}

/// The extra arguments of a run as hashed: each one's bytes followed by a zero byte.
pub open spec fn args_input(args: Seq<Seq<u8>>) -> Seq<u8>
    decreases args.len(),
{
    if args.len() == 0 {
        Seq::empty()
    } else {
        args_input(args.drop_last()) + args.last() + seq![0u8]
    }
}

/// What a cached run is keyed by: the BLAKE3 hash of the script, then its extra arguments,
/// then the lockfile where there is one, then each input file's path and, where it could be
/// read, content.
pub open spec fn cache_input(
    script: Seq<u8>,
    args: Seq<Seq<u8>>,
    lock: Option<Seq<u8>>,
    files: Seq<(Seq<u8>, Option<Seq<u8>>)>,
) -> Seq<u8>
    decreases files.len(),
{
    if files.len() == 0 {
        script + args_input(args) + match lock { Some(l) => l, None => Seq::empty() }
    } else {
        let f = files.last();
        cache_input(script, args, lock, files.drop_last()) + f.0 + match f.1 { Some(d) => d, None => Seq::empty() }
    }
}

/// The views of the input files (path bytes, content).
pub open spec fn file_views(files: Seq<(Vec<u8>, Option<Vec<u8>>)>) -> Seq<(Seq<u8>, Option<Seq<u8>>)> {
    files.map_values(|f: (Vec<u8>, Option<Vec<u8>>)| (f.0@, match f.1 { Some(d) => Some(d@), None => None }))
}

fn append_bytes(v: &mut Vec<u8>, w: &Vec<u8>)
    ensures
        final(v)@ == old(v)@ + w@,
{
    let mut i: usize = 0;
    let ghost start = v@;
    while i < w.len()
        invariant
            i <= w@.len(),
            v@ == start + w@.take(i as int),
        decreases w@.len() - i,
    {
        v.push(w[i]);
        i += 1;
        assert(v@ =~= start + w@.take(i as int));
    }
    assert(w@.take(w@.len() as int) =~= w@);
}

/// The key of a cached run, in hexadecimal: see `cache_input`. The arguments are the UTF-8
/// bytes of those given to the script; the files come in the order in which they are hashed
/// (sorted by path).
pub fn script_cache_key(
    script: &Vec<u8>,
    args: &Vec<Vec<u8>>,
    lock: &Option<Vec<u8>>,
    files: &Vec<(Vec<u8>, Option<Vec<u8>>)>,
) -> (r: String)
    ensures
        r@ == hex(blake3_of(cache_input(script@, args@.map_values(|a: Vec<u8>| a@),
            match lock { Some(l) => Some(l@), None => None }, file_views(files@)))),
{
    let ghost lk = match lock { Some(l) => Some(l@), None => None::<Seq<u8>> };
    let ghost fs = file_views(files@);
    let ghost av = args@.map_values(|a: Vec<u8>| a@);
    let mut data: Vec<u8> = Vec::new();
    append_bytes(&mut data, script);
    let mut k: usize = 0;
    assert(av.take(0) =~= Seq::<Seq<u8>>::empty());
    assert(data@ =~= script@ + args_input(av.take(0)));
    while k < args.len()
        invariant
            k <= args@.len(),
            av == args@.map_values(|a: Vec<u8>| a@),
            data@ == script@ + args_input(av.take(k as int)),
        decreases args@.len() - k,
    {
        assert(av.take(k + 1).drop_last() =~= av.take(k as int));
        assert(av.take(k + 1).last() == args@[k as int]@);
        append_bytes(&mut data, &args[k]);
        data.push(0u8);
        k += 1;
        assert(data@ =~= script@ + args_input(av.take(k as int)));
    }
    assert(av.take(args@.len() as int) =~= av);
    match lock {
        Some(l) => append_bytes(&mut data, l),
        None => {},
    }
    assert(data@ =~= cache_input(script@, av, lk, fs.take(0)));
    let mut i: usize = 0;
    while i < files.len()
        invariant
            i <= files@.len(),
            fs == file_views(files@),
            av == args@.map_values(|a: Vec<u8>| a@),
            lk == match lock { Some(l) => Some(l@), None => None::<Seq<u8>> },
            data@ == cache_input(script@, av, lk, fs.take(i as int)),
        decreases files@.len() - i,
    {
        assert(fs.take(i + 1).drop_last() =~= fs.take(i as int));
        assert(fs.take(i + 1).last() == fs[i as int]);
        append_bytes(&mut data, &files[i].0);
        match &files[i].1 {
            Some(d) => append_bytes(&mut data, d),
            None => {},
        }
        i += 1;
    }
    assert(fs.take(files@.len() as int) =~= fs);
    content_hash(data.as_slice())
}

/// `NODE_OPTIONS` for a script: the import of the polyfills, before any options already set.
pub open spec fn node_options(polyfill_url: Seq<char>, old: Seq<char>) -> Seq<char> {
    if old.len() == 0 {
        "--import file://"@ + polyfill_url
    } else {
        "--import file://"@ + polyfill_url + seq![' '] + old
    }
}

/// Executable `node_options`.
pub fn node_options_for(polyfill_url: &str, old: &str) -> (r: String)
    ensures
        r@ == node_options(polyfill_url@, old@),
{
    let mut r = "--import file://".to_owned();
    r.append(polyfill_url);
    let o = to_chars(old);
    if o.len() > 0 {
        crate::text::push_char(&mut r, ' ');
        r.append(old);
    }
    r
}

/// The shell that runs a script and its arguments: `cmd /C <script>` on Windows, else
/// `sh -c <script>`, then the extra arguments.
pub open spec fn script_command(is_windows: bool, script: Seq<char>, args: Seq<Seq<char>>) -> (Seq<char>, Seq<Seq<char>>) {
    if is_windows {
        ("cmd"@, seq!["/C"@, script] + args)
    } else {
        ("sh"@, seq!["-c"@, script] + args)
    }
}

/// Executable `script_command`.
pub fn script_command_for(is_windows: bool, script: &str, args: &Vec<String>) -> (r: (String, Vec<String>))
    ensures
        (r.0@, str_views(r.1@)) == script_command(is_windows, script@, str_views(args@)),
{
    let mut out: Vec<String> = Vec::new();
    let prog = if is_windows {
        out.push("/C".to_owned());
        "cmd".to_owned()
    } else {
        out.push("-c".to_owned());
        "sh".to_owned()
    };
    out.push(script.to_owned());
    let ghost start = out@;
    let mut i: usize = 0;
    while i < args.len()
        invariant
            i <= args@.len(),
            out@ == start + args@.take(i as int),
        decreases args@.len() - i,
    {
        out.push(args[i].clone());
        i += 1;
        assert(out@ =~= start + args@.take(i as int));
    }
    assert(args@.take(args@.len() as int) =~= args@);
    assert(str_views(out@) =~= script_command(is_windows, script@, str_views(args@)).1);
    (prog, out)
}

/// A line of the script menu: the name padded with spaces to 15 chars, a space, the command.
pub open spec fn menu_item(name: Seq<char>, command: Seq<char>) -> Seq<char> {
    let pad = if name.len() < 15 { (15 - name.len()) as nat } else { 0nat };
    name + Seq::new(pad, |i: int| ' ') + seq![' '] + command
}

/// Executable `menu_item`.
pub fn menu_item_for(name: &str, command: &str) -> (r: String)
    ensures
        r@ == menu_item(name@, command@),
{
    let n = to_chars(name);
    let mut r = name.to_owned();
    let mut k: usize = n.len();
    let ghost start = r@;
    while k < 15
        invariant
            n@ == name@,
            r@ == start + Seq::new((k - n@.len()) as nat, |i: int| ' '),
            start == name@,
            n@.len() <= k <= 15 || (k == n@.len() && k >= 15),
        decreases 15 - k,
    {
        crate::text::push_char(&mut r, ' ');
        k += 1;
        assert(r@ =~= start + Seq::new((k - n@.len()) as nat, |i: int| ' '));
    }
    assert(r@ =~= name@ + Seq::new(if name@.len() < 15 { (15 - name@.len()) as nat } else { 0nat }, |i: int| ' '));
    crate::text::push_char(&mut r, ' ');
    r.append(command);
    r
}


// ---------------------------------------------------------------- TypeScript declarations

/// The directory under `@types` that holds a package's declarations: `@scope/name` as
/// `scope__name`, an unscoped name as it is.
pub open spec fn types_dir_name(name: Seq<char>) -> Seq<char> {
    if name.len() > 0 && name[0] == '@' {
        replace(strip_leading(name, '@'), seq!['/'], seq!['_', '_'])
    } else {
        name
    }
}

/// Executable `types_dir_name`.
pub fn types_dir_name_for(name: &str) -> (r: String)
    ensures
        r@ == types_dir_name(name@),
{
    let c = to_chars(name);
    if c.len() > 0 && c[0] == '@' {
        proof {
            reveal_strlit("/");
            reveal_strlit("__");
        }
        assert("/"@ =~= seq!['/']);
        assert("__"@ =~= seq!['_', '_']);
        let stripped = strip_leading_vec(&c, '@');
        let r = replace_vec(&stripped, "/", "__");
        string_of_all(&r)
    } else {
        name.to_owned()
    }
}

/// What the file system shows of one installed dependency, as far as deciding whether it
/// ships TypeScript declarations goes.
#[derive(Clone, Debug)]
pub struct TypesProbe {
    /// `@types/<types_dir_name>` exists under the dependency directory.
    pub types_dir_exists: bool,
    /// The package's own directory exists.
    pub package_dir_exists: bool,
    /// Its `package.json` parsed and holds a `types` or `typings` field.
    pub has_types_field: bool,
    /// Its `package.json` parsed and holds `exports`: that value written as JSON text.
    pub exports_json: Option<String>,
    /// `index.d.ts`, `dist/index.d.ts` or `lib/index.d.ts` exists in it.
    pub has_index_dts: bool,
    /// A file directly in it ends in `.d.ts`.
    pub has_dts_entry: bool,
}

/// Whether a dependency counts as typed: `@types` has it, or its directory exists and
/// its manifest, its exports or its files show declarations.
pub open spec fn package_typed(p: TypesProbe) -> bool {
    p.types_dir_exists || (p.package_dir_exists && (p.has_types_field
        || (p.exports_json is Some && contains_pat(p.exports_json->0@, ".d.ts"@))
        || p.has_index_dts || p.has_dts_entry))
}

/// Decides `package_typed` for a probe.
pub fn package_has_types(p: &TypesProbe) -> (r: bool)
    ensures
        r == package_typed(*p),
{
    if p.types_dir_exists {
        return true;
    }
    if !p.package_dir_exists {
        return false;
    }
    if p.has_types_field {
        return true;
    }
    match &p.exports_json {
        Some(e) => {
            if contains_pat_str(e.as_str(), ".d.ts") {
                return true;
            }
        },
        None => {},
    }
    p.has_index_dts || p.has_dts_entry
}

/// The declarations that let a project import a dependency by an `https://` or `http://` URL.
pub open spec fn url_module_decls(name: Seq<char>) -> Seq<char> {
    "declare module \"https://*/"@ + name + "\" {\n    export * from \""@ + name
        + "\";\n    const _default: any;\n    export default _default;\n}\n\n"@
        + "declare module \"http://*/"@ + name + "\" {\n    export * from \""@ + name
        + "\";\n    const _default: any;\n    export default _default;\n}\n\n"@
}

/// The URL declarations of all the dependencies, in order.
pub open spec fn url_decls(names: Seq<Seq<char>>) -> Seq<char>
    decreases names.len(),
{
    if names.len() == 0 {
        Seq::empty()
    } else {
        url_decls(names.drop_last()) + url_module_decls(names.last())
    }
}

/// The bare declarations of the dependencies without types of their own, in order.
pub open spec fn fallback_decls(names: Seq<Seq<char>>, typed: Seq<bool>) -> Seq<char>
    decreases names.len(),
{
    if names.len() == 0 || typed.len() == 0 {
        Seq::empty()
    } else {
        fallback_decls(names.drop_last(), typed.drop_last())
            + if typed.last() { Seq::empty() } else { "declare module \""@ + names.last() + "\";\n"@ }
    }
}

/// The project's `.kumo/kumo.d.ts`: Kumo's own declarations, then the fallback declarations,
/// then the URL declarations, each section under its comment where it is not empty.
pub open spec fn kumo_dts(base: Seq<char>, names: Seq<Seq<char>>, typed: Seq<bool>) -> Seq<char> {
    let f = fallback_decls(names, typed);
    let u = url_decls(names);
    base
        + (if f.len() > 0 { "\n// Fallback declarations for packages without built-in types\n"@ + f } else { Seq::empty() })
        + (if u.len() > 0 { "\n// Dynamic URL modules for project dependencies\n"@ + u } else { Seq::empty() })
}

/// Executable `kumo_dts`, for the dependency names and, at the same index, whether each
/// has types of its own.
pub fn kumo_dts_for(base: &str, names: &Vec<String>, typed: &Vec<bool>) -> (r: String)
    requires
        names@.len() == typed@.len(),
    ensures
        r@ == kumo_dts(base@, str_views(names@), typed@),
{
    let ghost ns = str_views(names@);
    let mut fallback: Vec<char> = Vec::new();
    let mut urls: Vec<char> = Vec::new();
    let mut i: usize = 0;
    while i < names.len()
        invariant
            i <= names@.len(),
            names@.len() == typed@.len(),
            ns == str_views(names@),
            urls@ == url_decls(ns.take(i as int)),
            fallback@ == fallback_decls(ns.take(i as int), typed@.take(i as int)),
        decreases names@.len() - i,
    {
        assert(ns.take(i + 1).drop_last() =~= ns.take(i as int));
        assert(ns.take(i + 1).last() == names@[i as int]@);
        assert(typed@.take(i + 1).drop_last() =~= typed@.take(i as int));
        let name = names[i].as_str();
        extend_str(&mut urls, "declare module \"https://*/");
        extend_str(&mut urls, name);
        extend_str(&mut urls, "\" {\n    export * from \"");
        extend_str(&mut urls, name);
        extend_str(&mut urls, "\";\n    const _default: any;\n    export default _default;\n}\n\n");
        extend_str(&mut urls, "declare module \"http://*/");
        extend_str(&mut urls, name);
        extend_str(&mut urls, "\" {\n    export * from \"");
        extend_str(&mut urls, name);
        extend_str(&mut urls, "\";\n    const _default: any;\n    export default _default;\n}\n\n");
        assert(urls@ =~= url_decls(ns.take(i + 1)));
        if !typed[i] {
            extend_str(&mut fallback, "declare module \"");
            extend_str(&mut fallback, name);
            extend_str(&mut fallback, "\";\n");
        }
        assert(fallback@ =~= fallback_decls(ns.take(i + 1), typed@.take(i + 1)));
        i += 1;
    }
    assert(ns.take(names@.len() as int) =~= ns);
    assert(typed@.take(names@.len() as int) =~= typed@);
    let mut out = to_chars(base);
    if fallback.len() > 0 {
        extend_str(&mut out, "\n// Fallback declarations for packages without built-in types\n");
        extend(&mut out, &fallback);
    }
    if urls.len() > 0 {
        extend_str(&mut out, "\n// Dynamic URL modules for project dependencies\n");
        extend(&mut out, &urls);
    }
    string_of_all(&out)
}

} // verus!
