//! The sandbox of install scripts: what environment a script keeps, and how each platform's
//! confinement is asked for. The commands themselves are started by the caller.
use vstd::prelude::*;
use crate::text::{join_path, join_path_exec, str_views};

verus! {

/// The settings of one sandboxed run.
#[derive(Clone, Debug)]
pub struct SandboxConfig {
    pub allow_network: bool,
    pub pkg_dir: String,
}

/// The builder of sandboxed commands.
#[derive(Clone, Debug)]
pub struct SandboxRunner;

/// The environment variables that a sandboxed script keeps, in order.
pub open spec fn allowed_env_vars() -> Seq<Seq<char>> {
    seq!["PATH"@, "PATHEXT"@, "SYSTEMROOT"@, "WINDIR"@, "COMSPEC"@, "TEMP"@, "TMP"@, "TMPDIR"@, "PROCESSOR_ARCHITECTURE"@, "NUMBER_OF_PROCESSORS"@, "LANG"@, "LC_ALL"@, "LC_CTYPE"@, "TERM"@, "COLORTERM"@, "NODE_PATH"@, "NODE_NO_WARNINGS"@]
}

fn owned(items: &[&str]) -> (r: Vec<String>)
    ensures
        r@.len() == items@.len(),
        forall|i: int| 0 <= i < items@.len() ==> #[trigger] r@[i]@ == items@[i]@,
{
    let mut r: Vec<String> = Vec::new();
    let mut i: usize = 0;
    while i < items.len()
        invariant
            i <= items@.len(),
            r@.len() == i,
            forall|k: int| 0 <= k < i ==> #[trigger] r@[k]@ == items@[k]@,
        decreases items@.len() - i,
    {
        r.push(items[i].to_owned());
        i += 1;
    }
    r
}

/// The views of a list of pairs of strings.
pub open spec fn env_views(v: Seq<(String, String)>) -> Seq<(Seq<char>, Seq<char>)> {
    v.map_values(|p: (String, String)| (p.0@, p.1@))
}

/// The kept variables that have a value, with it, in the order of `allowed_env_vars`.
pub open spec fn kept_vars(names: Seq<Seq<char>>, values: Seq<Option<Seq<char>>>) -> Seq<(Seq<char>, Seq<char>)>
    decreases names.len(),
{
    if names.len() == 0 || values.len() == 0 {
        Seq::empty()
    } else {
        let rest = kept_vars(names.drop_last(), values.drop_last());
        match values.last() {
            Some(v) => rest.push((names.last(), v)),
            None => rest,
        }
    }
}

/// The home directory of a sandbox: `.kumo_sandbox_home` in the package directory.
pub open spec fn fake_home(pkg_dir: Seq<char>) -> Seq<char> {
    join_path(pkg_dir, ".kumo_sandbox_home"@)
}

/// The whole environment of a sandboxed script: the kept variables, then `HOME` and
/// `USERPROFILE` at the fake home, `APPDATA` and `LOCALAPPDATA` under it.
pub open spec fn sandbox_env(pkg_dir: Seq<char>, values: Seq<Option<Seq<char>>>) -> Seq<(Seq<char>, Seq<char>)> {
    let h = fake_home(pkg_dir);
    kept_vars(allowed_env_vars(), values)
        + seq![("HOME"@, h), ("USERPROFILE"@, h), ("APPDATA"@, join_path(h, "AppData"@)),
            ("LOCALAPPDATA"@, join_path(h, "LocalAppData"@))]
}

/// The variables that point the network of a script at a dead proxy when it is denied.
pub open spec fn proxy_env(allow_network: bool) -> Seq<(Seq<char>, Seq<char>)> {
    if allow_network {
        Seq::empty()
    } else {
        seq![("HTTP_PROXY"@, "http://127.0.0.1:9999"@), ("HTTPS_PROXY"@, "http://127.0.0.1:9999"@),
            ("NODE_TLS_REJECT_UNAUTHORIZED"@, "0"@)]
    }
}

/// The arguments of `bwrap` on Linux: a fresh namespace (without network where it is denied),
/// the system directories read-only, the package directory writable and current, then
/// `sh -c <script>`.
pub open spec fn linux_args(pkg_dir: Seq<char>, script: Seq<char>, allow_network: bool) -> Seq<Seq<char>> {
    seq!["--unshare-all"@]
        + (if allow_network { Seq::empty() } else { seq!["--unshare-net"@] })
        + seq!["--ro-bind"@, "/usr"@, "/usr"@, "--ro-bind"@, "/lib"@, "/lib"@, "--ro-bind"@, "/lib64"@, "/lib64"@, "--ro-bind"@, "/bin"@, "/bin"@, "--ro-bind"@, "/sbin"@, "/sbin"@, "--ro-bind"@, "/etc"@, "/etc"@,
            "--proc"@, "/proc"@, "--dev"@, "/dev"@,
            "--bind"@, pkg_dir, pkg_dir, "--chdir"@, pkg_dir, "sh"@, "-c"@, script]
}

/// The `sandbox-exec` profile on macOS: all denied but forking, sysctl reads, file reads, the
/// network where it is allowed, and writes under `/private/tmp` and the package directory.
pub open spec fn macos_profile(pkg_dir: Seq<char>, allow_network: bool) -> Seq<char> {
    "\n            (version 1)\n            (deny default)\n            (allow process-fork)\n            (allow sysctl-read)\n            (allow file-read*)\n            "@
        + (if allow_network { "(allow network*)"@ } else { "(deny network*)"@ })
        + "\n            (allow file-write* (subpath \"/private/tmp\"))\n            (allow file-write* (subpath \""@ + pkg_dir + "\"))\n            "@
}

/// The shell that runs a script outside any sandbox tool: `cmd /c` on Windows, else `sh -c`.
pub open spec fn shell_command(is_windows: bool, script: Seq<char>) -> (Seq<char>, Seq<Seq<char>>) {
    if is_windows { ("cmd"@, seq!["/c"@, script]) } else { ("sh"@, seq!["-c"@, script]) }
}

impl SandboxRunner {
    /// The names of the variables that a script keeps (see `allowed_env_vars`).
    pub fn allowed_env_vars() -> (r: Vec<String>)
        ensures
            str_views(r@) == allowed_env_vars(),
    {
        let r = owned(&["PATH", "PATHEXT", "SYSTEMROOT", "WINDIR", "COMSPEC", "TEMP", "TMP", "TMPDIR", "PROCESSOR_ARCHITECTURE", "NUMBER_OF_PROCESSORS", "LANG", "LC_ALL", "LC_CTYPE", "TERM", "COLORTERM", "NODE_PATH", "NODE_NO_WARNINGS"]);
        assert(str_views(r@) =~= allowed_env_vars());
        r
    }

    /// The environment of a sandboxed script, given the values that the kept variables have
    /// (aligned with `allowed_env_vars`): see `sandbox_env`.
    pub fn setup_env(pkg_dir: &str, values: &Vec<Option<String>>) -> (r: Vec<(String, String)>)
        requires
            values@.len() == allowed_env_vars().len(),
        ensures
            env_views(r@) == sandbox_env(pkg_dir@, values@.map_values(|o: Option<String>| match o { Some(s) => Some(s@), None => None })),
    {
        let names = SandboxRunner::allowed_env_vars();
        let ghost vv = values@.map_values(|o: Option<String>| match o { Some(s) => Some(s@), None => None });
        let mut r: Vec<(String, String)> = Vec::new();
        let mut i: usize = 0;
        while i < names.len()
            invariant
                i <= names@.len(),
                names@.len() == values@.len(),
                str_views(names@) == allowed_env_vars(),
                vv == values@.map_values(|o: Option<String>| match o { Some(s) => Some(s@), None => None }),
                env_views(r@) == kept_vars(allowed_env_vars().take(i as int), vv.take(i as int)),
            decreases names@.len() - i,
        {
            assert(allowed_env_vars().take(i + 1).drop_last() =~= allowed_env_vars().take(i as int));
            assert(vv.take(i + 1).drop_last() =~= vv.take(i as int));
            assert(allowed_env_vars().take(i + 1).last() == names@[i as int]@);
            let ghost before = r@;
            match &values[i] {
                Some(v) => {
                    r.push((names[i].clone(), v.clone()));
                    assert(env_views(r@) =~= env_views(before).push((names@[i as int]@, v@)));
                },
                None => {},
            }
            i += 1;
        }
        assert(allowed_env_vars().take(names@.len() as int) =~= allowed_env_vars());
        assert(vv.take(names@.len() as int) =~= vv);
        let home = join_path_exec(pkg_dir, ".kumo_sandbox_home");
        let app = join_path_exec(home.as_str(), "AppData");
        let local = join_path_exec(home.as_str(), "LocalAppData");
        let ghost kept = r@;
        r.push(("HOME".to_owned(), home.clone()));
        r.push(("USERPROFILE".to_owned(), home));
        r.push(("APPDATA".to_owned(), app));
        r.push(("LOCALAPPDATA".to_owned(), local));
        assert(env_views(r@) =~= sandbox_env(pkg_dir@, vv));
        r
    }

    /// The proxy variables of a script (see `proxy_env`).
    pub fn proxy_env(allow_network: bool) -> (r: Vec<(String, String)>)
        ensures
            env_views(r@) == proxy_env(allow_network),
    {
        let mut r: Vec<(String, String)> = Vec::new();
        if !allow_network {
            r.push(("HTTP_PROXY".to_owned(), "http://127.0.0.1:9999".to_owned()));
            r.push(("HTTPS_PROXY".to_owned(), "http://127.0.0.1:9999".to_owned()));
            r.push(("NODE_TLS_REJECT_UNAUTHORIZED".to_owned(), "0".to_owned()));
        }
        assert(env_views(r@) =~= proxy_env(allow_network));
        r
    }

    /// The arguments of `bwrap` (see `linux_args`).
    pub fn linux_args(pkg_dir: &str, script: &str, allow_network: bool) -> (r: Vec<String>)
        ensures
            str_views(r@) == linux_args(pkg_dir@, script@, allow_network),
    {
        let mut r: Vec<String> = Vec::new();
        r.push("--unshare-all".to_owned());
        if !allow_network {
            r.push("--unshare-net".to_owned());
        }
        let fixed = owned(&["--ro-bind", "/usr", "/usr", "--ro-bind", "/lib", "/lib", "--ro-bind", "/lib64", "/lib64", "--ro-bind", "/bin", "/bin", "--ro-bind", "/sbin", "/sbin", "--ro-bind", "/etc", "/etc", "--proc", "/proc", "--dev", "/dev", "--bind"]);
        let mut i: usize = 0;
        let ghost start = r@;
        while i < fixed.len()
            invariant
                i <= fixed@.len(),
                r@ == start + fixed@.take(i as int),
            decreases fixed@.len() - i,
        {
            r.push(fixed[i].clone());
            assert(r@ =~= start + fixed@.take(i + 1));
            i += 1;
        }
        assert(fixed@.take(fixed@.len() as int) =~= fixed@);
        r.push(pkg_dir.to_owned());
        r.push(pkg_dir.to_owned());
        r.push("--chdir".to_owned());
        r.push(pkg_dir.to_owned());
        r.push("sh".to_owned());
        r.push("-c".to_owned());
        r.push(script.to_owned());
        assert(str_views(r@) =~= linux_args(pkg_dir@, script@, allow_network));
        r
    }

    /// The profile of `sandbox-exec` (see `macos_profile`).
    pub fn macos_profile(pkg_dir: &str, allow_network: bool) -> (r: String)
        ensures
            r@ == macos_profile(pkg_dir@, allow_network),
    {
        let mut m = String::new();
        m.append("\n            (version 1)\n            (deny default)\n            (allow process-fork)\n            (allow sysctl-read)\n            (allow file-read*)\n            ");
        m.append(if allow_network { "(allow network*)" } else { "(deny network*)" });
        m.append("\n            (allow file-write* (subpath \"/private/tmp\"))\n            (allow file-write* (subpath \"");
        m.append(pkg_dir);
        m.append("\"))\n            ");
        m
    }

    /// The shell and its arguments for a script run outside any sandbox tool (see
    /// `shell_command`).
    pub fn shell_command(is_windows: bool, script: &str) -> (r: (String, Vec<String>))
        ensures
            (r.0@, str_views(r.1@)) == shell_command(is_windows, script@),
    {
        let mut args: Vec<String> = Vec::new();
        let prog = if is_windows {
            args.push("/c".to_owned());
            "cmd".to_owned()
        } else {
            args.push("-c".to_owned());
            "sh".to_owned()
        };
        args.push(script.to_owned());
        assert(str_views(args@) =~= shell_command(is_windows, script@).1);
        (prog, args)
    }
}

} // verus!
