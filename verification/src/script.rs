//! Static analysis of install scripts: patterns of behaviour that a script should be flagged for.
use vstd::prelude::*;

verus! {

/// Whether `regex::Regex::new(pattern)` compiles and its `is_match` finds a match in `text`.
pub uninterp spec fn regex_matches(pattern: Seq<char>, text: Seq<char>) -> bool;

/// Compiles `pattern` with `regex::Regex::new` and asks `is_match` of `text`; a pattern that does
/// not compile matches nothing.
#[verifier::external_body]
fn regex_is_match(pattern: &str, text: &str) -> (r: bool)
    ensures
        r == regex_matches(pattern@, text@),
{
    match regex::Regex::new(pattern) {
        Ok(re) => re.is_match(text),
        Err(_) => false,
    }
}

/// The rules of the analysis, in order: the warning, then the pattern that triggers it.
pub open spec fn script_rules() -> Seq<(Seq<char>, Seq<char>)> {
    seq![
        ("Accesses process.env (possible environment variable theft)"@, r"process\s*\.\s*env"@),
        ("Reads sensitive file path (.ssh, .aws, .env, /etc/passwd)"@, r#"(?:readFileSync|readFile|createReadStream)\s*\(\s*['"`].*?(?:\.ssh|\.aws|/etc/passwd|\.env).*?['"`]"#@),
        ("Spawns child processes (child_process)"@, r#"(?:require|import)\s*\(\s*['"`]child_process['"`]\s*\)"#@),
        ("Spawns child processes via exec/spawn"@, r"(?:exec|execSync|spawn|spawnSync|execFile|execFileSync|fork)\s*\("@),
        ("Makes outbound HTTP connections (http/https/net)"@, r#"(?:require|import)\s*\(\s*['"`](?:http|https|net|dgram)['"`]\s*\)"#@),
        ("Makes outbound HTTP connections using fetch"@, r"(?:^|[^.\w])fetch\s*\("@),
        ("Uses eval() (potential code injection)"@, r"(?:^|[^.\w])eval\s*\("@),
        ("Uses Function constructor (potential code injection)"@, r"new\s+Function\s*\("@),
        ("Accesses sensitive paths (.ssh, .aws, .cursor, .vscode, .claudecode)"@, r#"['"`].*?(?:\.ssh|\.aws|\.cursor|\.vscode|\.claudecode)[/\\].*?['"`]"#@),
        ("Writes to sensitive system paths"@, r#"(?:writeFileSync|writeFile|appendFileSync|appendFile)\s*\(\s*['"`].*?(?:/etc/|C:\\Windows|%APPDATA%).*?['"`]"#@),
        ("Downloads and executes remote code (curl | sh pattern)"@, r"curl\s+.*?\|\s*(?:sh|bash|node)"@),
        ("Downloads and executes remote code (wget | sh pattern)"@, r"wget\s+.*?\|\s*(?:sh|bash|node)"@),
        ("Uses PowerShell commands (possible malicious execution on Windows)"@, r"(?i)powershell\s+(?:-(?:enc|e|command|c)\s+|.*?Invoke-|.*?IEX\s)"@),
        ("Detects Base64 obfuscated string execution (atob/Buffer base64)"@, r#"(?:atob|btoa)\s*\(|Buffer\s*\.\s*from\s*\(\s*['"`][A-Za-z0-9+/=]{20,}['"`]\s*,\s*['"`]base64['"`]\s*\)"#@),
        ("Detects raw IP outbound connections or reverse shell syntax"@, r#"(?:/dev/tcp/|nc\s+-[e]|netcat\s+|connect\(\s*['"`]\d{1,3}\.\d{1,3}\.\d{1,3}\.\d{1,3})"#@),
        ("Explicit access to CI environment secret keys"@, r"process\s*\.\s*env\s*\.\s*(?:GITHUB_TOKEN|AWS_SECRET_ACCESS_KEY|NPM_TOKEN|SECRET_|PRIVATE_KEY)"@)
    ]
}

fn rules_vec() -> (r: Vec<(&'static str, &'static str)>)
    ensures
        r@.len() == script_rules().len(),
        forall|k: int| 0 <= k < r@.len() ==> (#[trigger] r@[k]).0@ == script_rules()[k].0 && r@[k].1@ == script_rules()[k].1,
{
    let mut r: Vec<(&'static str, &'static str)> = Vec::new();
    r.push(("Accesses process.env (possible environment variable theft)", r"process\s*\.\s*env"));
    r.push(("Reads sensitive file path (.ssh, .aws, .env, /etc/passwd)", r#"(?:readFileSync|readFile|createReadStream)\s*\(\s*['"`].*?(?:\.ssh|\.aws|/etc/passwd|\.env).*?['"`]"#));
    r.push(("Spawns child processes (child_process)", r#"(?:require|import)\s*\(\s*['"`]child_process['"`]\s*\)"#));
    r.push(("Spawns child processes via exec/spawn", r"(?:exec|execSync|spawn|spawnSync|execFile|execFileSync|fork)\s*\("));
    r.push(("Makes outbound HTTP connections (http/https/net)", r#"(?:require|import)\s*\(\s*['"`](?:http|https|net|dgram)['"`]\s*\)"#));
    r.push(("Makes outbound HTTP connections using fetch", r"(?:^|[^.\w])fetch\s*\("));
    r.push(("Uses eval() (potential code injection)", r"(?:^|[^.\w])eval\s*\("));
    r.push(("Uses Function constructor (potential code injection)", r"new\s+Function\s*\("));
    r.push(("Accesses sensitive paths (.ssh, .aws, .cursor, .vscode, .claudecode)", r#"['"`].*?(?:\.ssh|\.aws|\.cursor|\.vscode|\.claudecode)[/\\].*?['"`]"#));
    r.push(("Writes to sensitive system paths", r#"(?:writeFileSync|writeFile|appendFileSync|appendFile)\s*\(\s*['"`].*?(?:/etc/|C:\\Windows|%APPDATA%).*?['"`]"#));
    r.push(("Downloads and executes remote code (curl | sh pattern)", r"curl\s+.*?\|\s*(?:sh|bash|node)"));
    r.push(("Downloads and executes remote code (wget | sh pattern)", r"wget\s+.*?\|\s*(?:sh|bash|node)"));
    r.push(("Uses PowerShell commands (possible malicious execution on Windows)", r"(?i)powershell\s+(?:-(?:enc|e|command|c)\s+|.*?Invoke-|.*?IEX\s)"));
    r.push(("Detects Base64 obfuscated string execution (atob/Buffer base64)", r#"(?:atob|btoa)\s*\(|Buffer\s*\.\s*from\s*\(\s*['"`][A-Za-z0-9+/=]{20,}['"`]\s*,\s*['"`]base64['"`]\s*\)"#));
    r.push(("Detects raw IP outbound connections or reverse shell syntax", r#"(?:/dev/tcp/|nc\s+-[e]|netcat\s+|connect\(\s*['"`]\d{1,3}\.\d{1,3}\.\d{1,3}\.\d{1,3})"#));
    r.push(("Explicit access to CI environment secret keys", r"process\s*\.\s*env\s*\.\s*(?:GITHUB_TOKEN|AWS_SECRET_ACCESS_KEY|NPM_TOKEN|SECRET_|PRIVATE_KEY)"));
    r
}

/// The warnings of the rules from `rules` on whose pattern matches `content`, in order.
pub open spec fn flagged(rules: Seq<(Seq<char>, Seq<char>)>, content: Seq<char>) -> Seq<Seq<char>>
    decreases rules.len(),
{
    if rules.len() == 0 {
        Seq::empty()
    } else if regex_matches(rules.last().1, content) {
        flagged(rules.drop_last(), content).push(rules.last().0)
    } else {
        flagged(rules.drop_last(), content)
    }
}

/// The warnings that an install script earns: see `script_rules` and `flagged`.
pub fn analyze_script(script_content: &str) -> (r: Vec<String>)
    ensures
        crate::text::str_views(r@) == flagged(script_rules(), script_content@),
{
    let rules = rules_vec();
    let ghost all = script_rules();
    let mut warnings: Vec<String> = Vec::new();
    let mut i: usize = 0;
    while i < rules.len()
        invariant
            i <= rules@.len(),
            all == script_rules(),
            rules@.len() == all.len(),
            forall|k: int| 0 <= k < rules@.len() ==> (#[trigger] rules@[k]).0@ == all[k].0 && rules@[k].1@ == all[k].1,
            crate::text::str_views(warnings@) == flagged(all.take(i as int), script_content@),
        decreases rules@.len() - i,
    {
        let (message, pattern) = rules[i];
        assert(all.take(i + 1).drop_last() =~= all.take(i as int));
        assert(all.take(i + 1).last() == all[i as int]);
        let ghost before = warnings@;
        if regex_is_match(pattern, script_content) {
            warnings.push(message.to_owned());
            assert(crate::text::str_views(warnings@) =~= crate::text::str_views(before).push(message@));
        }
        i += 1;
    }
    assert(all.take(rules@.len() as int) =~= all);
    warnings
}

} // verus!
