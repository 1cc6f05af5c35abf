//! The arguments of the command-line commands, as plain data.
use vstd::prelude::*;

verus! {

/// `add <name>`: adds a dependency.
#[derive(Clone, Debug)]
pub struct AddCommand {
    pub name: String,
    pub dev: bool,
    pub global: bool,
    pub log: bool,
}

/// `auth`: stores the credentials of a registry.
#[derive(Clone, Debug)]
pub struct AuthCommand {
    pub registry: Option<String>,
    pub token: Option<String>,
    pub username: Option<String>,
    pub password: Option<String>,
}

/// `ci`: a frozen, audited install.
#[derive(Clone, Debug)]
pub struct CiCommand {
    pub frozen: bool,
    pub audit: bool,
    pub ignore_scripts: bool,
    pub format: String,
    pub audit_level: Option<String>,
}

/// One vulnerability that an audit found in an installed package.
#[derive(Clone, Debug)]
pub struct AuditFinding {
    pub package: String,
    pub version: String,
    pub vuln_id: String,
    pub severity: String,
    pub summary: String,
}

/// The actions of `config`.
#[derive(Clone, Debug)]
pub enum ConfigSubcommand {
    Init,
    Default { setting: String, value: String },
}

/// `config`: edits the configuration.
#[derive(Clone, Debug)]
pub struct ConfigCommand {
    pub subcommand: ConfigSubcommand,
}

/// The actions of `deps`.
#[derive(Clone, Debug)]
pub enum DepsSubcommand {
    Publish { path: String, registry: Option<String> },
}

/// `deps`: publishing.
#[derive(Clone, Debug)]
pub struct DepsCommand {
    pub subcommand: DepsSubcommand,
}

/// `doctor`: health checks.
#[derive(Clone, Debug)]
pub struct DoctorCommand;

/// `explain <name>`: why a package is installed.
#[derive(Clone, Debug)]
pub struct ExplainCommand {
    pub name: String,
}

/// `fetch`: downloads into the store without linking.
#[derive(Clone, Debug)]
pub struct FetchCommand;

/// `init`: creates a manifest.
#[derive(Clone, Debug)]
pub struct InitCommand {
    pub yes: bool,
}

/// `install`: installs the manifest's dependencies.
#[derive(Clone, Debug)]
pub struct InstallCommand {
    pub log: bool,
}

/// `link <path>`: links a local package.
#[derive(Clone, Debug)]
pub struct LinkCommand {
    pub path: String,
}

/// `patch <name>`: prepares a package for patching.
#[derive(Clone, Debug)]
pub struct PatchCommand {
    pub name: String,
}

/// The actions of `prune`.
#[derive(Clone, Debug)]
pub enum PruneSubcommand {
    Store,
    Cache,
    Deps { full: bool, remove_all: bool, path: Option<String> },
    All,
}

/// `prune`: cleans stores, caches and dependency directories.
#[derive(Clone, Debug)]
pub struct PruneCommand {
    pub subcommand: PruneSubcommand,
}

/// `run [script] [args..]`: runs a script of the manifest.
#[derive(Clone, Debug)]
pub struct RunCommand {
    pub filter: Option<String>,
    pub script: Option<String>,
    pub args: Vec<String>,
}

/// The actions of `runtime`.
#[derive(Clone, Debug)]
pub enum RuntimeAction {
    List,
    Use { version: String, local: bool },
    Remove { version: String, local: bool },
}

/// `runtime`: manages Node.js versions.
#[derive(Clone, Debug)]
pub struct RuntimeCommand {
    pub action: Option<RuntimeAction>,
}

/// `sandbox <script>`: runs a command in the sandbox.
#[derive(Clone, Debug)]
pub struct SandboxCommand {
    pub script: String,
}

/// The actions of `shield`.
#[derive(Clone, Copy, Debug, PartialEq, Eq, Structural)]
pub enum ShieldAction {
    On,
    Off,
    Status,
}

/// `shield`: switches the read-only protection of dependencies.
#[derive(Clone, Debug)]
pub struct ShieldCommand {
    pub action: ShieldAction,
}

/// `timeline`: the history of the lockfile.
#[derive(Clone, Debug)]
pub struct TimelineCommand;

/// The actions of `ts`.
#[derive(Clone, Debug)]
pub enum TsSubcommand {
    Build { args: Vec<String> },
    Exec { args: Vec<String> },
    Init,
    Check { args: Vec<String> },
    Transpile { file: String },
}

/// `ts`: TypeScript tooling.
#[derive(Clone, Debug)]
pub struct TsCommand {
    pub subcommand: TsSubcommand,
}

/// `unlock <file>`: makes a shielded file writable.
#[derive(Clone, Debug)]
pub struct UnlockCommand {
    pub file: String,
}

/// `update [version]`: updates Kumo itself.
#[derive(Clone, Debug)]
pub struct UpdateCommand {
    pub pre: bool,
    pub version: Option<String>,
}

/// `upgrade [packages..]`: moves dependencies to newer versions.
#[derive(Clone, Debug)]
pub struct UpgradeCommand {
    pub packages: Vec<String>,
    pub latest: bool,
    pub prod: bool,
    pub dev: bool,
    pub fixed: bool,
    pub dry_run: bool,
    pub log: bool,
}

/// `workspaces`: lists the workspace packages.
#[derive(Clone, Debug)]
pub struct WorkspacesCommand;

} // verus!
