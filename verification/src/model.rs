use vstd::prelude::*;

verus! {

/// The whole platform configuration, as read from `config/platform.toml`.
#[derive(Debug, Clone)]
pub struct PlatformConfig {
    pub core: CoreConfig,
    pub profiles: Vec<Profile>,
    pub atuin: AtuinConfig,
    pub managed_files: Vec<ManagedFile>,
    pub tools: ToolSet,
    pub agents: AgentSet,
}

/// Name and rollout phase of the platform.
#[derive(Debug, Clone)]
pub struct CoreConfig {
    pub name: String,
    pub phase: String,
}

/// A profile overlay: its variables apply when every constraint it sets
/// matches the current context (a constraint left as `None` matches anything).
#[derive(Debug, Clone)]
pub struct Profile {
    pub name: String,
    pub os: Option<String>,
    pub shell: Option<String>,
    pub agent_ide: Option<String>,
    pub host_profile: Option<String>,
    pub interactive: Option<bool>,
    pub vars: Vec<EnvVar>,
}

/// One environment variable assignment.
#[derive(Debug, Clone)]
pub struct EnvVar {
    pub key: String,
    pub value: String,
}

/// A dotfile managed through chezmoi.
#[derive(Debug, Clone)]
pub struct ManagedFile {
    pub name: String,
    pub source: String,
    pub target: String,
    pub template: bool,
}

/// Shared shell history settings.
#[derive(Debug, Clone)]
pub struct AtuinConfig {
    pub enabled: bool,
    pub auto_sync: bool,
    pub sync_frequency: String,
    pub db_path: String,
    pub key_path: String,
    pub records: bool,
    pub filter_mode: String,
    pub workspaces: bool,
    pub timezone: String,
}

/// The command line tools the platform integrates with.
#[derive(Debug, Clone)]
pub struct ToolSet {
    pub chezmoi: Option<ToolSpec>,
    pub atuin: Option<ToolSpec>,
    pub just: Option<ToolSpec>,
    pub direnv: Option<ToolSpec>,
    pub bun: Option<ToolSpec>,
    pub npm: Option<ToolSpec>,
}

/// The agent IDEs whose settings the platform renders.
#[derive(Debug, Clone)]
pub struct AgentSet {
    pub vscode: Option<ToolSpec>,
    pub claude_code: Option<ToolSpec>,
    pub kiro: Option<ToolSpec>,
}

/// Whether a tool is enabled, and where it comes from.
#[derive(Debug, Clone)]
pub struct ToolSpec {
    pub enabled: bool,
    pub source: Option<String>,
    pub notes: Option<String>,
}

/// `true` when the tool is configured and enabled.
pub open spec fn tool_enabled(tool: Option<ToolSpec>) -> bool {
    match tool {
        Some(t) => t.enabled,
        None => false,
    }
}

/// Whether an optional tool entry is present and enabled.
pub fn is_enabled(tool: &Option<ToolSpec>) -> (b: bool)
    ensures
        b == tool_enabled(*tool),
{
    match tool {
        Some(t) => t.enabled,
        None => false,
    }
}

impl Default for CoreConfig {
    fn default() -> (c: Self)
        ensures
            c.name@ == Seq::<char>::empty(),
            c.phase@ == Seq::<char>::empty(),
    {
        CoreConfig { name: String::new(), phase: String::new() }
    }
}

impl Default for Profile {
    fn default() -> (p: Self)
        ensures
            p.name@ == Seq::<char>::empty(),
            p.os is None,
            p.shell is None,
            p.agent_ide is None,
            p.host_profile is None,
            p.interactive is None,
            p.vars@.len() == 0,
    {
        Profile {
            name: String::new(),
            os: None,
            shell: None,
            agent_ide: None,
            host_profile: None,
            interactive: None,
            vars: Vec::new(),
        }
    }
}

impl Default for EnvVar {
    fn default() -> (v: Self)
        ensures
            v.key@ == Seq::<char>::empty(),
            v.value@ == Seq::<char>::empty(),
    {
        EnvVar { key: String::new(), value: String::new() }
    }
}

impl Default for ManagedFile {
    fn default() -> (m: Self)
        ensures
            m.name@ == Seq::<char>::empty(),
            m.source@ == Seq::<char>::empty(),
            m.target@ == Seq::<char>::empty(),
            !m.template,
    {
        ManagedFile { name: String::new(), source: String::new(), target: String::new(), template: false }
    }
}

impl AtuinConfig {
    /// The settings hold their default values: history enabled and synced
    /// every ten minutes, the usual database and key paths, records, global
    /// filtering, workspaces and the local time zone.
    pub open spec fn is_default(self) -> bool {
        &&& self.enabled
        &&& self.auto_sync
        &&& self.sync_frequency@ == "10m"@
        &&& self.db_path@ == "~/.local/share/atuin/history.db"@
        &&& self.key_path@ == "~/.local/share/atuin/key"@
        &&& self.records
        &&& self.filter_mode@ == "global"@
        &&& self.workspaces
        &&& self.timezone@ == "local"@
    }
}

impl Default for AtuinConfig {
    fn default() -> (a: Self)
        ensures
            a.is_default(),
    {
        AtuinConfig {
            enabled: true,
            auto_sync: true,
            sync_frequency: String::from_str("10m"),
            db_path: String::from_str("~/.local/share/atuin/history.db"),
            key_path: String::from_str("~/.local/share/atuin/key"),
            records: true,
            filter_mode: String::from_str("global"),
            workspaces: true,
            timezone: String::from_str("local"),
        }
    }
}

impl Default for ToolSet {
    fn default() -> (t: Self)
        ensures
            t.chezmoi is None,
            t.atuin is None,
            t.just is None,
            t.direnv is None,
            t.bun is None,
            t.npm is None,
    {
        ToolSet { chezmoi: None, atuin: None, just: None, direnv: None, bun: None, npm: None }
    }
}

impl Default for AgentSet {
    fn default() -> (a: Self)
        ensures
            a.vscode is None,
            a.claude_code is None,
            a.kiro is None,
    {
        AgentSet { vscode: None, claude_code: None, kiro: None }
    }
}

impl Default for ToolSpec {
    fn default() -> (t: Self)
        ensures
            !t.enabled,
            t.source is None,
            t.notes is None,
    {
        ToolSpec { enabled: false, source: None, notes: None }
    }
}

impl Default for PlatformConfig {
    fn default() -> (c: Self)
        ensures
            c.core.name@ == Seq::<char>::empty(),
            c.core.phase@ == Seq::<char>::empty(),
            c.profiles@.len() == 0,
            c.atuin.is_default(),
            c.managed_files@.len() == 0,
            c.tools.chezmoi is None,
            c.tools.atuin is None,
            c.tools.just is None,
            c.tools.direnv is None,
            c.tools.bun is None,
            c.tools.npm is None,
            c.agents.vscode is None,
            c.agents.claude_code is None,
            c.agents.kiro is None,
    {
        PlatformConfig {
            core: CoreConfig::default(),
            profiles: Vec::new(),
            atuin: AtuinConfig::default(),
            managed_files: Vec::new(),
            tools: ToolSet::default(),
            agents: AgentSet::default(),
        }
    }
}

} // verus!
