use unified_shell_platform::integrations::{supported_compiled_tools, supported_fallback_tools};
use unified_shell_platform::model::{AtuinConfig, PlatformConfig, Profile, ToolSpec};

#[test]
fn atuin_defaults() {
    let atuin = AtuinConfig::default();
    assert!(atuin.enabled);
    assert!(atuin.auto_sync);
    assert_eq!(atuin.sync_frequency, "10m");
    assert_eq!(atuin.db_path, "~/.local/share/atuin/history.db");
    assert_eq!(atuin.key_path, "~/.local/share/atuin/key");
    assert!(atuin.records);
    assert_eq!(atuin.filter_mode, "global");
    assert!(atuin.workspaces);
    assert_eq!(atuin.timezone, "local");
}

#[test]
fn other_defaults_are_empty() {
    let config = PlatformConfig::default();
    assert!(config.profiles.is_empty());
    assert!(config.managed_files.is_empty());
    assert!(config.tools.chezmoi.is_none());
    assert!(config.agents.kiro.is_none());
    let profile = Profile::default();
    assert!(profile.os.is_none() && profile.interactive.is_none() && profile.vars.is_empty());
    assert!(!ToolSpec::default().enabled);
}

#[test]
fn supported_tool_lists() {
    assert_eq!(supported_compiled_tools(), ["chezmoi", "atuin", "just", "direnv", "bun"]);
    assert_eq!(supported_fallback_tools(), ["npm"]);
}
