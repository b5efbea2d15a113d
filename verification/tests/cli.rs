use std::path::PathBuf;
use unified_shell_platform::cli::{
    chezmoi_step, context_for_shell_path, default_context, map_target_to_chezmoi_path, plan_summary, segment_to_chezmoi,
    ChezmoiStep,
};
use unified_shell_platform::model::{EnvVar, ManagedFile, PlatformConfig, Profile, ToolSpec};

#[test]
fn map_target_to_chezmoi_path_handles_dot_paths() {
    let mapped = map_target_to_chezmoi_path("~/.config/nushell/config.nu", false);
    assert_eq!(PathBuf::from(mapped), PathBuf::from("dot_config/nushell/config.nu"));

    let mapped_template = map_target_to_chezmoi_path("~/.bashrc", true);
    assert_eq!(PathBuf::from(mapped_template), PathBuf::from("dot_bashrc.tmpl"));
}

#[test]
fn map_target_to_chezmoi_path_edge_cases() {
    assert_eq!(map_target_to_chezmoi_path("~/~//etc//hosts/", false), "etc/hosts");
    assert_eq!(map_target_to_chezmoi_path("", false), "dot_placeholder");
    assert_eq!(map_target_to_chezmoi_path("~/", true), "dot_placeholder.tmpl");
    assert_eq!(map_target_to_chezmoi_path("~/.zshrc.tmpl", true), "dot_zshrc.tmpl");
    assert_eq!(map_target_to_chezmoi_path("/./a/..", false), "dot_/a/dot_.");
    assert_eq!(map_target_to_chezmoi_path("~", false), "~");
}

#[test]
fn segment_to_chezmoi_renames_leading_dot() {
    assert_eq!(segment_to_chezmoi(".config"), "dot_config");
    assert_eq!(segment_to_chezmoi("."), "dot_");
    assert_eq!(segment_to_chezmoi("nushell"), "nushell");
    assert_eq!(segment_to_chezmoi("a.b"), "a.b");
}

#[test]
fn default_context_falls_back_to_bash() {
    let ctx = default_context("linux".into(), None);
    assert_eq!(ctx.os, "linux");
    assert_eq!(ctx.shell, "bash");
    assert_eq!(ctx.host_profile.as_deref(), Some("default"));
    assert!(ctx.agent_ide.is_none());
    assert!(ctx.interactive);
    let zsh = default_context("macos".into(), Some("zsh".into()));
    assert_eq!(zsh.shell, "zsh");
}

#[test]
fn plan_summary_counts() {
    let mut config = PlatformConfig::default();
    config.profiles = vec![
        Profile {
            name: "base".into(),
            vars: vec![
                EnvVar { key: "A".into(), value: "1".into() },
                EnvVar { key: "B".into(), value: "2".into() },
            ],
            ..Default::default()
        },
        Profile {
            name: "zsh".into(),
            shell: Some("zsh".into()),
            vars: vec![EnvVar { key: "C".into(), value: "3".into() }],
            ..Default::default()
        },
        Profile {
            name: "bash".into(),
            shell: Some("bash".into()),
            vars: vec![EnvVar { key: "A".into(), value: "9".into() }],
            ..Default::default()
        },
    ];
    config.managed_files = vec![ManagedFile {
        name: "bashrc".into(),
        source: "templates/bash/dot_bashrc.tmpl".into(),
        target: "~/.bashrc".into(),
        template: true,
    }];
    let ctx = default_context("linux".into(), Some("bash".into()));
    let summary = plan_summary(&config, &ctx);
    assert_eq!(summary.matched_profiles, 2);
    assert_eq!(summary.resolved_env_vars, 2);
    assert_eq!(summary.managed_files, 1);
    assert!(summary.atuin_enabled);
}

#[test]
fn chezmoi_runs_only_when_enabled_and_installed() {
    let mut config = PlatformConfig::default();
    assert!(matches!(chezmoi_step(&config, true), ChezmoiStep::SkipDisabled));
    config.tools.chezmoi = Some(ToolSpec { enabled: true, source: None, notes: None });
    assert!(matches!(chezmoi_step(&config, false), ChezmoiStep::SkipNotInstalled));
    assert!(matches!(chezmoi_step(&config, true), ChezmoiStep::Run));
}

#[test]
fn context_for_shell_path_takes_final_component() {
    let ctx = context_for_shell_path("linux".into(), Some("/usr/bin/zsh".into()));
    assert_eq!(ctx.shell, "zsh");
    assert_eq!(ctx.os, "linux");
    assert_eq!(context_for_shell_path("linux".into(), None).shell, "bash");
    assert_eq!(context_for_shell_path("linux".into(), Some("/".into())).shell, "bash");
    assert_eq!(context_for_shell_path("linux".into(), Some("fish".into())).shell, "fish");
}

#[test]
fn context_for_shell_path_reads_ordinary_absolute_paths() {
    let ctx = context_for_shell_path("linux".into(), Some("/opt/homebrew/bin/nu".into()));
    assert_eq!(ctx.shell, "nu");
    let ctx = context_for_shell_path("linux".into(), Some("/bin/bash".into()));
    assert_eq!(ctx.shell, "bash");
}
