use unified_shell_platform::model::{
    AgentSet, AtuinConfig, CoreConfig, EnvVar, PlatformConfig, Profile, ToolSet,
};
use unified_shell_platform::resolver::{matches_context, merged_env, resolve_profile, Context};

fn base_config(profiles: Vec<Profile>) -> PlatformConfig {
    PlatformConfig {
        core: CoreConfig {
            name: "test".into(),
            phase: "phase-1".into(),
        },
        profiles,
        atuin: AtuinConfig::default(),
        managed_files: vec![],
        tools: ToolSet::default(),
        agents: AgentSet::default(),
    }
}

fn var(key: &str, value: &str) -> EnvVar {
    EnvVar {
        key: key.into(),
        value: value.into(),
    }
}

#[test]
fn resolve_profile_filters_by_host_and_interactive() {
    let config = base_config(vec![
        Profile {
            name: "base".into(),
            vars: vec![EnvVar {
                key: "A".into(),
                value: "1".into(),
            }],
            ..Default::default()
        },
        Profile {
            name: "host-specific".into(),
            host_profile: Some("server-a".into()),
            vars: vec![EnvVar {
                key: "HOST".into(),
                value: "server-a".into(),
            }],
            ..Default::default()
        },
        Profile {
            name: "non-interactive".into(),
            interactive: Some(false),
            vars: vec![EnvVar {
                key: "MODE".into(),
                value: "batch".into(),
            }],
            ..Default::default()
        },
    ]);

    let ctx = Context {
        os: "linux".to_string(),
        shell: "bash".into(),
        agent_ide: None,
        host_profile: Some("server-a".into()),
        interactive: true,
    };

    let resolved = resolve_profile(&config, &ctx);
    assert_eq!(resolved.len(), 2);
    assert_eq!(resolved[0].name, "base");
    assert_eq!(resolved[1].name, "host-specific");

    let merged = merged_env(&resolved);
    assert!(merged.iter().any(|item| item.key == "HOST"));
    assert!(!merged.iter().any(|item| item.key == "MODE"));
}

#[test]
fn merged_env_uses_last_matching_profile_value() {
    let config = base_config(vec![
        Profile {
            name: "base".into(),
            vars: vec![EnvVar {
                key: "EDITOR".into(),
                value: "vim".into(),
            }],
            ..Default::default()
        },
        Profile {
            name: "shell-overlay".into(),
            shell: Some("bash".into()),
            vars: vec![EnvVar {
                key: "EDITOR".into(),
                value: "hx".into(),
            }],
            ..Default::default()
        },
        Profile {
            name: "agent-overlay".into(),
            shell: Some("bash".into()),
            agent_ide: Some("kiro".into()),
            vars: vec![EnvVar {
                key: "EDITOR".into(),
                value: "nvim".into(),
            }],
            ..Default::default()
        },
    ]);

    let ctx = Context {
        os: "linux".to_string(),
        shell: "bash".into(),
        agent_ide: Some("kiro".into()),
        host_profile: Some("default".into()),
        interactive: true,
    };

    let resolved = resolve_profile(&config, &ctx);
    let merged = merged_env(&resolved);

    let editor = merged
        .iter()
        .find(|item| item.key == "EDITOR")
        .map(|item| item.value.as_str());
    assert_eq!(editor, Some("nvim"));
}

#[test]
fn more_specific_profile_applies_after_less_specific_declared_later() {
    let config = base_config(vec![
        Profile {
            name: "bash-overlay".into(),
            shell: Some("bash".into()),
            vars: vec![var("EDITOR", "hx")],
            ..Default::default()
        },
        Profile {
            name: "base".into(),
            vars: vec![var("EDITOR", "vim"), var("PAGER", "less")],
            ..Default::default()
        },
        Profile {
            name: "second-base".into(),
            vars: vec![var("PAGER", "more")],
            ..Default::default()
        },
    ]);
    let ctx = Context {
        os: "linux".into(),
        shell: "bash".into(),
        agent_ide: None,
        host_profile: None,
        interactive: true,
    };
    let resolved = resolve_profile(&config, &ctx);
    let names: Vec<&str> = resolved.iter().map(|p| p.name.as_str()).collect();
    assert_eq!(names, vec!["base", "second-base", "bash-overlay"]);

    let merged = merged_env(&resolved);
    assert_eq!(merged.len(), 2);
    assert_eq!(merged[0].key, "EDITOR");
    assert_eq!(merged[0].value, "hx");
    assert_eq!(merged[1].key, "PAGER");
    assert_eq!(merged[1].value, "more");
}

#[test]
fn agent_and_host_constraints_need_a_present_value() {
    let profile = Profile {
        name: "agent".into(),
        agent_ide: Some("vscode".into()),
        ..Default::default()
    };
    let mut ctx = Context {
        os: "macos".into(),
        shell: "zsh".into(),
        agent_ide: None,
        host_profile: None,
        interactive: false,
    };
    assert!(!matches_context(&profile, &ctx));
    ctx.agent_ide = Some("kiro".into());
    assert!(!matches_context(&profile, &ctx));
    ctx.agent_ide = Some("vscode".into());
    assert!(matches_context(&profile, &ctx));

    let os_profile = Profile {
        name: "linux-only".into(),
        os: Some("linux".into()),
        ..Default::default()
    };
    assert!(!matches_context(&os_profile, &ctx));
}

#[test]
fn merged_env_keeps_first_position_and_repeated_keys_in_one_profile() {
    let a = Profile {
        name: "a".into(),
        vars: vec![var("X", "1"), var("Y", "2"), var("X", "3")],
        ..Default::default()
    };
    let b = Profile {
        name: "b".into(),
        vars: vec![var("Z", "4"), var("Y", "5")],
        ..Default::default()
    };
    let merged = merged_env(&[&a, &b]);
    let pairs: Vec<(&str, &str)> = merged.iter().map(|v| (v.key.as_str(), v.value.as_str())).collect();
    assert_eq!(pairs, vec![("X", "3"), ("Y", "5"), ("Z", "4")]);
    assert!(merged_env(&[]).is_empty());
}

#[test]
fn merging_a_merged_environment_changes_nothing() {
    let a = Profile {
        name: "a".into(),
        vars: vec![var("X", "1"), var("Y", "2"), var("X", "3")],
        ..Default::default()
    };
    let merged = merged_env(&[&a]);
    let again = Profile {
        name: "again".into(),
        vars: merged.clone(),
        ..Default::default()
    };
    let twice = merged_env(&[&again]);
    let pairs = |v: &Vec<EnvVar>| v.iter().map(|e| (e.key.clone(), e.value.clone())).collect::<Vec<_>>();
    assert_eq!(pairs(&twice), pairs(&merged));
}
