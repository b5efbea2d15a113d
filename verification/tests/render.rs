use unified_shell_platform::json::Json;
use unified_shell_platform::model::{
    AgentSet, AtuinConfig, CoreConfig, EnvVar, PlatformConfig, ToolSet, ToolSpec,
};
use unified_shell_platform::render::{
    claude_code_settings, enabled_tool_names, env_object, env_pairs, kiro_settings,
    render_env_pairs, render_tool_spec, tool_summary, vscode_settings,
};

fn config_with_tools(tools: ToolSet, agents: AgentSet) -> PlatformConfig {
    PlatformConfig {
        core: CoreConfig {
            name: "demo".into(),
            phase: "phase-1".into(),
        },
        profiles: vec![],
        atuin: AtuinConfig::default(),
        managed_files: vec![],
        tools,
        agents,
    }
}

fn member<'a>(doc: &'a Json, name: &str) -> &'a Json {
    match doc {
        Json::Object(members) => &members.iter().rev().find(|(k, _)| k == name).unwrap().1,
        _ => panic!("not an object"),
    }
}

fn names(doc: &Json) -> Vec<&str> {
    match doc {
        Json::Object(members) => members.iter().map(|(k, _)| k.as_str()).collect(),
        _ => panic!("not an object"),
    }
}

fn text(doc: &Json) -> &str {
    match doc {
        Json::Str(s) => s.as_str(),
        _ => panic!("not a string"),
    }
}

fn flag(doc: &Json) -> bool {
    match doc {
        Json::Bool(b) => *b,
        _ => panic!("not a bool"),
    }
}

fn enabled(on: bool) -> Option<ToolSpec> {
    Some(ToolSpec {
        enabled: on,
        source: None,
        notes: None,
    })
}

#[test]
fn render_pairs_as_env_lines() {
    let rendered = render_env_pairs(&[("A".into(), "1".into())]);
    assert!(rendered.contains("A=1"));
}

#[test]
fn render_env_pairs_writes_one_line_per_pair() {
    let rendered = render_env_pairs(&[("A".into(), "1".into()), ("B".into(), "x=y".into())]);
    assert_eq!(rendered, "A=1\nB=x=y\n");
    assert_eq!(render_env_pairs(&[]), "");
}

#[test]
fn render_tool_spec_reports_enabled_flag() {
    let on = ToolSpec {
        enabled: true,
        source: None,
        notes: None,
    };
    assert_eq!(render_tool_spec("chezmoi", Some(&on)), "# chezmoi enabled: true\n");
    assert_eq!(render_tool_spec("npm", None), "# npm enabled: false\n");
}

#[test]
fn env_pairs_keep_order() {
    let vars = vec![
        EnvVar {
            key: "A".into(),
            value: "1".into(),
        },
        EnvVar {
            key: "B".into(),
            value: "2".into(),
        },
    ];
    assert_eq!(
        env_pairs(&vars),
        vec![("A".to_string(), "1".to_string()), ("B".to_string(), "2".to_string())]
    );
}

#[test]
fn enabled_tool_names_follow_fixed_order() {
    let tools = ToolSet {
        chezmoi: enabled(true),
        atuin: enabled(false),
        just: None,
        direnv: enabled(true),
        bun: None,
        npm: enabled(true),
    };
    let config = config_with_tools(tools, AgentSet::default());
    assert_eq!(enabled_tool_names(&config), vec!["chezmoi", "direnv", "npm"]);
    let none = config_with_tools(ToolSet::default(), AgentSet::default());
    assert!(enabled_tool_names(&none).is_empty());
}

#[test]
fn enabling_a_tool_adds_only_its_name() {
    let before = ToolSet {
        chezmoi: enabled(true),
        just: enabled(false),
        npm: enabled(true),
        ..ToolSet::default()
    };
    let after = ToolSet {
        just: enabled(true),
        ..before.clone()
    };
    let c1 = config_with_tools(before, AgentSet::default());
    let c2 = config_with_tools(after, AgentSet::default());
    assert_eq!(enabled_tool_names(&c1), vec!["chezmoi", "npm"]);
    assert_eq!(enabled_tool_names(&c2), vec!["chezmoi", "just", "npm"]);
}

#[test]
fn tool_summary_uses_defaults_for_missing_tools() {
    let tools = ToolSet {
        chezmoi: Some(ToolSpec {
            enabled: true,
            source: Some("brew".into()),
            notes: Some("pinned".into()),
        }),
        ..ToolSet::default()
    };
    let config = config_with_tools(tools, AgentSet::default());
    let summary = tool_summary(&config);
    assert_eq!(names(&summary), vec!["chezmoi", "atuin", "just", "direnv", "bun", "npm"]);
    let chezmoi = member(&summary, "chezmoi");
    assert!(flag(member(chezmoi, "enabled")));
    assert_eq!(text(member(chezmoi, "source")), "brew");
    assert_eq!(text(member(chezmoi, "notes")), "pinned");
    let npm = member(&summary, "npm");
    assert!(!flag(member(npm, "enabled")));
    assert_eq!(text(member(npm, "source")), "unspecified");
    assert_eq!(text(member(npm, "notes")), "");
}

#[test]
fn env_object_maps_names_to_values() {
    let obj = env_object(&[("X".into(), "1".into()), ("Y".into(), "2".into())]);
    assert_eq!(names(&obj), vec!["X", "Y"]);
    assert_eq!(text(member(&obj, "Y")), "2");
}

#[test]
fn settings_documents_follow_agent_flags() {
    let agents = AgentSet {
        vscode: enabled(true),
        claude_code: None,
        kiro: enabled(false),
    };
    let tools = ToolSet {
        just: enabled(true),
        ..ToolSet::default()
    };
    let config = config_with_tools(tools, agents);
    let pairs: Vec<(String, String)> = vec![("X".into(), "1".into())];

    let vscode = vscode_settings(&config, &pairs);
    assert!(flag(member(&vscode, "unifiedShellPlatform.enabled")));
    assert_eq!(text(member(&vscode, "unifiedShellPlatform.phase")), "phase-1");
    assert_eq!(text(member(member(&vscode, "terminal.integrated.env.osx"), "X")), "1");

    let claude = claude_code_settings(&config, &pairs);
    assert!(!flag(member(&claude, "enabled")));
    assert_eq!(text(member(member(&claude, "metadata"), "project")), "demo");
    match member(member(&claude, "integrations"), "preferred_compiled_tools") {
        Json::Array(items) => {
            assert_eq!(items.len(), 1);
            assert_eq!(text(&items[0]), "just");
        }
        _ => panic!("not an array"),
    }
    match member(member(&claude, "permissions"), "allow") {
        Json::Array(items) => assert_eq!(items.len(), 3),
        _ => panic!("not an array"),
    }

    let kiro = kiro_settings(&config, &pairs);
    assert!(!flag(member(&kiro, "enabled")));
    assert_eq!(text(member(member(member(&kiro, "workspace"), "environment"), "X")), "1");
    assert_eq!(text(member(member(member(&kiro, "assistant"), "context"), "phase")), "phase-1");
}
