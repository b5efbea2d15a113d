use unified_shell_platform::model::{
    AgentSet, AtuinConfig, CoreConfig, PlatformConfig, ToolSet, ToolSpec,
};
use unified_shell_platform::render::{
    generated_text_files_for, render_claude_code, render_env_pairs, render_kiro, render_vscode,
};
use unified_shell_platform::state::generated_targets;

fn config(agents: AgentSet) -> PlatformConfig {
    PlatformConfig {
        core: CoreConfig {
            name: "demo".into(),
            phase: "phase-1".into(),
        },
        profiles: vec![],
        atuin: AtuinConfig::default(),
        managed_files: vec![],
        tools: ToolSet::default(),
        agents,
    }
}

fn on() -> Option<ToolSpec> {
    Some(ToolSpec {
        enabled: true,
        source: None,
        notes: None,
    })
}

#[test]
fn kiro_text_is_pretty_json_with_trailing_newline() {
    let cfg = config(AgentSet {
        kiro: on(),
        ..AgentSet::default()
    });
    let text = render_kiro(&cfg, &[("X".into(), "1".into())]);
    assert!(text.ends_with("}\n"));
    let v: serde_json::Value = serde_json::from_str(&text).unwrap();
    assert_eq!(v["version"], 1);
    assert_eq!(v["enabled"], true);
    assert_eq!(v["assistant"]["context"]["phase"], "phase-1");
    assert_eq!(v["assistant"]["context"]["project"], "demo");
    assert_eq!(v["metadata"]["agent"], "kiro");
    assert_eq!(v["workspace"]["environment"]["X"], "1");
}

#[test]
fn claude_code_text_keeps_last_value_of_repeated_variable() {
    let cfg = config(AgentSet::default());
    let pairs: Vec<(String, String)> = vec![
        ("A".into(), "1".into()),
        ("B".into(), "2".into()),
        ("A".into(), "3".into()),
    ];
    let text = render_claude_code(&cfg, &pairs);
    assert!(text.ends_with("}\n"));
    let v: serde_json::Value = serde_json::from_str(&text).unwrap();
    assert_eq!(v["enabled"], false);
    assert_eq!(v["environment"]["inherit"], true);
    let variables = v["environment"]["variables"].as_object().unwrap();
    assert_eq!(variables.len(), 2);
    assert_eq!(variables["A"], "3");
    assert_eq!(variables["B"], "2");
    let metadata = v["metadata"].as_object().unwrap();
    assert_eq!(metadata.len(), 3);
    assert_eq!(metadata["phase"], "phase-1");
    assert_eq!(metadata["agent"], "claude_code");
    assert_eq!(metadata["project"], "demo");
    assert_eq!(text.matches("\"A\":").count(), 1);
}

#[test]
fn vscode_text_sorts_keys_and_indents() {
    let cfg = config(AgentSet::default());
    let text = render_vscode(&cfg, &[]);
    assert!(text.starts_with("{\n  \"$schema\": \"vscode://schemas/settings/default\",\n"));
    assert!(text.contains("\"chat.agent.maxRequests\": 6"));
    assert!(text.contains("\"unifiedShellPlatform.enabled\": false"));
    assert!(text.ends_with("}\n"));
}

#[test]
fn generated_text_files_pair_paths_with_renderers() {
    let cfg = config(AgentSet::default());
    let pairs: Vec<(String, String)> = vec![("X".into(), "1".into())];
    let files = generated_text_files_for(&cfg, &pairs);
    let targets = generated_targets();
    assert_eq!(files.len(), 4);
    for (i, (path, _)) in files.iter().enumerate() {
        assert_eq!(path, &targets[i]);
    }
    assert_eq!(files[0].1, render_vscode(&cfg, &pairs));
    assert_eq!(files[1].1, render_claude_code(&cfg, &pairs));
    assert_eq!(files[2].1, render_kiro(&cfg, &pairs));
    assert_eq!(files[3].1, render_env_pairs(&pairs));
}
