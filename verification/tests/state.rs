use unified_shell_platform::model::Profile;
use unified_shell_platform::state::{deploy_state, generated_targets, DeployState};

#[test]
fn deploy_state_records_profiles_and_targets() {
    let base = Profile {
        name: "base".into(),
        ..Default::default()
    };
    let bash = Profile {
        name: "bash".into(),
        shell: Some("bash".into()),
        ..Default::default()
    };
    let state = deploy_state("0.1.0".into(), &[&base, &bash]);
    assert_eq!(state.version, "0.1.0");
    assert_eq!(state.applied_profiles, vec!["base".to_string(), "bash".to_string()]);
    assert_eq!(state.rendered_targets, generated_targets());
    assert_eq!(state.rendered_targets.len(), 6);
    assert_eq!(state.rendered_targets[0], "generated/agents/vscode.json");
    assert_eq!(state.rendered_targets[5], "generated/chezmoi/managed-files.toml");
}

#[test]
fn deploy_state_default_is_empty() {
    let state = DeployState::default();
    assert!(state.version.is_empty());
    assert!(state.applied_profiles.is_empty());
    assert!(state.rendered_targets.is_empty());
}
