use vstd::prelude::*;
use crate::model::Profile;
use crate::resolver::deref_profiles;

verus! {

/// What was deployed last: the platform version, the profiles applied and the
/// targets rendered.
#[derive(Debug, Clone)]
pub struct DeployState {
    pub version: String,
    pub applied_profiles: Vec<String>,
    pub rendered_targets: Vec<String>,
}

impl Default for DeployState {
    fn default() -> (s: Self)
        ensures
            s.version@ == Seq::<char>::empty(),
            s.applied_profiles@.len() == 0,
            s.rendered_targets@.len() == 0,
    {
        DeployState { version: String::new(), applied_profiles: Vec::new(), rendered_targets: Vec::new() }
    }
}


/// The files that a deployment renders, relative to the working directory.
pub open spec fn generated_target_paths() -> Seq<Seq<char>> {
    seq![
        "generated/agents/vscode.json"@,
        "generated/agents/claude_code.json"@,
        "generated/agents/kiro.json"@,
        "generated/env/resolved.env"@,
        "generated/atuin/config.toml"@,
        "generated/chezmoi/managed-files.toml"@,
    ]
}

/// The texts of a sequence of strings.
pub open spec fn string_texts(v: Seq<String>) -> Seq<Seq<char>> {
    v.map_values(|s: String| s@)
}

fn push_text(v: &mut Vec<String>, s: &str)
    ensures
        string_texts(final(v)@) == string_texts(old(v)@).push(s@),
{
    v.push(String::from_str(s));
    assert(string_texts(final(v)@) =~= string_texts(old(v)@).push(s@));
}

/// The files that a deployment renders.
pub fn generated_targets() -> (targets: Vec<String>)
    ensures
        string_texts(targets@) == generated_target_paths(),
{
    let mut targets: Vec<String> = Vec::new();
    assert(string_texts(targets@) =~= Seq::empty());
    push_text(&mut targets, "generated/agents/vscode.json");
    push_text(&mut targets, "generated/agents/claude_code.json");
    push_text(&mut targets, "generated/agents/kiro.json");
    push_text(&mut targets, "generated/env/resolved.env");
    push_text(&mut targets, "generated/atuin/config.toml");
    push_text(&mut targets, "generated/chezmoi/managed-files.toml");
    assert(string_texts(targets@) =~= generated_target_paths());
    targets
}

/// The record of a deployment: the given version, the names of the applied
/// profiles in the order they were applied, and the rendered files.
pub fn deploy_state(version: String, profiles: &[&Profile]) -> (state: DeployState)
    ensures
        state.version@ == version@,
        string_texts(state.applied_profiles@) == deref_profiles(profiles@).map_values(
            |p: Profile| p.name@,
        ),
        string_texts(state.rendered_targets@) == generated_target_paths(),
{
    let mut names: Vec<String> = Vec::new();
    let mut i: usize = 0;
    while i < profiles.len()
        invariant
            i <= profiles@.len(),
            string_texts(names@) == deref_profiles(profiles@.take(i as int)).map_values(
                |p: Profile| p.name@,
            ),
        decreases profiles@.len() - i,
    {
        let ghost before = names@;
        names.push(profiles[i].name.clone());
        assert(string_texts(names@) =~= string_texts(before).push(profiles@[i as int].name@));
        assert(deref_profiles(profiles@.take(i + 1)).map_values(|p: Profile| p.name@)
            =~= deref_profiles(profiles@.take(i as int)).map_values(|p: Profile| p.name@).push(
            profiles@[i as int].name@,
        ));
        i = i + 1;
    }
    assert(profiles@.take(profiles@.len() as int) =~= profiles@);
    DeployState { version, applied_profiles: names, rendered_targets: generated_targets() }
}

} // verus!
