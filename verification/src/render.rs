use vstd::prelude::*;
use crate::state::generated_target_paths;
use crate::json_text::{render_settings, settings_file_text};
use crate::json::{items_model, json_str, members_model, push_item, push_member, Json, JsonModel};
use crate::model::{is_enabled, tool_enabled, AgentSet, EnvVar, PlatformConfig, ToolSet, ToolSpec};

verus! {

/// How a boolean is written: `true` or `false`.
pub open spec fn bool_text(b: bool) -> Seq<char> {
    if b {
        "true"@
    } else {
        "false"@
    }
}

/// The text of an optional string, or `default` when it is absent.
pub open spec fn text_or(o: Option<String>, default: Seq<char>) -> Seq<char> {
    match o {
        Some(s) => s@,
        None => default,
    }
}

/// One comment line reporting whether a tool is enabled.
pub open spec fn tool_spec_line(name: Seq<char>, tool: Option<ToolSpec>) -> Seq<char> {
    "# "@ + name + " enabled: "@ + bool_text(tool_enabled(tool)) + "\n"@
}

/// `KEY=value` lines, one per pair, each ended by a newline.
pub open spec fn env_lines(pairs: Seq<(String, String)>) -> Seq<char>
    decreases pairs.len(),
{
    if pairs.len() == 0 {
        Seq::empty()
    } else {
        env_lines(pairs.drop_last()) + pairs.last().0@ + "="@ + pairs.last().1@ + "\n"@
    }
}

/// The variables as (name, value) pairs.
pub open spec fn var_pairs(vars: Seq<EnvVar>) -> Seq<(String, String)> {
    vars.map_values(|v: EnvVar| (v.key, v.value))
}

/// An object mapping each variable name to its value as a string.
pub open spec fn env_object_model(pairs: Seq<(String, String)>) -> JsonModel {
    JsonModel::Object(pairs.map_values(|p: (String, String)| (p.0@, JsonModel::Str(p.1@))))
}

/// What the settings files say of one tool.
pub open spec fn tool_meta_model(tool: Option<ToolSpec>) -> JsonModel {
    let (source, notes) = match tool {
        Some(t) => (text_or(t.source, "unspecified"@), text_or(t.notes, ""@)),
        None => ("unspecified"@, ""@),
    };
    JsonModel::Object(
        seq![
            ("enabled"@, JsonModel::Bool(tool_enabled(tool))),
            ("source"@, JsonModel::Str(source)),
            ("notes"@, JsonModel::Str(notes)),
        ],
    )
}

/// What the settings files say of each integrated tool.
pub open spec fn tool_summary_model(tools: ToolSet) -> JsonModel {
    JsonModel::Object(
        seq![
            ("chezmoi"@, tool_meta_model(tools.chezmoi)),
            ("atuin"@, tool_meta_model(tools.atuin)),
            ("just"@, tool_meta_model(tools.just)),
            ("direnv"@, tool_meta_model(tools.direnv)),
            ("bun"@, tool_meta_model(tools.bun)),
            ("npm"@, tool_meta_model(tools.npm)),
        ],
    )
}

/// `name` alone when the tool is enabled, nothing otherwise.
pub open spec fn name_if_enabled(tool: Option<ToolSpec>, name: Seq<char>) -> Seq<Seq<char>> {
    if tool_enabled(tool) {
        seq![name]
    } else {
        Seq::empty()
    }
}

/// The names of the enabled tools, in the fixed order chezmoi, atuin, just,
/// direnv, bun, npm.
pub open spec fn enabled_tools(tools: ToolSet) -> Seq<Seq<char>> {
    name_if_enabled(tools.chezmoi, "chezmoi"@) + name_if_enabled(tools.atuin, "atuin"@)
        + name_if_enabled(tools.just, "just"@) + name_if_enabled(tools.direnv, "direnv"@)
        + name_if_enabled(tools.bun, "bun"@) + name_if_enabled(tools.npm, "npm"@)
}

/// The integrated tool at position `k` of the fixed order chezmoi, atuin,
/// just, direnv, bun, npm.
pub open spec fn tool_at(tools: ToolSet, k: int) -> Option<ToolSpec> {
    if k == 0 {
        tools.chezmoi
    } else if k == 1 {
        tools.atuin
    } else if k == 2 {
        tools.just
    } else if k == 3 {
        tools.direnv
    } else if k == 4 {
        tools.bun
    } else {
        tools.npm
    }
}

/// The name of the tool at position `k` of the fixed order.
pub open spec fn tool_name_at(k: int) -> Seq<char> {
    if k == 0 {
        "chezmoi"@
    } else if k == 1 {
        "atuin"@
    } else if k == 2 {
        "just"@
    } else if k == 3 {
        "direnv"@
    } else if k == 4 {
        "bun"@
    } else {
        "npm"@
    }
}

/// The tools with the one at position `k` replaced by `tool`.
pub open spec fn with_tool_at(tools: ToolSet, k: int, tool: Option<ToolSpec>) -> ToolSet {
    if k == 0 {
        ToolSet { chezmoi: tool, ..tools }
    } else if k == 1 {
        ToolSet { atuin: tool, ..tools }
    } else if k == 2 {
        ToolSet { just: tool, ..tools }
    } else if k == 3 {
        ToolSet { direnv: tool, ..tools }
    } else if k == 4 {
        ToolSet { bun: tool, ..tools }
    } else {
        ToolSet { npm: tool, ..tools }
    }
}

/// Whether a name is the name of the tool at position `k`.
pub open spec fn is_tool_name(k: int) -> spec_fn(Seq<char>) -> bool {
    |n: Seq<char>| n == tool_name_at(k)
}

/// Whether a name is not the name of the tool at position `k`.
pub open spec fn is_not_tool_name(k: int) -> spec_fn(Seq<char>) -> bool {
    |n: Seq<char>| n != tool_name_at(k)
}

/// The name of the tool at position `j` when that tool is enabled, kept by `pred`.
#[verifier::opaque]
pub open spec fn tool_part(tools: ToolSet, j: int, pred: spec_fn(Seq<char>) -> bool) -> Seq<Seq<char>> {
    name_if_enabled(tool_at(tools, j), tool_name_at(j)).filter(pred)
}

proof fn lemma_tool_names_distinct(j: int, k: int)
    requires
        0 <= j < 6,
        0 <= k < 6,
        j != k,
    ensures
        tool_name_at(j) != tool_name_at(k),
{
    reveal_strlit("chezmoi");
    reveal_strlit("atuin");
    reveal_strlit("just");
    reveal_strlit("direnv");
    reveal_strlit("bun");
    reveal_strlit("npm");
    if j == 4 && k == 5 || j == 5 && k == 4 {
        assert(tool_name_at(j)[0] != tool_name_at(k)[0]);
    } else {
        assert(tool_name_at(j).len() != tool_name_at(k).len());
    }
}

proof fn lemma_filter_single(tool: Option<ToolSpec>, name: Seq<char>, pred: spec_fn(Seq<char>) -> bool)
    ensures
        name_if_enabled(tool, name).filter(pred) == if tool_enabled(tool) && pred(name) {
            seq![name]
        } else {
            Seq::<Seq<char>>::empty()
        },
{
    reveal_with_fuel(Seq::filter, 2);
    assert(seq![name].drop_last() =~= Seq::<Seq<char>>::empty());
    if tool_enabled(tool) && pred(name) {
        assert(seq![name].filter(pred) =~= seq![name]);
    }
}

proof fn lemma_enabled_tools_filter(tools: ToolSet, pred: spec_fn(Seq<char>) -> bool)
    ensures
        enabled_tools(tools).filter(pred) == tool_part(tools, 0, pred) + tool_part(tools, 1, pred)
            + tool_part(tools, 2, pred) + tool_part(tools, 3, pred) + tool_part(tools, 4, pred)
            + tool_part(tools, 5, pred),
{
    broadcast use Seq::filter_distributes_over_add;

    reveal(tool_part);
}

proof fn lemma_tool_part(tools: ToolSet, k: int, tool: ToolSpec, j: int)
    requires
        0 <= k < 6,
        0 <= j < 6,
        tool.enabled,
    ensures
        tool_part(with_tool_at(tools, k, Some(tool)), j, is_tool_name(k)) == if j == k {
            seq![tool_name_at(k)]
        } else {
            Seq::<Seq<char>>::empty()
        },
        tool_part(with_tool_at(tools, k, Some(tool)), j, is_not_tool_name(k)) == if j == k {
            Seq::<Seq<char>>::empty()
        } else {
            name_if_enabled(tool_at(tools, j), tool_name_at(j))
        },
{
    reveal(tool_part);
    let t2 = with_tool_at(tools, k, Some(tool));
    lemma_filter_single(tool_at(t2, j), tool_name_at(j), is_tool_name(k));
    lemma_filter_single(tool_at(t2, j), tool_name_at(j), is_not_tool_name(k));
    if j != k {
        lemma_tool_names_distinct(j, k);
        assert(tool_at(t2, j) == tool_at(tools, j));
        if tool_enabled(tool_at(tools, j)) {
            assert(is_not_tool_name(k)(tool_name_at(j)));
        }
    } else {
        assert(tool_at(t2, j) == Some(tool));
        assert(is_tool_name(k)(tool_name_at(j)));
    }
}

proof fn lemma_enabled_tools_parts(tools: ToolSet)
    ensures
        enabled_tools(tools) == name_if_enabled(tool_at(tools, 0), tool_name_at(0)) + name_if_enabled(
            tool_at(tools, 1),
            tool_name_at(1),
        ) + name_if_enabled(tool_at(tools, 2), tool_name_at(2)) + name_if_enabled(
            tool_at(tools, 3),
            tool_name_at(3),
        ) + name_if_enabled(tool_at(tools, 4), tool_name_at(4)) + name_if_enabled(
            tool_at(tools, 5),
            tool_name_at(5),
        ),
{
}

proof fn lemma_sum_of_parts(
    a: Seq<Seq<char>>,
    b: Seq<Seq<char>>,
    c: Seq<Seq<char>>,
    d: Seq<Seq<char>>,
    e: Seq<Seq<char>>,
    f: Seq<Seq<char>>,
    k: int,
    x: Seq<char>,
)
    requires
        0 <= k < 6,
        a == (if k == 0 { seq![x] } else { Seq::empty() }),
        b == (if k == 1 { seq![x] } else { Seq::empty() }),
        c == (if k == 2 { seq![x] } else { Seq::empty() }),
        d == (if k == 3 { seq![x] } else { Seq::empty() }),
        e == (if k == 4 { seq![x] } else { Seq::empty() }),
        f == (if k == 5 { seq![x] } else { Seq::empty() }),
    ensures
        a + b + c + d + e + f == seq![x],
{
    assert(a + b + c + d + e + f =~= seq![x]);
}

proof fn lemma_enabled_name_once(tools: ToolSet, k: int, tool: ToolSpec)
    requires
        0 <= k < 6,
        tool.enabled,
    ensures
        enabled_tools(with_tool_at(tools, k, Some(tool))).filter(is_tool_name(k)) == seq![
            tool_name_at(k),
        ],
{
    let t2 = with_tool_at(tools, k, Some(tool));
    let same = is_tool_name(k);
    lemma_enabled_tools_filter(t2, same);
    lemma_tool_part(tools, k, tool, 0);
    lemma_tool_part(tools, k, tool, 1);
    lemma_tool_part(tools, k, tool, 2);
    lemma_tool_part(tools, k, tool, 3);
    lemma_tool_part(tools, k, tool, 4);
    lemma_tool_part(tools, k, tool, 5);
    lemma_sum_of_parts(
        tool_part(t2, 0, same),
        tool_part(t2, 1, same),
        tool_part(t2, 2, same),
        tool_part(t2, 3, same),
        tool_part(t2, 4, same),
        tool_part(t2, 5, same),
        k,
        tool_name_at(k),
    );
}

proof fn lemma_other_part(tools: ToolSet, k: int, tool: ToolSpec, j: int)
    requires
        0 <= k < 6,
        0 <= j < 6,
        tool.enabled,
        !tool_enabled(tool_at(tools, k)),
    ensures
        tool_part(with_tool_at(tools, k, Some(tool)), j, is_not_tool_name(k)) == name_if_enabled(
            tool_at(tools, j),
            tool_name_at(j),
        ),
{
    lemma_tool_part(tools, k, tool, j);
}

proof fn lemma_others_unchanged(tools: ToolSet, k: int, tool: ToolSpec)
    requires
        0 <= k < 6,
        tool.enabled,
        !tool_enabled(tool_at(tools, k)),
    ensures
        enabled_tools(tools) == enabled_tools(with_tool_at(tools, k, Some(tool))).filter(
            is_not_tool_name(k),
        ),
{
    let t2 = with_tool_at(tools, k, Some(tool));
    lemma_enabled_tools_filter(t2, is_not_tool_name(k));
    lemma_other_part(tools, k, tool, 0);
    lemma_other_part(tools, k, tool, 1);
    lemma_other_part(tools, k, tool, 2);
    lemma_other_part(tools, k, tool, 3);
    lemma_other_part(tools, k, tool, 4);
    lemma_other_part(tools, k, tool, 5);
    lemma_enabled_tools_parts(tools);
}

/// Enabling one tool adds its name to the enabled tools exactly once and
/// leaves the other names as they were, in the same order: the names enabled
/// before are those enabled after, with that tool's name taken out unless it
/// was already enabled.
pub proof fn lemma_enabling_a_tool_adds_only_its_name(tools: ToolSet, k: int, tool: ToolSpec)
    requires
        0 <= k < 6,
        tool.enabled,
    ensures
        enabled_tools(with_tool_at(tools, k, Some(tool))).filter(is_tool_name(k)).len() == 1,
        enabled_tools(tools) == (if tool_enabled(tool_at(tools, k)) {
            enabled_tools(with_tool_at(tools, k, Some(tool)))
        } else {
            enabled_tools(with_tool_at(tools, k, Some(tool))).filter(is_not_tool_name(k))
        }),
{
    lemma_enabled_name_once(tools, k, tool);
    if tool_enabled(tool_at(tools, k)) {
        lemma_same_tools_except(tools, k, tool);
    } else {
        lemma_others_unchanged(tools, k, tool);
    }
}

proof fn lemma_same_tools_except(tools: ToolSet, k: int, tool: ToolSpec)
    requires
        0 <= k < 6,
        tool.enabled,
        tool_enabled(tool_at(tools, k)),
    ensures
        enabled_tools(tools) == enabled_tools(with_tool_at(tools, k, Some(tool))),
{
}

/// An array of strings.
pub open spec fn str_array_model(names: Seq<Seq<char>>) -> JsonModel {
    JsonModel::Array(names.map_values(|n: Seq<char>| JsonModel::Str(n)))
}

/// The VS Code settings document.
pub open spec fn vscode_model(config: PlatformConfig, pairs: Seq<(String, String)>) -> JsonModel {
    JsonModel::Object(
        seq![
            ("$schema"@, JsonModel::Str("vscode://schemas/settings/default"@)),
            ("terminal.integrated.env.linux"@, env_object_model(pairs)),
            ("terminal.integrated.env.osx"@, env_object_model(pairs)),
            ("terminal.integrated.env.windows"@, env_object_model(pairs)),
            ("chat.tools.autoApprove"@, JsonModel::Bool(false)),
            ("chat.agent.maxRequests"@, JsonModel::Int(6)),
            ("unifiedShellPlatform.enabled"@, JsonModel::Bool(tool_enabled(config.agents.vscode))),
            ("unifiedShellPlatform.phase"@, JsonModel::Str(config.core.phase@)),
            ("unifiedShellPlatform.profile"@, JsonModel::Str("vscode"@)),
            ("unifiedShellPlatform.tools"@, tool_summary_model(config.tools)),
            ("metadata"@, JsonModel::Object(seq![("agent"@, JsonModel::Str("vscode"@))])),
        ],
    )
}

/// The settings document of the `claude_code` agent.
pub open spec fn claude_code_model(config: PlatformConfig, pairs: Seq<(String, String)>) -> JsonModel {
    JsonModel::Object(
        seq![
            ("version"@, JsonModel::Int(1)),
            ("enabled"@, JsonModel::Bool(tool_enabled(config.agents.claude_code))),
            (
                "environment"@,
                JsonModel::Object(
                    seq![
                        ("inherit"@, JsonModel::Bool(true)),
                        ("variables"@, env_object_model(pairs)),
                    ],
                ),
            ),
            (
                "permissions"@,
                JsonModel::Object(
                    seq![
                        (
                            "allow"@,
                            str_array_model(
                                seq!["Bash(cargo *)"@, "Bash(just *)"@, "Bash(chezmoi *)"@],
                            ),
                        ),
                        ("deny"@, JsonModel::Array(Seq::empty())),
                    ],
                ),
            ),
            (
                "integrations"@,
                JsonModel::Object(
                    seq![
                        ("tools"@, tool_summary_model(config.tools)),
                        ("preferred_compiled_tools"@, str_array_model(enabled_tools(config.tools))),
                    ],
                ),
            ),
            (
                "metadata"@,
                JsonModel::Object(
                    seq![
                        ("phase"@, JsonModel::Str(config.core.phase@)),
                        ("agent"@, JsonModel::Str("claude_code"@)),
                        ("project"@, JsonModel::Str(config.core.name@)),
                    ],
                ),
            ),
        ],
    )
}

/// The Kiro settings document.
pub open spec fn kiro_model(config: PlatformConfig, pairs: Seq<(String, String)>) -> JsonModel {
    JsonModel::Object(
        seq![
            ("version"@, JsonModel::Int(1)),
            ("enabled"@, JsonModel::Bool(tool_enabled(config.agents.kiro))),
            (
                "workspace"@,
                JsonModel::Object(
                    seq![
                        ("environment"@, env_object_model(pairs)),
                        (
                            "terminal"@,
                            JsonModel::Object(
                                seq![
                                    ("shell_integration"@, JsonModel::Bool(true)),
                                    ("inherit_env"@, JsonModel::Bool(true)),
                                ],
                            ),
                        ),
                    ],
                ),
            ),
            (
                "assistant"@,
                JsonModel::Object(
                    seq![
                        (
                            "context"@,
                            JsonModel::Object(
                                seq![
                                    ("phase"@, JsonModel::Str(config.core.phase@)),
                                    ("project"@, JsonModel::Str(config.core.name@)),
                                ],
                            ),
                        ),
                        (
                            "features"@,
                            JsonModel::Object(
                                seq![
                                    ("auto_context"@, JsonModel::Bool(true)),
                                    ("include_recent_changes"@, JsonModel::Bool(true)),
                                ],
                            ),
                        ),
                    ],
                ),
            ),
            (
                "integrations"@,
                JsonModel::Object(
                    seq![
                        ("tools"@, tool_summary_model(config.tools)),
                        ("preferred_compiled_tools"@, str_array_model(enabled_tools(config.tools))),
                    ],
                ),
            ),
            ("metadata"@, JsonModel::Object(seq![("agent"@, JsonModel::Str("kiro"@))])),
        ],
    )
}

fn bool_str(b: bool) -> (s: &'static str)
    ensures
        s@ == bool_text(b),
{
    if b {
        "true"
    } else {
        "false"
    }
}

/// A comment line telling whether `name` is enabled.
pub fn render_tool_spec(name: &str, tool: Option<&ToolSpec>) -> (line: String)
    ensures
        line@ == tool_spec_line(
            name@,
            match tool {
                Some(t) => Some(*t),
                None => None,
            },
        ),
{
    let enabled = match tool {
        Some(item) => item.enabled,
        None => false,
    };
    let mut line = String::from_str("# ");
    line.append(name);
    line.append(" enabled: ");
    line.append(bool_str(enabled));
    line.append("\n");
    line
}

/// The pairs as `KEY=value` lines.
pub fn render_env_pairs(pairs: &[(String, String)]) -> (output: String)
    ensures
        output@ == env_lines(pairs@),
{
    let mut output = String::new();
    let mut i: usize = 0;
    while i < pairs.len()
        invariant
            i <= pairs@.len(),
            output@ == env_lines(pairs@.take(i as int)),
        decreases pairs@.len() - i,
    {
        let (key, value) = &pairs[i];
        output.append(key.as_str());
        output.append("=");
        output.append(value.as_str());
        output.append("\n");
        assert(pairs@.take(i + 1).drop_last() =~= pairs@.take(i as int));
        i = i + 1;
    }
    assert(pairs@.take(pairs@.len() as int) =~= pairs@);
    output
}

/// The variables as (name, value) pairs, in order.
pub fn env_pairs(vars: &[EnvVar]) -> (pairs: Vec<(String, String)>)
    ensures
        pairs@ == var_pairs(vars@),
{
    let mut pairs: Vec<(String, String)> = Vec::new();
    let mut i: usize = 0;
    while i < vars.len()
        invariant
            i <= vars@.len(),
            pairs@ == var_pairs(vars@.take(i as int)),
        decreases vars@.len() - i,
    {
        pairs.push((vars[i].key.clone(), vars[i].value.clone()));
        assert(var_pairs(vars@.take(i + 1)) =~= var_pairs(vars@.take(i as int)).push(
            (vars@[i as int].key, vars@[i as int].value),
        ));
        i = i + 1;
    }
    assert(vars@.take(vars@.len() as int) =~= vars@);
    pairs
}

/// An object mapping each name to its value, in the order of the pairs.
pub fn env_object(pairs: &[(String, String)]) -> (obj: Json)
    ensures
        obj.model() == env_object_model(pairs@),
{
    let mut members: Vec<(String, Json)> = Vec::new();
    let mut i: usize = 0;
    while i < pairs.len()
        invariant
            i <= pairs@.len(),
            members_model(members@) == pairs@.take(i as int).map_values(
                |p: (String, String)| (p.0@, JsonModel::Str(p.1@)),
            ),
        decreases pairs@.len() - i,
    {
        let (key, value) = &pairs[i];
        push_member(&mut members, key.as_str(), Json::Str(value.clone()));
        assert(pairs@.take(i + 1).map_values(|p: (String, String)| (p.0@, JsonModel::Str(p.1@)))
            =~= pairs@.take(i as int).map_values(
            |p: (String, String)| (p.0@, JsonModel::Str(p.1@)),
        ).push((key@, JsonModel::Str(value@))));
        i = i + 1;
    }
    assert(pairs@.take(pairs@.len() as int) =~= pairs@);
    Json::Object(members)
}

fn text_or_default(o: &Option<String>, default: &str) -> (s: String)
    ensures
        s@ == text_or(*o, default@),
{
    match o {
        Some(v) => v.clone(),
        None => String::from_str(default),
    }
}

/// What the settings files say of one tool: whether it is enabled, its source
/// (`unspecified` when unknown) and its notes (empty when none).
pub fn tool_meta(tool: &Option<ToolSpec>) -> (meta: Json)
    ensures
        meta.model() == tool_meta_model(*tool),
{
    let (source, notes) = match tool {
        Some(t) => (text_or_default(&t.source, "unspecified"), text_or_default(&t.notes, "")),
        None => (String::from_str("unspecified"), String::from_str("")),
    };
    let mut members: Vec<(String, Json)> = Vec::new();
    assert(members_model(members@) =~= Seq::empty());
    push_member(&mut members, "enabled", Json::Bool(is_enabled(tool)));
    push_member(&mut members, "source", Json::Str(source));
    push_member(&mut members, "notes", Json::Str(notes));
    assert(members_model(members@) =~= seq![
        ("enabled"@, JsonModel::Bool(tool_enabled(*tool))),
        ("source"@, JsonModel::Str(source@)),
        ("notes"@, JsonModel::Str(notes@)),
    ]);
    Json::Object(members)
}

/// What the settings files say of each of the six integrated tools.
pub fn tool_summary(config: &PlatformConfig) -> (summary: Json)
    ensures
        summary.model() == tool_summary_model(config.tools),
{
    let mut members: Vec<(String, Json)> = Vec::new();
    assert(members_model(members@) =~= Seq::empty());
    push_member(&mut members, "chezmoi", tool_meta(&config.tools.chezmoi));
    push_member(&mut members, "atuin", tool_meta(&config.tools.atuin));
    push_member(&mut members, "just", tool_meta(&config.tools.just));
    push_member(&mut members, "direnv", tool_meta(&config.tools.direnv));
    push_member(&mut members, "bun", tool_meta(&config.tools.bun));
    push_member(&mut members, "npm", tool_meta(&config.tools.npm));
    assert(members_model(members@) =~= seq![
        ("chezmoi"@, tool_meta_model(config.tools.chezmoi)),
        ("atuin"@, tool_meta_model(config.tools.atuin)),
        ("just"@, tool_meta_model(config.tools.just)),
        ("direnv"@, tool_meta_model(config.tools.direnv)),
        ("bun"@, tool_meta_model(config.tools.bun)),
        ("npm"@, tool_meta_model(config.tools.npm)),
    ]);
    Json::Object(members)
}

/// The texts of a sequence of string slices.
pub open spec fn str_texts(names: Seq<&str>) -> Seq<Seq<char>> {
    names.map_values(|s: &str| s@)
}

fn push_if_enabled(names: &mut Vec<&'static str>, tool: &Option<ToolSpec>, name: &'static str)
    ensures
        str_texts(final(names)@) == str_texts(old(names)@) + name_if_enabled(*tool, name@),
{
    if is_enabled(tool) {
        names.push(name);
        assert(str_texts(final(names)@) =~= str_texts(old(names)@) + seq![name@]);
    } else {
        assert(str_texts(final(names)@) =~= str_texts(old(names)@) + Seq::<Seq<char>>::empty());
    }
}

/// The names of the enabled tools, in the order chezmoi, atuin, just, direnv, bun, npm.
pub fn enabled_tool_names(config: &PlatformConfig) -> (names: Vec<&'static str>)
    ensures
        str_texts(names@) == enabled_tools(config.tools),
{
    let mut names: Vec<&'static str> = Vec::new();
    assert(str_texts(names@) =~= Seq::<Seq<char>>::empty());
    push_if_enabled(&mut names, &config.tools.chezmoi, "chezmoi");
    push_if_enabled(&mut names, &config.tools.atuin, "atuin");
    push_if_enabled(&mut names, &config.tools.just, "just");
    push_if_enabled(&mut names, &config.tools.direnv, "direnv");
    push_if_enabled(&mut names, &config.tools.bun, "bun");
    push_if_enabled(&mut names, &config.tools.npm, "npm");
    assert(str_texts(names@) =~= enabled_tools(config.tools));
    names
}

/// An array of the given strings.
pub fn str_array(names: &[&str]) -> (arr: Json)
    ensures
        arr.model() == str_array_model(str_texts(names@)),
{
    let mut items: Vec<Json> = Vec::new();
    let mut i: usize = 0;
    while i < names.len()
        invariant
            i <= names@.len(),
            items_model(items@) == str_texts(names@.take(i as int)).map_values(
                |n: Seq<char>| JsonModel::Str(n),
            ),
        decreases names@.len() - i,
    {
        push_item(&mut items, json_str(names[i]));
        assert(str_texts(names@.take(i + 1)).map_values(|n: Seq<char>| JsonModel::Str(n))
            =~= str_texts(names@.take(i as int)).map_values(|n: Seq<char>| JsonModel::Str(n)).push(
            JsonModel::Str(names@[i as int]@),
        ));
        i = i + 1;
    }
    assert(names@.take(names@.len() as int) =~= names@);
    Json::Array(items)
}


/// The VS Code settings document: the environment for every terminal
/// platform, chat limits, whether the integration is enabled, the phase, the
/// tool summary and the agent it is meant for.
pub fn vscode_settings(config: &PlatformConfig, env_pairs: &[(String, String)]) -> (doc: Json)
    ensures
        doc.model() == vscode_model(*config, env_pairs@),
{
    let mut meta: Vec<(String, Json)> = Vec::new();
    assert(members_model(meta@) =~= Seq::empty());
    push_member(&mut meta, "agent", json_str("vscode"));

    let mut members: Vec<(String, Json)> = Vec::new();
    assert(members_model(members@) =~= Seq::empty());
    push_member(&mut members, "$schema", json_str("vscode://schemas/settings/default"));
    push_member(&mut members, "terminal.integrated.env.linux", env_object(env_pairs));
    push_member(&mut members, "terminal.integrated.env.osx", env_object(env_pairs));
    push_member(&mut members, "terminal.integrated.env.windows", env_object(env_pairs));
    push_member(&mut members, "chat.tools.autoApprove", Json::Bool(false));
    push_member(&mut members, "chat.agent.maxRequests", Json::Int(6));
    push_member(
        &mut members,
        "unifiedShellPlatform.enabled",
        Json::Bool(is_enabled(&config.agents.vscode)),
    );
    push_member(&mut members, "unifiedShellPlatform.phase", Json::Str(config.core.phase.clone()));
    push_member(&mut members, "unifiedShellPlatform.profile", json_str("vscode"));
    push_member(&mut members, "unifiedShellPlatform.tools", tool_summary(config));
    push_member(&mut members, "metadata", Json::Object(meta));
    assert(members_model(members@) =~= match vscode_model(*config, env_pairs@) {
        JsonModel::Object(m) => m,
        _ => Seq::empty(),
    });
    Json::Object(members)
}

/// The settings document of the `claude_code` agent: whether it is enabled, the inherited
/// environment, the allowed commands, the tool summary with the enabled tools,
/// and the phase, agent and project.
pub fn claude_code_settings(config: &PlatformConfig, env_pairs: &[(String, String)]) -> (doc: Json)
    ensures
        doc.model() == claude_code_model(*config, env_pairs@),
{
    let mut environment: Vec<(String, Json)> = Vec::new();
    assert(members_model(environment@) =~= Seq::empty());
    push_member(&mut environment, "inherit", Json::Bool(true));
    push_member(&mut environment, "variables", env_object(env_pairs));
    assert(members_model(environment@) =~= seq![
        ("inherit"@, JsonModel::Bool(true)),
        ("variables"@, env_object_model(env_pairs@)),
    ]);

    let allowed: [&str; 3] = ["Bash(cargo *)", "Bash(just *)", "Bash(chezmoi *)"];
    let allow = str_array(allowed.as_slice());
    assert(str_texts(allowed@) =~= seq!["Bash(cargo *)"@, "Bash(just *)"@, "Bash(chezmoi *)"@]);
    let deny: Vec<Json> = Vec::new();
    assert(items_model(deny@) =~= Seq::empty());
    let mut permissions: Vec<(String, Json)> = Vec::new();
    assert(members_model(permissions@) =~= Seq::empty());
    push_member(&mut permissions, "allow", allow);
    push_member(&mut permissions, "deny", Json::Array(deny));
    assert(members_model(permissions@) =~= seq![
        ("allow"@, str_array_model(seq!["Bash(cargo *)"@, "Bash(just *)"@, "Bash(chezmoi *)"@])),
        ("deny"@, JsonModel::Array(Seq::empty())),
    ]);

    let tool_names = enabled_tool_names(config);
    let mut integrations: Vec<(String, Json)> = Vec::new();
    assert(members_model(integrations@) =~= Seq::empty());
    push_member(&mut integrations, "tools", tool_summary(config));
    push_member(&mut integrations, "preferred_compiled_tools", str_array(tool_names.as_slice()));
    assert(members_model(integrations@) =~= seq![
        ("tools"@, tool_summary_model(config.tools)),
        ("preferred_compiled_tools"@, str_array_model(enabled_tools(config.tools))),
    ]);

    let mut metadata: Vec<(String, Json)> = Vec::new();
    assert(members_model(metadata@) =~= Seq::empty());
    push_member(&mut metadata, "phase", Json::Str(config.core.phase.clone()));
    push_member(&mut metadata, "agent", json_str("claude_code"));
    push_member(&mut metadata, "project", Json::Str(config.core.name.clone()));
    assert(members_model(metadata@) =~= seq![
        ("phase"@, JsonModel::Str(config.core.phase@)),
        ("agent"@, JsonModel::Str("claude_code"@)),
        ("project"@, JsonModel::Str(config.core.name@)),
    ]);

    let mut members: Vec<(String, Json)> = Vec::new();
    assert(members_model(members@) =~= Seq::empty());
    push_member(&mut members, "version", Json::Int(1));
    push_member(&mut members, "enabled", Json::Bool(is_enabled(&config.agents.claude_code)));
    push_member(&mut members, "environment", Json::Object(environment));
    push_member(&mut members, "permissions", Json::Object(permissions));
    push_member(&mut members, "integrations", Json::Object(integrations));
    push_member(&mut members, "metadata", Json::Object(metadata));
    assert(members_model(members@) =~= match claude_code_model(*config, env_pairs@) {
        JsonModel::Object(m) => m,
        _ => Seq::empty(),
    });
    Json::Object(members)
}

/// The Kiro settings document: whether it is enabled, the workspace
/// environment and terminal settings, the assistant context and features, the
/// tool summary with the enabled tools, and the agent it is meant for.
pub fn kiro_settings(config: &PlatformConfig, env_pairs: &[(String, String)]) -> (doc: Json)
    ensures
        doc.model() == kiro_model(*config, env_pairs@),
{
    let mut terminal: Vec<(String, Json)> = Vec::new();
    assert(members_model(terminal@) =~= Seq::empty());
    push_member(&mut terminal, "shell_integration", Json::Bool(true));
    push_member(&mut terminal, "inherit_env", Json::Bool(true));
    assert(members_model(terminal@) =~= seq![
        ("shell_integration"@, JsonModel::Bool(true)),
        ("inherit_env"@, JsonModel::Bool(true)),
    ]);
    let mut workspace: Vec<(String, Json)> = Vec::new();
    assert(members_model(workspace@) =~= Seq::empty());
    push_member(&mut workspace, "environment", env_object(env_pairs));
    push_member(&mut workspace, "terminal", Json::Object(terminal));
    assert(members_model(workspace@) =~= seq![
        ("environment"@, env_object_model(env_pairs@)),
        (
            "terminal"@,
            JsonModel::Object(
                seq![
                    ("shell_integration"@, JsonModel::Bool(true)),
                    ("inherit_env"@, JsonModel::Bool(true)),
                ],
            ),
        ),
    ]);

    let mut context: Vec<(String, Json)> = Vec::new();
    assert(members_model(context@) =~= Seq::empty());
    push_member(&mut context, "phase", Json::Str(config.core.phase.clone()));
    push_member(&mut context, "project", Json::Str(config.core.name.clone()));
    assert(members_model(context@) =~= seq![
        ("phase"@, JsonModel::Str(config.core.phase@)),
        ("project"@, JsonModel::Str(config.core.name@)),
    ]);
    let mut features: Vec<(String, Json)> = Vec::new();
    assert(members_model(features@) =~= Seq::empty());
    push_member(&mut features, "auto_context", Json::Bool(true));
    push_member(&mut features, "include_recent_changes", Json::Bool(true));
    assert(members_model(features@) =~= seq![
        ("auto_context"@, JsonModel::Bool(true)),
        ("include_recent_changes"@, JsonModel::Bool(true)),
    ]);
    let mut assistant: Vec<(String, Json)> = Vec::new();
    assert(members_model(assistant@) =~= Seq::empty());
    push_member(&mut assistant, "context", Json::Object(context));
    push_member(&mut assistant, "features", Json::Object(features));
    assert(members_model(assistant@) =~= seq![
        (
            "context"@,
            JsonModel::Object(
                seq![
                    ("phase"@, JsonModel::Str(config.core.phase@)),
                    ("project"@, JsonModel::Str(config.core.name@)),
                ],
            ),
        ),
        (
            "features"@,
            JsonModel::Object(
                seq![
                    ("auto_context"@, JsonModel::Bool(true)),
                    ("include_recent_changes"@, JsonModel::Bool(true)),
                ],
            ),
        ),
    ]);

    let tool_names = enabled_tool_names(config);
    let mut integrations: Vec<(String, Json)> = Vec::new();
    assert(members_model(integrations@) =~= Seq::empty());
    push_member(&mut integrations, "tools", tool_summary(config));
    push_member(&mut integrations, "preferred_compiled_tools", str_array(tool_names.as_slice()));
    assert(members_model(integrations@) =~= seq![
        ("tools"@, tool_summary_model(config.tools)),
        ("preferred_compiled_tools"@, str_array_model(enabled_tools(config.tools))),
    ]);

    let mut metadata: Vec<(String, Json)> = Vec::new();
    assert(members_model(metadata@) =~= Seq::empty());
    push_member(&mut metadata, "agent", json_str("kiro"));
    assert(members_model(metadata@) =~= seq![("agent"@, JsonModel::Str("kiro"@))]);

    let mut members: Vec<(String, Json)> = Vec::new();
    assert(members_model(members@) =~= Seq::empty());
    push_member(&mut members, "version", Json::Int(1));
    push_member(&mut members, "enabled", Json::Bool(is_enabled(&config.agents.kiro)));
    push_member(&mut members, "workspace", Json::Object(workspace));
    push_member(&mut members, "assistant", Json::Object(assistant));
    push_member(&mut members, "integrations", Json::Object(integrations));
    push_member(&mut members, "metadata", Json::Object(metadata));
    assert(members_model(members@) =~= match kiro_model(*config, env_pairs@) {
        JsonModel::Object(m) => m,
        _ => Seq::empty(),
    });
    Json::Object(members)
}


/// The VS Code settings file: the VS Code settings document as serde_json's
/// pretty-printed text, followed by a newline.
pub fn render_vscode(config: &PlatformConfig, env_pairs: &[(String, String)]) -> (text: String)
    ensures
        text@ == settings_file_text(vscode_model(*config, env_pairs@)),
{
    render_settings(&vscode_settings(config, env_pairs))
}

/// The settings file of the `claude_code` agent: its settings document as
/// serde_json's pretty-printed text, followed by a newline.
pub fn render_claude_code(config: &PlatformConfig, env_pairs: &[(String, String)]) -> (text: String)
    ensures
        text@ == settings_file_text(claude_code_model(*config, env_pairs@)),
{
    render_settings(&claude_code_settings(config, env_pairs))
}

/// The Kiro settings file: the Kiro settings document as serde_json's
/// pretty-printed text, followed by a newline.
pub fn render_kiro(config: &PlatformConfig, env_pairs: &[(String, String)]) -> (text: String)
    ensures
        text@ == settings_file_text(kiro_model(*config, env_pairs@)),
{
    render_settings(&kiro_settings(config, env_pairs))
}


/// The generated files whose text the library writes, each with its path:
/// the three agent settings files and the resolved environment, in the order
/// and under the paths that a deployment records.
pub open spec fn generated_text_files(config: PlatformConfig, pairs: Seq<(String, String)>) -> Seq<
    (Seq<char>, Seq<char>),
> {
    seq![
        (generated_target_paths()[0], settings_file_text(vscode_model(config, pairs))),
        (generated_target_paths()[1], settings_file_text(claude_code_model(config, pairs))),
        (generated_target_paths()[2], settings_file_text(kiro_model(config, pairs))),
        (generated_target_paths()[3], env_lines(pairs)),
    ]
}

/// The paths and texts of a list of files.
pub open spec fn file_texts(files: Seq<(String, String)>) -> Seq<(Seq<char>, Seq<char>)> {
    files.map_values(|f: (String, String)| (f.0@, f.1@))
}

fn push_file(files: &mut Vec<(String, String)>, path: &str, text: String)
    ensures
        file_texts(final(files)@) == file_texts(old(files)@).push((path@, text@)),
{
    files.push((String::from_str(path), text));
    assert(file_texts(final(files)@) =~= file_texts(old(files)@).push((path@, text@)));
}

/// The agent settings files and the resolved environment file, each with the
/// path it is written to.
pub fn generated_text_files_for(config: &PlatformConfig, env_pairs: &[(String, String)]) -> (files:
    Vec<(String, String)>)
    ensures
        file_texts(files@) == generated_text_files(*config, env_pairs@),
{
    let mut files: Vec<(String, String)> = Vec::new();
    assert(file_texts(files@) =~= Seq::empty());
    push_file(&mut files, "generated/agents/vscode.json", render_vscode(config, env_pairs));
    push_file(&mut files, "generated/agents/claude_code.json", render_claude_code(config, env_pairs));
    push_file(&mut files, "generated/agents/kiro.json", render_kiro(config, env_pairs));
    push_file(&mut files, "generated/env/resolved.env", render_env_pairs(env_pairs));
    assert(file_texts(files@) =~= generated_text_files(*config, env_pairs@));
    files
}


/// The document is an object with a member named `name`, and every member of
/// that name has the value `v`.
pub open spec fn has_member(doc: JsonModel, name: Seq<char>, v: JsonModel) -> bool {
    match doc {
        JsonModel::Object(ms) => (exists|i: int| 0 <= i < ms.len() && ms[i] == (name, v)) && (forall|
            i: int,
        | 0 <= i < ms.len() && (#[trigger] ms[i]).0 == name ==> ms[i].1 == v),
        _ => false,
    }
}

/// The document has a member `outer` whose value has a member `inner` of value `v`.
pub open spec fn has_nested_member(doc: JsonModel, outer: Seq<char>, inner: Seq<char>, v: JsonModel) -> bool {
    exists|mid: JsonModel| has_member(doc, outer, mid) && has_member(mid, inner, v)
}

/// The members that map each pair's name to its value as a string, in pair order.
pub open spec fn pair_members(pairs: Seq<(String, String)>) -> Seq<(Seq<char>, JsonModel)> {
    Seq::new(pairs.len(), |i: int| (pairs[i].0@, JsonModel::Str(pairs[i].1@)))
}

/// The `claude_code` document says it is enabled exactly when the
/// `claude_code` agent is present and enabled; the entries of the other agents
/// do not change the document.
pub proof fn lemma_claude_code_enabled_flag(
    config: PlatformConfig,
    pairs: Seq<(String, String)>,
    vscode: Option<ToolSpec>,
    kiro: Option<ToolSpec>,
)
    ensures
        has_member(
            claude_code_model(config, pairs),
            "enabled"@,
            JsonModel::Bool(
                match config.agents.claude_code {
                    Some(t) => t.enabled,
                    None => false,
                },
            ),
        ),
        claude_code_model(
            PlatformConfig { agents: AgentSet { vscode, kiro, ..config.agents }, ..config },
            pairs,
        ) == claude_code_model(config, pairs),
{
    reveal_strlit("version");
    reveal_strlit("enabled");
    reveal_strlit("environment");
    reveal_strlit("permissions");
    reveal_strlit("integrations");
    reveal_strlit("metadata");
    let ms = match claude_code_model(config, pairs) {
        JsonModel::Object(ms) => ms,
        _ => Seq::empty(),
    };
    let v = JsonModel::Bool(
        match config.agents.claude_code {
            Some(t) => t.enabled,
            None => false,
        },
    );
    assert(ms[1] == ("enabled"@, v));
    assert forall|i: int| 0 <= i < ms.len() && i != 1 implies (#[trigger] ms[i]).0 != "enabled"@ by {
        if i == 0 {
            assert(ms[0].0[0] != "enabled"@[0]);
        } else if i == 2 {
            assert(ms[2].0.len() != "enabled"@.len());
        } else if i == 3 {
            assert(ms[3].0.len() != "enabled"@.len());
        } else if i == 4 {
            assert(ms[4].0.len() != "enabled"@.len());
        } else {
            assert(ms[5].0.len() != "enabled"@.len());
        }
    }
    lemma_member_found(ms, 1, "enabled"@, v);
}

/// A member found at one position, with no other member of that name, is the
/// member of that name.
proof fn lemma_member_found(ms: Seq<(Seq<char>, JsonModel)>, k: int, name: Seq<char>, v: JsonModel)
    requires
        0 <= k < ms.len(),
        ms[k] == (name, v),
        forall|i: int| 0 <= i < ms.len() && i != k ==> (#[trigger] ms[i]).0 != name,
    ensures
        has_member(JsonModel::Object(ms), name, v),
{
    let d = JsonModel::Object(ms);
    assert(d->Object_0 == ms);
    assert(0 <= k < ms.len() && ms[k] == (name, v));
    assert(exists|i: int| 0 <= i < ms.len() && ms[i] == (name, v));
    assert forall|i: int| 0 <= i < ms.len() && (#[trigger] ms[i]).0 == name implies ms[i].1 == v by {
        assert(i == k);
    }
    assert(forall|i: int| 0 <= i < ms.len() && (#[trigger] ms[i]).0 == name ==> ms[i].1 == v);
    assert(d is Object);
    assert(has_member(d, name, v));
}

/// The VS Code document gives the terminals of linux, osx and windows each the
/// same environment: the object that maps every pair's name to its value, in
/// pair order.
pub proof fn lemma_vscode_env_on_every_platform(config: PlatformConfig, pairs: Seq<(String, String)>)
    ensures
        has_member(
            vscode_model(config, pairs),
            "terminal.integrated.env.linux"@,
            JsonModel::Object(pair_members(pairs)),
        ),
        has_member(
            vscode_model(config, pairs),
            "terminal.integrated.env.osx"@,
            JsonModel::Object(pair_members(pairs)),
        ),
        has_member(
            vscode_model(config, pairs),
            "terminal.integrated.env.windows"@,
            JsonModel::Object(pair_members(pairs)),
        ),
{
    reveal_strlit("$schema");
    reveal_strlit("terminal.integrated.env.linux");
    reveal_strlit("terminal.integrated.env.osx");
    reveal_strlit("terminal.integrated.env.windows");
    reveal_strlit("chat.tools.autoApprove");
    reveal_strlit("chat.agent.maxRequests");
    reveal_strlit("unifiedShellPlatform.enabled");
    reveal_strlit("unifiedShellPlatform.phase");
    reveal_strlit("unifiedShellPlatform.profile");
    reveal_strlit("unifiedShellPlatform.tools");
    reveal_strlit("metadata");
    let ms = match vscode_model(config, pairs) {
        JsonModel::Object(ms) => ms,
        _ => Seq::empty(),
    };
    let env = JsonModel::Object(pair_members(pairs));
    assert(pairs.map_values(|p: (String, String)| (p.0@, JsonModel::Str(p.1@))) =~= pair_members(pairs));
    assert(env_object_model(pairs) == env);
    assert(ms.len() == 11);
    assert forall|k: int| 1 <= k <= 3 implies has_member(JsonModel::Object(ms), #[trigger] ms[k].0, env) by {
        assert(ms[k].1 == env);
        assert forall|i: int| 0 <= i < ms.len() && i != k implies (#[trigger] ms[i]).0 != ms[k].0 by {
            assert(ms[i].0.len() != ms[k].0.len());
        }
        lemma_member_found(ms, k, ms[k].0, env);
    }
    assert(ms[1].0 == "terminal.integrated.env.linux"@);
    assert(ms[2].0 == "terminal.integrated.env.osx"@);
    assert(ms[3].0 == "terminal.integrated.env.windows"@);
}


/// How many of the tools before position `k` of the fixed order are enabled.
pub open spec fn enabled_before(tools: ToolSet, k: int) -> nat
    decreases k,
{
    if k <= 0 {
        0
    } else {
        enabled_before(tools, k - 1) + (if tool_enabled(tool_at(tools, k - 1)) {
            1nat
        } else {
            0nat
        })
    }
}

/// The names of the enabled tools among the first `k` of the fixed order.
spec fn enabled_prefix(tools: ToolSet, k: int) -> Seq<Seq<char>>
    decreases k,
{
    if k <= 0 {
        Seq::empty()
    } else {
        enabled_prefix(tools, k - 1) + name_if_enabled(tool_at(tools, k - 1), tool_name_at(k - 1))
    }
}

proof fn lemma_enabled_prefix_len(tools: ToolSet, k: int)
    requires
        0 <= k,
    ensures
        enabled_prefix(tools, k).len() == enabled_before(tools, k),
    decreases k,
{
    if k > 0 {
        lemma_enabled_prefix_len(tools, k - 1);
    }
}

proof fn lemma_enabled_prefix_extends(tools: ToolSet, j: int, m: int, i: int)
    requires
        0 <= j <= m,
        0 <= i < enabled_prefix(tools, j).len(),
    ensures
        i < enabled_prefix(tools, m).len(),
        enabled_prefix(tools, m)[i] == enabled_prefix(tools, j)[i],
    decreases m,
{
    if m > j {
        lemma_enabled_prefix_extends(tools, j, m - 1, i);
    }
}

proof fn lemma_enabled_prefix_whole(tools: ToolSet)
    ensures
        enabled_prefix(tools, 6) == enabled_tools(tools),
{
    reveal_with_fuel(enabled_prefix, 7);
    lemma_enabled_tools_parts(tools);
    assert(enabled_prefix(tools, 6) =~= enabled_tools(tools));
}

proof fn lemma_enabled_tools_contains(tools: ToolSet, k: int)
    requires
        0 <= k < 6,
    ensures
        enabled_tools(tools).contains(tool_name_at(k)) <==> tool_enabled(tool_at(tools, k)),
{
    broadcast use vstd::seq_lib::lemma_seq_concat_contains_all_elements;
    broadcast use vstd::seq_lib::lemma_seq_contains;

    lemma_enabled_tools_parts(tools);
    let name = tool_name_at(k);
    assert forall|j: int| 0 <= j < 6 implies (#[trigger] name_if_enabled(tool_at(tools, j), tool_name_at(j))).contains(name)
        <==> (j == k && tool_enabled(tool_at(tools, k))) by {
        if j != k {
            lemma_tool_names_distinct(j, k);
        }
        if tool_enabled(tool_at(tools, j)) {
            assert(name_if_enabled(tool_at(tools, j), tool_name_at(j))[0] == tool_name_at(j));
        }
    }
    assert(name_if_enabled(tool_at(tools, 0), tool_name_at(0)).contains(name) == (0 == k && tool_enabled(tool_at(tools, k))));
    assert(name_if_enabled(tool_at(tools, 1), tool_name_at(1)).contains(name) == (1 == k && tool_enabled(tool_at(tools, k))));
    assert(name_if_enabled(tool_at(tools, 2), tool_name_at(2)).contains(name) == (2 == k && tool_enabled(tool_at(tools, k))));
    assert(name_if_enabled(tool_at(tools, 3), tool_name_at(3)).contains(name) == (3 == k && tool_enabled(tool_at(tools, k))));
    assert(name_if_enabled(tool_at(tools, 4), tool_name_at(4)).contains(name) == (4 == k && tool_enabled(tool_at(tools, k))));
    assert(name_if_enabled(tool_at(tools, 5), tool_name_at(5)).contains(name) == (5 == k && tool_enabled(tool_at(tools, k))));
}

/// The list of preferred tools, which the `claude_code` and Kiro documents both
/// carry under `integrations.preferred_compiled_tools`, names exactly the
/// enabled tools, each once, in the fixed order chezmoi, atuin, just, direnv,
/// bun, npm: an enabled tool's name stands at the position given by the number
/// of enabled tools before it, and the list is as long as the number of enabled
/// tools.
pub proof fn lemma_preferred_tools_listed(config: PlatformConfig, pairs: Seq<(String, String)>)
    ensures
        has_nested_member(
            kiro_model(config, pairs),
            "integrations"@,
            "preferred_compiled_tools"@,
            str_array_model(enabled_tools(config.tools)),
        ),
        has_nested_member(
            claude_code_model(config, pairs),
            "integrations"@,
            "preferred_compiled_tools"@,
            str_array_model(enabled_tools(config.tools)),
        ),
        str_array_model(enabled_tools(config.tools))->Array_0.len() == enabled_before(config.tools, 6),
        forall|k: int|
            0 <= k < 6 && tool_enabled(tool_at(config.tools, k)) ==> #[trigger] str_array_model(
                enabled_tools(config.tools),
            )->Array_0[enabled_before(config.tools, k) as int] == JsonModel::Str(tool_name_at(k)),
        forall|k: int|
            0 <= k < 6 ==> (#[trigger] str_array_model(enabled_tools(config.tools))->Array_0.contains(
                JsonModel::Str(tool_name_at(k)),
            ) <==> tool_enabled(tool_at(config.tools, k))),
{
    let tools = config.tools;
    let names = enabled_tools(tools);
    let arr = names.map_values(|n: Seq<char>| JsonModel::Str(n));
    assert(str_array_model(names)->Array_0 == arr);
    lemma_enabled_prefix_whole(tools);
    lemma_enabled_prefix_len(tools, 6);
    assert forall|k: int| 0 <= k < 6 && tool_enabled(tool_at(tools, k)) implies #[trigger] arr[enabled_before(tools, k) as int]
        == JsonModel::Str(tool_name_at(k)) by {
        lemma_enabled_prefix_len(tools, k);
        lemma_enabled_prefix_len(tools, k + 1);
        let i = enabled_before(tools, k) as int;
        assert(enabled_prefix(tools, k + 1)[i] == tool_name_at(k));
        lemma_enabled_prefix_extends(tools, k + 1, 6, i);
    }
    assert forall|k: int| 0 <= k < 6 implies (#[trigger] arr.contains(JsonModel::Str(tool_name_at(k))))
        <==> tool_enabled(tool_at(tools, k)) by {
        lemma_enabled_tools_contains(tools, k);
        if names.contains(tool_name_at(k)) {
            let i = choose|i: int| 0 <= i < names.len() && names[i] == tool_name_at(k);
            assert(arr[i] == JsonModel::Str(tool_name_at(k)));
        }
        if arr.contains(JsonModel::Str(tool_name_at(k))) {
            let i = choose|i: int| 0 <= i < arr.len() && arr[i] == JsonModel::Str(tool_name_at(k));
            assert(names[i] == tool_name_at(k));
        }
    }
    reveal_strlit("version");
    reveal_strlit("enabled");
    reveal_strlit("workspace");
    reveal_strlit("assistant");
    reveal_strlit("environment");
    reveal_strlit("permissions");
    reveal_strlit("integrations");
    reveal_strlit("metadata");
    let kiro = kiro_model(config, pairs);
    assert forall|i: int| 0 <= i < 6 && i != 4 implies (#[trigger] kiro->Object_0[i]).0.len() != 12 by {
        if i == 0 {
        } else if i == 1 {
        } else if i == 2 {
        } else if i == 3 {
        } else {
        }
    }
    lemma_preferred_in_integrations(kiro, str_array_model(names));
    let claude = claude_code_model(config, pairs);
    assert forall|i: int| 0 <= i < 6 && i != 4 implies (#[trigger] claude->Object_0[i]).0.len() != 12 by {
        if i == 0 {
        } else if i == 1 {
        } else if i == 2 {
        } else if i == 3 {
        } else {
        }
    }
    lemma_preferred_in_integrations(claude, str_array_model(names));
}

/// A document whose member at position four is an `integrations` object,
/// holding the tool summary and then the preferred tools, with no other member
/// of that name, carries those preferred tools.
proof fn lemma_preferred_in_integrations(doc: JsonModel, preferred: JsonModel)
    requires
        doc is Object,
        doc->Object_0.len() == 6,
        doc->Object_0[4].0 == "integrations"@,
        doc->Object_0[4].1 is Object,
        doc->Object_0[4].1->Object_0.len() == 2,
        doc->Object_0[4].1->Object_0[0].0 == "tools"@,
        doc->Object_0[4].1->Object_0[1] == ("preferred_compiled_tools"@, preferred),
        forall|i: int| 0 <= i < 6 && i != 4 ==> (#[trigger] doc->Object_0[i]).0.len() != 12,
    ensures
        has_nested_member(doc, "integrations"@, "preferred_compiled_tools"@, preferred),
{
    reveal_strlit("integrations");
    reveal_strlit("tools");
    reveal_strlit("preferred_compiled_tools");
    let ms = doc->Object_0;
    let mid = ms[4].1;
    lemma_member_found(ms, 4, "integrations"@, mid);
    let inner = mid->Object_0;
    assert(inner[0].0.len() != "preferred_compiled_tools"@.len());
    lemma_member_found(inner, 1, "preferred_compiled_tools"@, preferred);
    assert(JsonModel::Object(ms) == doc);
    assert(JsonModel::Object(inner) == mid);
    assert(has_member(doc, "integrations"@, mid) && has_member(mid, "preferred_compiled_tools"@, preferred));
}

} // verus!
