use vstd::prelude::*;
use crate::model::{is_enabled, tool_enabled, PlatformConfig};
use crate::resolver::{
    deref_profiles, merged_env, merged_profiles_env, resolve_profile, resolved_profiles, Context,
};

verus! {

/// The text with every leading `~/` removed.
pub open spec fn trim_home_prefix(s: Seq<char>) -> Seq<char>
    decreases s.len(),
{
    if s.len() >= 2 && s[0] == '~' && s[1] == '/' {
        trim_home_prefix(s.subrange(2, s.len() as int))
    } else {
        s
    }
}

/// The text with every leading `/` removed.
pub open spec fn trim_leading_slashes(s: Seq<char>) -> Seq<char>
    decreases s.len(),
{
    if s.len() >= 1 && s[0] == '/' {
        trim_leading_slashes(s.subrange(1, s.len() as int))
    } else {
        s
    }
}

/// The non-empty runs of characters between `/` separators, in order.
pub open spec fn path_segments(s: Seq<char>) -> Seq<Seq<char>>
    decreases s.len(),
{
    if s.len() == 0 {
        Seq::empty()
    } else {
        let prev = path_segments(s.drop_last());
        let c = s.last();
        if c == '/' {
            prev
        } else if s.len() >= 2 && s[s.len() - 2] != '/' {
            prev.update(prev.len() - 1, prev.last().push(c))
        } else {
            prev.push(seq![c])
        }
    }
}

/// chezmoi's name for a path segment: a leading `.` becomes `dot_`.
pub open spec fn chezmoi_segment(seg: Seq<char>) -> Seq<char> {
    if seg.len() > 0 && seg[0] == '.' {
        "dot_"@ + seg.subrange(1, seg.len() as int)
    } else {
        seg
    }
}

/// `s` ends with `suffix`.
pub open spec fn ends_with(s: Seq<char>, suffix: Seq<char>) -> bool {
    s.len() >= suffix.len() && s.subrange(s.len() - suffix.len(), s.len() as int) == suffix
}

/// The segments of the chezmoi source path for a target: the target's segments
/// under the home directory, each renamed the chezmoi way, `dot_placeholder`
/// when there are none, and for a template the last segment ending in `.tmpl`.
pub open spec fn chezmoi_parts(target: Seq<char>, template: bool) -> Seq<Seq<char>> {
    let raw = path_segments(trim_leading_slashes(trim_home_prefix(target))).map_values(
        |seg: Seq<char>| chezmoi_segment(seg),
    );
    let parts = if raw.len() == 0 {
        seq!["dot_placeholder"@]
    } else {
        raw
    };
    if template && !ends_with(parts.last(), ".tmpl"@) {
        parts.update(parts.len() - 1, parts.last() + ".tmpl"@)
    } else {
        parts
    }
}

/// The segments joined by `/`.
pub open spec fn join_segments(parts: Seq<Seq<char>>) -> Seq<char>
    decreases parts.len(),
{
    if parts.len() == 0 {
        Seq::empty()
    } else if parts.len() == 1 {
        parts[0]
    } else {
        join_segments(parts.drop_last()) + "/"@ + parts.last()
    }
}

/// The relative chezmoi source path for a target.
pub open spec fn chezmoi_path(target: Seq<char>, template: bool) -> Seq<char> {
    join_segments(chezmoi_parts(target, template))
}

/// chezmoi's name for one path segment: a leading `.` becomes `dot_`.
pub fn segment_to_chezmoi(segment: &str) -> (name: String)
    ensures
        name@ == chezmoi_segment(segment@),
{
    let n: usize = segment.unicode_len();
    if n > 0 && segment.get_char(0) == '.' {
        let mut name = String::from_str("dot_");
        name.append(segment.substring_char(1, n));
        name
    } else {
        String::from_str(segment)
    }
}

fn ends_with_tmpl(s: &str) -> (b: bool)
    ensures
        b == ends_with(s@, ".tmpl"@),
{
    proof {
        reveal_strlit(".tmpl");
    }
    assert(".tmpl"@ =~= seq!['.', 't', 'm', 'p', 'l']);
    let n: usize = s.unicode_len();
    if n < 5 {
        return false;
    }
    let b = s.get_char(n - 5) == '.' && s.get_char(n - 4) == 't' && s.get_char(n - 3) == 'm'
        && s.get_char(n - 2) == 'p' && s.get_char(n - 1) == 'l';
    assert(b == (s@.subrange(n - 5, n as int) =~= ".tmpl"@));
    b
}

fn join_with_slash(parts: &Vec<String>) -> (path: String)
    ensures
        path@ == join_segments(parts@.map_values(|p: String| p@)),
{
    let ghost views = parts@.map_values(|p: String| p@);
    let mut path = String::new();
    let mut i: usize = 0;
    while i < parts.len()
        invariant
            i <= parts@.len(),
            views == parts@.map_values(|p: String| p@),
            path@ == join_segments(views.take(i as int)),
        decreases parts@.len() - i,
    {
        assert(views.take(i + 1).drop_last() =~= views.take(i as int));
        if i > 0 {
            path.append("/");
        } else {
            assert(views.take(1) =~= seq![views[0]]);
            assert(path@ =~= Seq::<char>::empty());
        }
        path.append(parts[i].as_str());
        i = i + 1;
    }
    assert(views.take(parts@.len() as int) =~= views);
    path
}

/// The path, relative to the chezmoi source directory, under which a managed
/// target is kept: the home prefix and leading slashes are dropped, each
/// segment is renamed the chezmoi way, and a template gets the `.tmpl` suffix.
pub fn map_target_to_chezmoi_path(target: &str, template: bool) -> (path: String)
    ensures
        path@ == chezmoi_path(target@, template),
{
    let ghost t = target@;
    let n: usize = target.unicode_len();
    let mut i: usize = 0;
    assert(t.subrange(0, n as int) =~= t);
    while i < n && n - i >= 2 && target.get_char(i) == '~' && target.get_char(i + 1) == '/'
        invariant
            i <= n,
            n == t.len(),
            t == target@,
            trim_home_prefix(t) == trim_home_prefix(t.subrange(i as int, n as int)),
        decreases n - i,
    {
        assert(t.subrange(i as int, n as int).subrange(2, n - i) =~= t.subrange(i + 2, n as int));
        i = i + 2;
    }
    assert(trim_home_prefix(t) == t.subrange(i as int, n as int));
    let home_end: usize = i;
    while i < n && target.get_char(i) == '/'
        invariant
            home_end <= i <= n,
            n == t.len(),
            t == target@,
            trim_home_prefix(t) == t.subrange(home_end as int, n as int),
            trim_leading_slashes(trim_home_prefix(t)) == trim_leading_slashes(
                t.subrange(i as int, n as int),
            ),
        decreases n - i,
    {
        assert(t.subrange(i as int, n as int).subrange(1, n - i) =~= t.subrange(i + 1, n as int));
        i = i + 1;
    }
    let rest_start: usize = i;
    let ghost rest = t.subrange(rest_start as int, n as int);
    assert(trim_leading_slashes(trim_home_prefix(t)) == rest);

    let mut parts: Vec<String> = Vec::new();
    let ghost mut raw: Seq<Seq<char>> = Seq::empty();
    let mut start: usize = i;
    let mut j: usize = i;
    while j < n
        invariant
            rest_start <= start <= j <= n,
            n == t.len(),
            t == target@,
            rest == t.subrange(rest_start as int, n as int),
            parts@.map_values(|p: String| p@) == raw.map_values(|seg: Seq<char>| chezmoi_segment(seg)),
            start < j ==> path_segments(t.subrange(rest_start as int, j as int)) == raw.push(
                t.subrange(start as int, j as int),
            ),
            start < j ==> t[j - 1] != '/',
            start == j ==> path_segments(t.subrange(rest_start as int, j as int)) == raw,
            start == j ==> (j == rest_start || t[j - 1] == '/'),
        decreases n - j,
    {
        let c = target.get_char(j);
        let ghost u = t.subrange(rest_start as int, j as int);
        let ghost u2 = t.subrange(rest_start as int, j + 1);
        assert(u2.drop_last() =~= u);
        assert(u2.last() == c);
        if c == '/' {
            if start < j {
                let seg = target.substring_char(start, j);
                let ghost before = parts@;
                parts.push(segment_to_chezmoi(seg));
                proof {
                    assert(parts@.map_values(|p: String| p@) =~= before.map_values(|p: String| p@).push(
                        chezmoi_segment(seg@),
                    ));
                    raw = raw.push(seg@);
                }
            }
            start = j + 1;
        } else {
            if start < j {
                assert(u2.len() >= 2 && u2[u2.len() - 2] == t[j - 1]);
                assert(t.subrange(start as int, j + 1) =~= t.subrange(start as int, j as int).push(c));
            } else {
                assert(u2.len() < 2 || u2[u2.len() - 2] == '/');
                assert(t.subrange(start as int, j + 1) =~= seq![c]);
            }
        }
        j = j + 1;
    }
    if start < n {
        let seg = target.substring_char(start, n);
        let ghost before = parts@;
        parts.push(segment_to_chezmoi(seg));
        proof {
            assert(parts@.map_values(|p: String| p@) =~= before.map_values(|p: String| p@).push(
                chezmoi_segment(seg@),
            ));
            raw = raw.push(seg@);
        }
    }
    assert(t.subrange(rest_start as int, n as int) == rest);
    assert(raw == path_segments(rest));
    let ghost mapped = raw.map_values(|seg: Seq<char>| chezmoi_segment(seg));
    assert(mapped == path_segments(trim_leading_slashes(trim_home_prefix(t))).map_values(
        |seg: Seq<char>| chezmoi_segment(seg),
    ));

    let ghost base = if mapped.len() == 0 {
        seq!["dot_placeholder"@]
    } else {
        mapped
    };
    if parts.len() == 0 {
        parts.push(String::from_str("dot_placeholder"));
        assert(parts@.map_values(|p: String| p@) =~= seq!["dot_placeholder"@]);
    }
    assert(parts@.map_values(|p: String| p@) == base);
    if template {
        let last: usize = parts.len() - 1;
        assert(parts@[last as int]@ == base.last());
        if !ends_with_tmpl(parts[last].as_str()) {
            let mut name = parts[last].clone();
            name.append(".tmpl");
            let ghost before = parts@;
            parts.set(last, name);
            assert(parts@.map_values(|p: String| p@) =~= before.map_values(|p: String| p@).update(
                last as int,
                before[last as int]@ + ".tmpl"@,
            ));
        }
    }
    assert(parts@.map_values(|p: String| p@) == chezmoi_parts(t, template));
    join_with_slash(&parts)
}


/// A path segment that cannot leave or alias its directory: non-empty,
/// without `/`, and not starting with `.` (so neither `.` nor `..`).
pub open spec fn safe_segment(seg: Seq<char>) -> bool {
    &&& seg.len() > 0
    &&& !seg.contains('/')
    &&& seg[0] != '.'
}

proof fn lemma_path_segments_shape(s: Seq<char>)
    ensures
        forall|i: int|
            0 <= i < path_segments(s).len() ==> (#[trigger] path_segments(s)[i]).len() > 0
                && !path_segments(s)[i].contains('/'),
        s.len() > 0 && s.last() != '/' ==> path_segments(s).len() > 0,
    decreases s.len(),
{
    if s.len() > 0 {
        let prev = path_segments(s.drop_last());
        let c = s.last();
        lemma_path_segments_shape(s.drop_last());
        let r = path_segments(s);
        if c != '/' {
            if s.len() >= 2 && s[s.len() - 2] != '/' {
                assert(s.drop_last().last() == s[s.len() - 2]);
                assert forall|i: int| 0 <= i < r.len() implies (#[trigger] r[i]).len() > 0
                    && !r[i].contains('/') by {
                    if i == prev.len() - 1 {
                        let seg = prev.last();
                        assert(r[i] == seg.push(c));
                        if r[i].contains('/') {
                            let k = choose|k: int| 0 <= k < r[i].len() && r[i][k] == '/';
                            assert(seg[k] == '/');
                        }
                    } else {
                        assert(r[i] == prev[i]);
                    }
                }
            } else {
                assert forall|i: int| 0 <= i < r.len() implies (#[trigger] r[i]).len() > 0
                    && !r[i].contains('/') by {
                    if i == prev.len() {
                        assert(r[i] == seq![c]);
                        if r[i].contains('/') {
                            let k = choose|k: int| 0 <= k < r[i].len() && r[i][k] == '/';
                            assert(r[i][k] == c);
                        }
                    } else {
                        assert(r[i] == prev[i]);
                    }
                }
            }
        }
    }
}

proof fn lemma_chezmoi_segment_safe(seg: Seq<char>)
    requires
        seg.len() > 0,
        !seg.contains('/'),
    ensures
        safe_segment(chezmoi_segment(seg)),
{
    reveal_strlit("dot_");
    let r = chezmoi_segment(seg);
    if seg[0] == '.' {
        assert("dot_"@ =~= seq!['d', 'o', 't', '_']);
        if r.contains('/') {
            let k = choose|k: int| 0 <= k < r.len() && r[k] == '/';
            assert(k >= 4);
            assert(seg[k - 3] == '/');
        }
    }
}

/// The chezmoi source path of a target stays inside the source directory: it
/// has at least one segment, and each segment is non-empty, holds no `/` and
/// does not start with `.`, so that none of them is `.` or `..`. The path is
/// those segments joined by `/`, and a template's path ends with `.tmpl`.
pub proof fn lemma_chezmoi_path_stays_inside(target: Seq<char>, template: bool)
    ensures
        chezmoi_parts(target, template).len() >= 1,
        forall|i: int|
            0 <= i < chezmoi_parts(target, template).len() ==> safe_segment(
                #[trigger] chezmoi_parts(target, template)[i],
            ),
        chezmoi_path(target, template) == join_segments(chezmoi_parts(target, template)),
        template ==> ends_with(chezmoi_path(target, template), ".tmpl"@),
{
    reveal_strlit("dot_placeholder");
    reveal_strlit(".tmpl");
    let segs = path_segments(trim_leading_slashes(trim_home_prefix(target)));
    lemma_path_segments_shape(trim_leading_slashes(trim_home_prefix(target)));
    let raw = segs.map_values(|seg: Seq<char>| chezmoi_segment(seg));
    assert forall|i: int| 0 <= i < raw.len() implies safe_segment(#[trigger] raw[i]) by {
        lemma_chezmoi_segment_safe(segs[i]);
    }
    let parts = if raw.len() == 0 {
        seq!["dot_placeholder"@]
    } else {
        raw
    };
    assert("dot_placeholder"@ =~= seq!['d', 'o', 't', '_', 'p', 'l', 'a', 'c', 'e', 'h', 'o', 'l', 'd', 'e', 'r']);
    assert forall|i: int| 0 <= i < parts.len() implies safe_segment(#[trigger] parts[i]) by {
        if raw.len() == 0 {
            assert(parts[i] == "dot_placeholder"@);
            if parts[i].contains('/') {
                let k = choose|k: int| 0 <= k < parts[i].len() && parts[i][k] == '/';
            }
        }
    }
    let result = chezmoi_parts(target, template);
    assert(".tmpl"@ =~= seq!['.', 't', 'm', 'p', 'l']);
    if template && !ends_with(parts.last(), ".tmpl"@) {
        let last = parts.last() + ".tmpl"@;
        assert(result == parts.update(parts.len() - 1, last));
        assert(safe_segment(parts.last()));
        assert(safe_segment(last)) by {
            if last.contains('/') {
                let k = choose|k: int| 0 <= k < last.len() && last[k] == '/';
                if k < parts.last().len() {
                    assert(parts.last()[k] == '/');
                }
            }
        }
        assert forall|i: int| 0 <= i < result.len() implies safe_segment(#[trigger] result[i]) by {
            if i != parts.len() - 1 {
                assert(result[i] == parts[i]);
            }
        }
        assert(ends_with(last, ".tmpl"@)) by {
            assert(last.subrange(last.len() - 5, last.len() as int) =~= ".tmpl"@);
        }
    }
    assert(ends_with(result.last(), ".tmpl"@) || !template);
    if template {
        lemma_join_ends_with(result, ".tmpl"@);
    }
}

/// The mapping keeps each segment's text: a segment that does not start with
/// `.` is kept character for character, and one that does becomes `dot_`
/// followed by the rest of the segment unchanged.
pub proof fn lemma_segment_keeps_text(seg: Seq<char>)
    ensures
        seg.len() == 0 || seg[0] != '.' ==> chezmoi_segment(seg) == seg,
        seg.len() > 0 && seg[0] == '.' ==> chezmoi_segment(seg) == seq!['d', 'o', 't', '_']
            + seg.subrange(1, seg.len() as int),
{
    reveal_strlit("dot_");
    assert("dot_"@ =~= seq!['d', 'o', 't', '_']);
}

/// When no segment of a target starts with `.`, its chezmoi path (as a plain
/// file) is the target's segments, under the home directory, joined by `/`
/// and otherwise unchanged.
pub proof fn lemma_plain_segments_kept(target: Seq<char>)
    requires
        path_segments(trim_leading_slashes(trim_home_prefix(target))).len() > 0,
        forall|i: int|
            0 <= i < path_segments(trim_leading_slashes(trim_home_prefix(target))).len()
                ==> (#[trigger] path_segments(trim_leading_slashes(trim_home_prefix(target)))[i])[0]
                != '.',
    ensures
        chezmoi_path(target, false) == join_segments(
            path_segments(trim_leading_slashes(trim_home_prefix(target))),
        ),
{
    let segs = path_segments(trim_leading_slashes(trim_home_prefix(target)));
    lemma_path_segments_shape(trim_leading_slashes(trim_home_prefix(target)));
    assert forall|i: int| 0 <= i < segs.len() implies chezmoi_segment(#[trigger] segs[i])
        == segs[i] by {
        lemma_segment_keeps_text(segs[i]);
    }
    assert(segs.map_values(|seg: Seq<char>| chezmoi_segment(seg)) =~= segs);
}

proof fn lemma_join_ends_with(parts: Seq<Seq<char>>, suffix: Seq<char>)
    requires
        parts.len() >= 1,
        ends_with(parts.last(), suffix),
    ensures
        ends_with(join_segments(parts), suffix),
{
    if parts.len() > 1 {
        let j = join_segments(parts);
        let last = parts.last();
        assert(j == join_segments(parts.drop_last()) + "/"@ + last);
        assert(j.subrange(j.len() - suffix.len(), j.len() as int) =~= last.subrange(
            last.len() - suffix.len(),
            last.len() as int,
        ));
    }
}

/// The command line of the orchestrator.
#[derive(Debug)]
pub struct Cli {
    pub command: Commands,
}

/// The orchestrator's subcommands.
#[derive(Debug)]
pub enum Commands {
    Doctor,
    Plan,
    Apply,
    Sync,
    Rollback,
    Integrate,
}

/// The context the orchestrator resolves profiles for: the given operating
/// system, the given shell name (`bash` when it is unknown), no agent IDE, the
/// `default` host profile, and an interactive session.
pub fn default_context(os: String, shell_name: Option<String>) -> (ctx: Context)
    ensures
        ctx.os@ == os@,
        ctx.shell@ == (match shell_name {
            Some(s) => s@,
            None => "bash"@,
        }),
        ctx.agent_ide is None,
        ctx.host_profile is Some,
        ctx.host_profile->0@ == "default"@,
        ctx.interactive,
{
    let shell = match shell_name {
        Some(name) => name,
        None => String::from_str("bash"),
    };
    Context {
        os,
        shell,
        agent_ide: None,
        host_profile: Some(String::from_str("default")),
        interactive: true,
    }
}

/// The text after the last `/` of a path (all of it when there is none).
pub open spec fn after_last_slash(p: Seq<char>) -> Seq<char>
    decreases p.len(),
{
    if p.len() == 0 {
        Seq::empty()
    } else if p.last() == '/' {
        Seq::empty()
    } else {
        after_last_slash(p.drop_last()).push(p.last())
    }
}

/// An ordinary absolute path, read the same way on every platform: it starts
/// with a single `/` (so it has no Windows prefix), and its text after the
/// last `/` is non-empty, holds no `\` and is neither `.` nor `..`. Its final
/// component is that text.
pub open spec fn plain_absolute_path(p: Seq<char>) -> bool {
    &&& p.len() >= 2
    &&& p[0] == '/'
    &&& p[1] != '/'
    &&& p[1] != '\\'
    &&& after_last_slash(p).len() > 0
    &&& !after_last_slash(p).contains('\\')
    &&& after_last_slash(p) != seq!['.']
    &&& after_last_slash(p) != seq!['.', '.']
}

/// std's `Path::file_name` on `path`, its result turned into a `String` with
/// `to_string_lossy`: the final component of the path, if it has one. A final
/// component is never empty and never holds `/`; for an ordinary absolute
/// path it is the text after the last `/`. For other paths, which component
/// is final, and whether there is one (a path ending in `..`, a root), follow
/// the platform's path rules and are left unstated.
#[verifier::external_body]
fn path_file_name(path: &str) -> (name: Option<String>)
    ensures
        name matches Some(n) ==> n@.len() > 0 && !n@.contains('/'),
        plain_absolute_path(path@) ==> (name is Some && name->0@ == after_last_slash(path@)),
{
    std::path::Path::new(path).file_name().map(|n| n.to_string_lossy().into_owned())
}

/// The context for the given operating system and the path of the user's
/// shell (the `SHELL` variable, when set): the shell is the path's final
/// component, or `bash` when there is no path or the path has no final
/// component. For an ordinary absolute path such as `/usr/bin/zsh` it is the
/// text after the last `/`. The rest is as `default_context` gives it.
pub fn context_for_shell_path(os: String, shell_path: Option<String>) -> (ctx: Context)
    ensures
        ctx.os@ == os@,
        shell_path is None ==> ctx.shell@ == "bash"@,
        shell_path matches Some(p) ==> (plain_absolute_path(p@) ==> ctx.shell@ == after_last_slash(
            p@,
        )),
        ctx.shell@.len() > 0,
        !ctx.shell@.contains('/'),
        ctx.agent_ide is None,
        ctx.host_profile is Some,
        ctx.host_profile->0@ == "default"@,
        ctx.interactive,
{
    proof {
        reveal_strlit("bash");
    }
    let shell_name = match shell_path {
        Some(path) => path_file_name(path.as_str()),
        None => None,
    };
    let ctx = default_context(os, shell_name);
    assert(ctx.shell@.contains('/') ==> shell_name is Some);
    ctx
}

/// What `plan` reports about a configuration.
#[derive(Debug)]
pub struct PlanSummary {
    pub matched_profiles: usize,
    pub resolved_env_vars: usize,
    pub managed_files: usize,
    pub atuin_enabled: bool,
}

/// The figures `plan` reports: how many profiles apply to the context, how many
/// variables they define together, how many files are managed, and whether
/// shared history is enabled.
pub fn plan_summary(config: &PlatformConfig, ctx: &Context) -> (summary: PlanSummary)
    ensures
        summary.matched_profiles == resolved_profiles(config.profiles@, *ctx).len(),
        summary.resolved_env_vars == merged_profiles_env(
            resolved_profiles(config.profiles@, *ctx),
        ).len(),
        summary.managed_files == config.managed_files@.len(),
        summary.atuin_enabled == config.atuin.enabled,
{
    let profiles = resolve_profile(config, ctx);
    let env = merged_env(profiles.as_slice());
    assert(deref_profiles(profiles@).len() == profiles@.len());
    PlanSummary {
        matched_profiles: profiles.len(),
        resolved_env_vars: env.len(),
        managed_files: config.managed_files.len(),
        atuin_enabled: config.atuin.enabled,
    }
}

/// Whether the configuration enables chezmoi.
pub fn chezmoi_enabled(config: &PlatformConfig) -> (b: bool)
    ensures
        b == tool_enabled(config.tools.chezmoi),
{
    is_enabled(&config.tools.chezmoi)
}

/// What to do about a chezmoi subcommand.
#[derive(Debug)]
pub enum ChezmoiStep {
    /// chezmoi is disabled in the configuration.
    SkipDisabled,
    /// chezmoi is enabled but not installed.
    SkipNotInstalled,
    /// chezmoi is enabled and installed: run the subcommand.
    Run,
}

/// Decides whether a chezmoi subcommand runs: only when chezmoi is enabled in
/// the configuration and installed.
pub fn chezmoi_step(config: &PlatformConfig, installed: bool) -> (step: ChezmoiStep)
    ensures
        step == (if !tool_enabled(config.tools.chezmoi) {
            ChezmoiStep::SkipDisabled
        } else if !installed {
            ChezmoiStep::SkipNotInstalled
        } else {
            ChezmoiStep::Run
        }),
{
    if !chezmoi_enabled(config) {
        ChezmoiStep::SkipDisabled
    } else if !installed {
        ChezmoiStep::SkipNotInstalled
    } else {
        ChezmoiStep::Run
    }
}

} // verus!
