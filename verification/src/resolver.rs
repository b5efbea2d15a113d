use vstd::prelude::*;
use vstd::multiset::Multiset;
use crate::model::{EnvVar, PlatformConfig, Profile};

verus! {

/// The machine and session a profile resolution is made for.
#[derive(Debug, Clone)]
pub struct Context {
    pub os: String,
    pub shell: String,
    pub agent_ide: Option<String>,
    pub host_profile: Option<String>,
    pub interactive: bool,
}

impl Default for Context {
    fn default() -> (ctx: Self)
        ensures
            ctx.os@ == Seq::<char>::empty(),
            ctx.shell@ == Seq::<char>::empty(),
            ctx.agent_ide is None,
            ctx.host_profile is None,
            !ctx.interactive,
    {
        Context {
            os: String::new(),
            shell: String::new(),
            agent_ide: None,
            host_profile: None,
            interactive: false,
        }
    }
}

/// A string constraint is met when it is absent or equal to the actual value.
pub open spec fn str_constraint_met(constraint: Option<String>, actual: Seq<char>) -> bool {
    match constraint {
        Some(v) => v@ == actual,
        None => true,
    }
}

/// A string constraint against an optional value is met when it is absent,
/// or when the value is present and equal to it.
pub open spec fn opt_constraint_met(constraint: Option<String>, actual: Option<String>) -> bool {
    match constraint {
        Some(v) => match actual {
            Some(a) => a@ == v@,
            None => false,
        },
        None => true,
    }
}

/// A profile applies to a context when each of the constraints it sets holds.
pub open spec fn profile_matches(p: Profile, ctx: Context) -> bool {
    &&& str_constraint_met(p.os, ctx.os@)
    &&& str_constraint_met(p.shell, ctx.shell@)
    &&& opt_constraint_met(p.agent_ide, ctx.agent_ide)
    &&& opt_constraint_met(p.host_profile, ctx.host_profile)
    &&& match p.interactive {
        Some(b) => b == ctx.interactive,
        None => true,
    }
}

/// 1 when the option is set, 0 otherwise.
pub open spec fn set_count<T>(o: Option<T>) -> nat {
    if o is Some { 1 } else { 0 }
}

/// How many constraints a profile sets (0 to 5); a profile with more
/// constraints is more specific.
pub open spec fn specificity(p: Profile) -> nat {
    set_count(p.os) + set_count(p.shell) + set_count(p.agent_ide) + set_count(p.host_profile)
        + set_count(p.interactive)
}

/// Every one of the five constraints counts toward specificity, once: a
/// profile that sets none of them has specificity 0, and setting any one of
/// them (os, shell, agent IDE, host profile, interactive) raises the
/// specificity by exactly one. So two profiles that each set a single
/// constraint, whichever it is, are equally specific.
pub proof fn lemma_each_constraint_counts_once(
    p: Profile,
    os: String,
    shell: String,
    agent: String,
    host: String,
    interactive: bool,
)
    ensures
        specificity(
            Profile { os: None, shell: None, agent_ide: None, host_profile: None, interactive: None, ..p },
        ) == 0,
        specificity(Profile { os: Some(os), ..p }) == specificity(Profile { os: None, ..p }) + 1,
        specificity(Profile { shell: Some(shell), ..p }) == specificity(Profile { shell: None, ..p }) + 1,
        specificity(Profile { agent_ide: Some(agent), ..p }) == specificity(
            Profile { agent_ide: None, ..p },
        ) + 1,
        specificity(Profile { host_profile: Some(host), ..p }) == specificity(
            Profile { host_profile: None, ..p },
        ) + 1,
        specificity(Profile { interactive: Some(interactive), ..p }) == specificity(
            Profile { interactive: None, ..p },
        ) + 1,
{
}

/// The profiles of `ps` that match `ctx` and have the given specificity, in declaration order.
pub open spec fn profiles_at_level(ps: Seq<Profile>, ctx: Context, level: nat) -> Seq<Profile> {
    ps.filter(|p: Profile| profile_matches(p, ctx) && specificity(p) == level)
}

/// The matching profiles of specificity below `n`: all those of specificity 0,
/// then those of specificity 1, and so on.
pub open spec fn resolved_below(ps: Seq<Profile>, ctx: Context, n: nat) -> Seq<Profile>
    decreases n,
{
    if n == 0 {
        Seq::empty()
    } else {
        resolved_below(ps, ctx, (n - 1) as nat) + profiles_at_level(ps, ctx, (n - 1) as nat)
    }
}

/// The highest specificity a profile can have.
pub open spec fn max_specificity() -> nat {
    5
}

/// The profiles that apply to `ctx`: less specific profiles come before more
/// specific ones, and profiles of equal specificity keep their declaration order.
pub open spec fn resolved_profiles(ps: Seq<Profile>, ctx: Context) -> Seq<Profile> {
    resolved_below(ps, ctx, max_specificity() + 1)
}

/// The profiles that a sequence of references points to.
pub open spec fn deref_profiles(s: Seq<&Profile>) -> Seq<Profile> {
    s.map_values(|p: &Profile| *p)
}

fn str_constraint_holds(constraint: &Option<String>, actual: &String) -> (b: bool)
    ensures
        b == str_constraint_met(*constraint, actual@),
{
    match constraint {
        Some(v) => *v == *actual,
        None => true,
    }
}

fn opt_constraint_holds(constraint: &Option<String>, actual: &Option<String>) -> (b: bool)
    ensures
        b == opt_constraint_met(*constraint, *actual),
{
    match constraint {
        Some(v) => match actual {
            Some(a) => *a == *v,
            None => false,
        },
        None => true,
    }
}

/// Whether every constraint that `profile` sets holds in `ctx`.
pub fn matches_context(profile: &Profile, ctx: &Context) -> (b: bool)
    ensures
        b == profile_matches(*profile, *ctx),
{
    let os_ok = str_constraint_holds(&profile.os, &ctx.os);
    let shell_ok = str_constraint_holds(&profile.shell, &ctx.shell);
    let agent_ok = opt_constraint_holds(&profile.agent_ide, &ctx.agent_ide);
    let host_ok = opt_constraint_holds(&profile.host_profile, &ctx.host_profile);
    let interactive_ok = match profile.interactive {
        Some(value) => value == ctx.interactive,
        None => true,
    };
    os_ok && shell_ok && agent_ok && host_ok && interactive_ok
}

/// The number of constraints that `profile` sets.
pub fn profile_specificity(profile: &Profile) -> (n: usize)
    ensures
        n == specificity(*profile),
        n <= max_specificity(),
{
    let mut n: usize = 0;
    if profile.os.is_some() {
        n = n + 1;
    }
    if profile.shell.is_some() {
        n = n + 1;
    }
    if profile.agent_ide.is_some() {
        n = n + 1;
    }
    if profile.host_profile.is_some() {
        n = n + 1;
    }
    if profile.interactive.is_some() {
        n = n + 1;
    }
    n
}

/// The profiles of `config` that apply to `ctx`, less specific ones first and
/// profiles of equal specificity in declaration order.
pub fn resolve_profile<'a>(config: &'a PlatformConfig, ctx: &Context) -> (res: Vec<&'a Profile>)
    ensures
        deref_profiles(res@) == resolved_profiles(config.profiles@, *ctx),
{
    let ghost ps = config.profiles@;
    let n: usize = config.profiles.len();
    let mut res: Vec<&'a Profile> = Vec::new();
    let mut level: usize = 0;
    while level <= 5
        invariant
            ps == config.profiles@,
            n == ps.len(),
            level <= 6,
            deref_profiles(res@) == resolved_below(ps, *ctx, level as nat),
        decreases 6 - level,
    {
        let ghost before = deref_profiles(res@);
        let ghost pred = |p: Profile| profile_matches(p, *ctx) && specificity(p) == level as nat;
        let mut i: usize = 0;
        while i < n
            invariant
                ps == config.profiles@,
                n == ps.len(),
                level <= 5,
                i <= n,
                pred == (|p: Profile| profile_matches(p, *ctx) && specificity(p) == level as nat),
                before == resolved_below(ps, *ctx, level as nat),
                deref_profiles(res@) == before + ps.take(i as int).filter(pred),
            decreases n - i,
        {
            let p = &config.profiles[i];
            let keep = matches_context(p, ctx) && profile_specificity(p) == level;
            let ghost old_res = res@;
            if keep {
                res.push(p);
            }
            proof {
                reveal(Seq::filter);
                assert(ps.take(i + 1).drop_last() =~= ps.take(i as int));
                assert(ps.take(i + 1).last() == ps[i as int]);
                assert(pred(ps[i as int]) == keep);
                if keep {
                    assert(deref_profiles(res@) =~= deref_profiles(old_res).push(*p));
                } else {
                    assert(deref_profiles(res@) =~= deref_profiles(old_res));
                }
            }
            i = i + 1;
        }
        proof {
            assert(ps.take(n as int) =~= ps);
        }
        level = level + 1;
    }
    res
}


/// Every variable that the profiles assign, profile by profile, each profile's
/// variables in their declared order.
pub open spec fn profile_vars(ps: Seq<Profile>) -> Seq<EnvVar>
    decreases ps.len(),
{
    if ps.len() == 0 {
        Seq::empty()
    } else {
        profile_vars(ps.drop_last()) + ps.last().vars@
    }
}

/// The position of the first variable of `env` named `key`, or -1 when there is none.
pub open spec fn key_index(env: Seq<EnvVar>, key: Seq<char>) -> int
    decreases env.len(),
{
    if env.len() == 0 {
        -1
    } else {
        let earlier = key_index(env.drop_last(), key);
        if earlier >= 0 {
            earlier
        } else if env.last().key@ == key {
            env.len() - 1
        } else {
            -1
        }
    }
}

/// Applies one assignment: an existing variable of that name takes the new
/// value in place; otherwise the assignment is appended.
pub open spec fn merge_var(env: Seq<EnvVar>, v: EnvVar) -> Seq<EnvVar> {
    let i = key_index(env, v.key@);
    if i >= 0 {
        env.update(i, EnvVar { key: env[i].key, value: v.value })
    } else {
        env.push(v)
    }
}

/// Applies the assignments in order, starting from an empty environment.
pub open spec fn merge_vars(vars: Seq<EnvVar>) -> Seq<EnvVar>
    decreases vars.len(),
{
    if vars.len() == 0 {
        Seq::empty()
    } else {
        merge_var(merge_vars(vars.drop_last()), vars.last())
    }
}

/// The environment that the profiles yield, applied in the given order.
pub open spec fn merged_profiles_env(ps: Seq<Profile>) -> Seq<EnvVar> {
    merge_vars(profile_vars(ps))
}

fn copy_var(v: &EnvVar) -> (c: EnvVar)
    ensures
        c == *v,
{
    EnvVar { key: v.key.clone(), value: v.value.clone() }
}

/// Position of the first variable in `env` named `key`, if any.
fn find_key(env: &Vec<EnvVar>, key: &String) -> (r: Option<usize>)
    ensures
        match r {
            Some(i) => key_index(env@, key@) == i as int && i < env@.len(),
            None => key_index(env@, key@) == -1,
        },
{
    let mut j: usize = 0;
    while j < env.len()
        invariant
            j <= env@.len(),
            key_index(env@.take(j as int), key@) == -1,
        decreases env@.len() - j,
    {
        assert(env@.take(j + 1).drop_last() =~= env@.take(j as int));
        if env[j].key == *key {
            proof {
                lemma_key_index_extends(env@, key@, (j + 1) as int);
            }
            return Some(j);
        }
        j = j + 1;
    }
    assert(env@.take(env@.len() as int) =~= env@);
    None
}

/// A key found in a prefix is found at the same place in the whole sequence.
proof fn lemma_key_index_extends(env: Seq<EnvVar>, key: Seq<char>, n: int)
    requires
        0 <= n <= env.len(),
        key_index(env.take(n), key) >= 0,
    ensures
        key_index(env, key) == key_index(env.take(n), key),
    decreases env.len() - n,
{
    if n < env.len() {
        assert(env.take(n + 1).drop_last() =~= env.take(n));
        lemma_key_index_extends(env, key, n + 1);
    } else {
        assert(env.take(n) =~= env);
    }
}

/// The environment that the given profiles define: each variable appears once,
/// at the place of its first assignment, with the value of its last assignment.
pub fn merged_env(profiles: &[&Profile]) -> (merged: Vec<EnvVar>)
    ensures
        merged@ == merged_profiles_env(deref_profiles(profiles@)),
{
    let mut merged: Vec<EnvVar> = Vec::new();
    let mut p: usize = 0;
    while p < profiles.len()
        invariant
            p <= profiles@.len(),
            merged@ == merge_vars(profile_vars(deref_profiles(profiles@.take(p as int)))),
        decreases profiles@.len() - p,
    {
        let profile: &Profile = profiles[p];
        let ghost base = profile_vars(deref_profiles(profiles@.take(p as int)));
        assert(deref_profiles(profiles@.take(p + 1)).drop_last() =~= deref_profiles(profiles@.take(p as int)));
        assert(profile_vars(deref_profiles(profiles@.take(p + 1))) == base + profile.vars@);
        let mut k: usize = 0;
        while k < profile.vars.len()
            invariant
                k <= profile.vars@.len(),
                merged@ == merge_vars(base + profile.vars@.take(k as int)),
            decreases profile.vars@.len() - k,
        {
            let var = &profile.vars[k];
            let ghost prev = merged@;
            assert((base + profile.vars@.take(k + 1)).drop_last() =~= base + profile.vars@.take(k as int));
            assert((base + profile.vars@.take(k + 1)).last() == *var);
            match find_key(&merged, &var.key) {
                Some(j) => {
                    let updated = EnvVar { key: merged[j].key.clone(), value: var.value.clone() };
                    merged.set(j, updated);
                },
                None => {
                    merged.push(copy_var(var));
                },
            }
            assert(merged@ =~= merge_var(prev, *var));
            k = k + 1;
        }
        assert(profile.vars@.take(profile.vars@.len() as int) =~= profile.vars@);
        p = p + 1;
    }
    assert(deref_profiles(profiles@.take(profiles@.len() as int)) =~= deref_profiles(profiles@));
    merged
}


/// The value that `env` gives to `key`: that of its first variable of that name.
pub open spec fn lookup(env: Seq<EnvVar>, key: Seq<char>) -> Option<String> {
    let i = key_index(env, key);
    if i >= 0 {
        Some(env[i].value)
    } else {
        None
    }
}

/// The value of the last assignment to `key` among `vars`, if any assigns it.
pub open spec fn last_assignment(vars: Seq<EnvVar>, key: Seq<char>) -> Option<String>
    decreases vars.len(),
{
    if vars.len() == 0 {
        None
    } else if vars.last().key@ == key {
        Some(vars.last().value)
    } else {
        last_assignment(vars.drop_last(), key)
    }
}

/// No two variables of `env` have the same name.
pub open spec fn keys_unique(env: Seq<EnvVar>) -> bool {
    forall|i: int, j: int| 0 <= i < j < env.len() ==> env[i].key@ != env[j].key@
}

/// What `key_index` returns, stated without recursion.
proof fn lemma_key_index_spec(env: Seq<EnvVar>, key: Seq<char>)
    ensures
        -1 <= key_index(env, key) < env.len(),
        key_index(env, key) >= 0 ==> env[key_index(env, key)].key@ == key,
        forall|j: int|
            0 <= j < env.len() && (key_index(env, key) == -1 || j < key_index(env, key))
                ==> #[trigger] env[j].key@ != key,
    decreases env.len(),
{
    if env.len() > 0 {
        lemma_key_index_spec(env.drop_last(), key);
        assert forall|j: int|
            0 <= j < env.len() && (key_index(env, key) == -1 || j < key_index(env, key))
            implies #[trigger] env[j].key@ != key by {
            if j < env.len() - 1 {
                assert(env.drop_last()[j] == env[j]);
            }
        }
    }
}

/// Two environments whose variables have the same names, place by place, find
/// every key at the same place.
proof fn lemma_key_index_same_keys(a: Seq<EnvVar>, b: Seq<EnvVar>, key: Seq<char>)
    requires
        a.len() == b.len(),
        forall|j: int| 0 <= j < a.len() ==> #[trigger] a[j].key@ == b[j].key@,
    ensures
        key_index(a, key) == key_index(b, key),
    decreases a.len(),
{
    if a.len() > 0 {
        assert forall|j: int| 0 <= j < a.drop_last().len() implies #[trigger] a.drop_last()[j].key@
            == b.drop_last()[j].key@ by {
            assert(a.drop_last()[j] == a[j]);
            assert(b.drop_last()[j] == b[j]);
        }
        lemma_key_index_same_keys(a.drop_last(), b.drop_last(), key);
    }
}

/// Appending a variable leaves the place of an earlier key unchanged, and makes
/// a new key found at the end.
proof fn lemma_key_index_push(env: Seq<EnvVar>, v: EnvVar, key: Seq<char>)
    ensures
        key_index(env, key) >= 0 ==> key_index(env.push(v), key) == key_index(env, key),
        key_index(env, key) == -1 && v.key@ == key ==> key_index(env.push(v), key) == env.len(),
        key_index(env, key) == -1 && v.key@ != key ==> key_index(env.push(v), key) == -1,
{
    assert(env.push(v).drop_last() =~= env);
}

/// Applying an assignment keeps the names of the variables already present.
proof fn lemma_merge_var_keys(env: Seq<EnvVar>, v: EnvVar)
    ensures
        merge_var(env, v).len() >= env.len(),
        forall|j: int| 0 <= j < env.len() ==> #[trigger] merge_var(env, v)[j].key@ == env[j].key@,
{
    lemma_key_index_spec(env, v.key@);
}

/// After merging, no variable name occurs twice.
pub proof fn lemma_merged_keys_unique(vars: Seq<EnvVar>)
    ensures
        keys_unique(merge_vars(vars)),
    decreases vars.len(),
{
    if vars.len() > 0 {
        let m = merge_vars(vars.drop_last());
        let v = vars.last();
        lemma_merged_keys_unique(vars.drop_last());
        lemma_key_index_spec(m, v.key@);
        lemma_merge_var_keys(m, v);
        let r = merge_vars(vars);
        assert(r == merge_var(m, v));
        assert forall|i: int, j: int| 0 <= i < j < r.len() implies r[i].key@ != r[j].key@ by {
            if j < m.len() {
                assert(r[i].key@ == m[i].key@);
                assert(r[j].key@ == m[j].key@);
            } else {
                assert(r[i].key@ == m[i].key@);
                assert(r[j] == v);
            }
        }
    }
}

/// After merging, every name holds the value of its last assignment, and only
/// assigned names are present.
pub proof fn lemma_merged_value_is_last_assignment(vars: Seq<EnvVar>, key: Seq<char>)
    ensures
        lookup(merge_vars(vars), key) == last_assignment(vars, key),
    decreases vars.len(),
{
    if vars.len() > 0 {
        let m = merge_vars(vars.drop_last());
        let v = vars.last();
        lemma_merged_value_is_last_assignment(vars.drop_last(), key);
        lemma_key_index_spec(m, v.key@);
        lemma_key_index_spec(m, key);
        let i = key_index(m, v.key@);
        let r = merge_vars(vars);
        assert(r == merge_var(m, v));
        if i >= 0 {
            lemma_merge_var_keys(m, v);
            lemma_key_index_same_keys(r, m, key);
            if v.key@ != key && key_index(m, key) >= 0 {
                assert(key_index(m, key) != i);
            }
        } else {
            lemma_key_index_push(m, v, key);
        }
    }
}


/// Every profile in the resolution matches the context and has specificity below `n`.
proof fn lemma_resolved_below_levels(ps: Seq<Profile>, ctx: Context, n: nat)
    ensures
        forall|i: int|
            0 <= i < resolved_below(ps, ctx, n).len() ==> {
                &&& profile_matches(#[trigger] resolved_below(ps, ctx, n)[i], ctx)
                &&& specificity(resolved_below(ps, ctx, n)[i]) < n
            },
        forall|i: int, j: int|
            0 <= i < j < resolved_below(ps, ctx, n).len() ==> specificity(
                #[trigger] resolved_below(ps, ctx, n)[i],
            ) <= specificity(#[trigger] resolved_below(ps, ctx, n)[j]),
    decreases n,
{
    broadcast use vstd::seq_lib::group_filter_ensures;

    if n > 0 {
        let m = (n - 1) as nat;
        lemma_resolved_below_levels(ps, ctx, m);
        let a = resolved_below(ps, ctx, m);
        let b = profiles_at_level(ps, ctx, m);
        let r = resolved_below(ps, ctx, n);
        assert(r == a + b);
        assert forall|i: int| 0 <= i < b.len() implies profile_matches(#[trigger] b[i], ctx)
            && specificity(b[i]) == m by {
            ps.lemma_filter_pred(|p: Profile| profile_matches(p, ctx) && specificity(p) == m, i);
        }
        assert forall|i: int|
            0 <= i < r.len() implies profile_matches(#[trigger] r[i], ctx) && specificity(r[i]) < n by {
            if i < a.len() {
                assert(r[i] == a[i]);
            } else {
                assert(r[i] == b[i - a.len()]);
            }
        }
        assert forall|i: int, j: int| 0 <= i < j < r.len() implies specificity(#[trigger] r[i])
            <= specificity(#[trigger] r[j]) by {
            if j < a.len() {
                assert(r[i] == a[i] && r[j] == a[j]);
            } else if i < a.len() {
                assert(r[i] == a[i] && r[j] == b[j - a.len()]);
            } else {
                assert(r[i] == b[i - a.len()] && r[j] == b[j - a.len()]);
            }
        }
    }
}

/// Resolution only yields profiles that match the context, and never puts a
/// profile after a more specific one.
pub proof fn lemma_resolved_sorted_by_specificity(ps: Seq<Profile>, ctx: Context)
    ensures
        forall|i: int|
            0 <= i < resolved_profiles(ps, ctx).len() ==> profile_matches(
                #[trigger] resolved_profiles(ps, ctx)[i],
                ctx,
            ),
        forall|i: int, j: int|
            0 <= i < j < resolved_profiles(ps, ctx).len() ==> specificity(
                #[trigger] resolved_profiles(ps, ctx)[i],
            ) <= specificity(#[trigger] resolved_profiles(ps, ctx)[j]),
{
    lemma_resolved_below_levels(ps, ctx, max_specificity() + 1);
}

/// The matching profiles, in declaration order.
pub open spec fn matching_profiles(ps: Seq<Profile>, ctx: Context) -> Seq<Profile> {
    ps.filter(|p: Profile| profile_matches(p, ctx))
}

proof fn lemma_resolved_below_push(q: Seq<Profile>, x: Profile, ctx: Context, n: nat)
    ensures
        resolved_below(q.push(x), ctx, n).to_multiset() =~= resolved_below(q, ctx, n).to_multiset().add(
            if profile_matches(x, ctx) && specificity(x) < n {
                Multiset::singleton(x)
            } else {
                Multiset::empty()
            },
        ),
    decreases n,
{
    broadcast use vstd::multiset::group_multiset_axioms;
    broadcast use vstd::seq_lib::group_to_multiset_ensures;

    if n > 0 {
        let m = (n - 1) as nat;
        lemma_resolved_below_push(q, x, ctx, m);
        let ps = q.push(x);
        let pred = |p: Profile| profile_matches(p, ctx) && specificity(p) == m;
        assert(ps.drop_last() =~= q);
        assert(profiles_at_level(ps, ctx, m) == if pred(x) {
            profiles_at_level(q, ctx, m).push(x)
        } else {
            profiles_at_level(q, ctx, m)
        }) by {
            reveal(Seq::filter);
        }
        vstd::seq_lib::lemma_multiset_commutative(
            resolved_below(ps, ctx, m),
            profiles_at_level(ps, ctx, m),
        );
        vstd::seq_lib::lemma_multiset_commutative(
            resolved_below(q, ctx, m),
            profiles_at_level(q, ctx, m),
        );
    }
}

/// Resolution yields exactly the matching profiles, each as often as it is
/// declared, only reordered.
pub proof fn lemma_resolved_permutes_matching(ps: Seq<Profile>, ctx: Context)
    ensures
        resolved_profiles(ps, ctx).to_multiset() =~= matching_profiles(ps, ctx).to_multiset(),
    decreases ps.len(),
{
    broadcast use vstd::multiset::group_multiset_axioms;
    broadcast use vstd::seq_lib::group_to_multiset_ensures;

    if ps.len() == 0 {
        assert(resolved_profiles(ps, ctx).len() == 0) by {
            lemma_resolved_below_empty(ps, ctx, max_specificity() + 1);
        }
        assert(matching_profiles(ps, ctx) =~= ps) by {
            reveal(Seq::filter);
        }
    } else {
        let q = ps.drop_last();
        let x = ps.last();
        assert(q.push(x) =~= ps);
        lemma_resolved_permutes_matching(q, ctx);
        lemma_resolved_below_push(q, x, ctx, max_specificity() + 1);
        assert(matching_profiles(ps, ctx) == if profile_matches(x, ctx) {
            matching_profiles(q, ctx).push(x)
        } else {
            matching_profiles(q, ctx)
        }) by {
            reveal(Seq::filter);
        }
    }
}

proof fn lemma_resolved_below_empty(ps: Seq<Profile>, ctx: Context, n: nat)
    requires
        ps.len() == 0,
    ensures
        resolved_below(ps, ctx, n).len() == 0,
    decreases n,
{
    if n > 0 {
        lemma_resolved_below_empty(ps, ctx, (n - 1) as nat);
        assert(profiles_at_level(ps, ctx, (n - 1) as nat).len() == 0) by {
            reveal(Seq::filter);
        }
    }
}


proof fn lemma_last_assignment_none(vars: Seq<EnvVar>, key: Seq<char>)
    ensures
        (last_assignment(vars, key) is None) == (forall|j: int|
            0 <= j < vars.len() ==> #[trigger] vars[j].key@ != key),
    decreases vars.len(),
{
    if vars.len() > 0 {
        lemma_last_assignment_none(vars.drop_last(), key);
        if last_assignment(vars, key) is None {
            assert forall|j: int| 0 <= j < vars.len() implies #[trigger] vars[j].key@ != key by {
                if j < vars.len() - 1 {
                    assert(vars.drop_last()[j] == vars[j]);
                }
            }
        } else if vars.last().key@ != key {
            let j = choose|j: int| 0 <= j < vars.drop_last().len() && vars.drop_last()[j].key@ == key;
            assert(vars[j] == vars.drop_last()[j]);
        }
    }
}

/// After merging, each variable stands where the variables were first
/// assigned: a variable that comes earlier in the result was first assigned
/// earlier, and every variable in the result was assigned.
pub proof fn lemma_merged_keeps_first_assignment_order(vars: Seq<EnvVar>)
    ensures
        forall|i: int|
            0 <= i < merge_vars(vars).len() ==> 0 <= key_index(
                vars,
                (#[trigger] merge_vars(vars)[i]).key@,
            ),
        forall|i: int, j: int|
            0 <= i < j < merge_vars(vars).len() ==> key_index(
                vars,
                (#[trigger] merge_vars(vars)[i]).key@,
            ) < key_index(vars, (#[trigger] merge_vars(vars)[j]).key@),
    decreases vars.len(),
{
    if vars.len() > 0 {
        let prev = vars.drop_last();
        let v = vars.last();
        let m = merge_vars(prev);
        let r = merge_vars(vars);
        assert(prev.push(v) =~= vars);
        assert(r == merge_var(m, v));
        lemma_merged_keeps_first_assignment_order(prev);
        lemma_merge_var_keys(m, v);
        lemma_key_index_spec(m, v.key@);
        assert forall|i: int| 0 <= i < m.len() implies key_index(vars, #[trigger] m[i].key@)
            == key_index(prev, m[i].key@) && key_index(prev, m[i].key@) < prev.len() by {
            lemma_key_index_push(prev, v, m[i].key@);
            lemma_key_index_spec(prev, m[i].key@);
        }
        if key_index(m, v.key@) < 0 {
            lemma_merged_value_is_last_assignment(prev, v.key@);
            lemma_last_assignment_none(prev, v.key@);
            lemma_key_index_spec(prev, v.key@);
            lemma_key_index_push(prev, v, v.key@);
            assert(r[m.len() as int] == v);
            assert(key_index(vars, v.key@) == prev.len());
        }
        assert forall|i: int| 0 <= i < r.len() implies 0 <= key_index(vars, (#[trigger] r[i]).key@) by {
            if i < m.len() {
                assert(r[i].key@ == m[i].key@);
            }
        }
        assert forall|i: int, j: int| 0 <= i < j < r.len() implies key_index(
            vars,
            (#[trigger] r[i]).key@,
        ) < key_index(vars, (#[trigger] r[j]).key@) by {
            assert(r[i].key@ == m[i].key@);
            if j < m.len() {
                assert(r[j].key@ == m[j].key@);
            }
        }
    }
}

/// Merging variables whose names are all different changes nothing.
pub proof fn lemma_merge_unique_is_identity(env: Seq<EnvVar>)
    requires
        keys_unique(env),
    ensures
        merge_vars(env) == env,
    decreases env.len(),
{
    if env.len() > 0 {
        let prev = env.drop_last();
        assert(keys_unique(prev));
        lemma_merge_unique_is_identity(prev);
        lemma_key_index_spec(prev, env.last().key@);
        if key_index(prev, env.last().key@) >= 0 {
            let i = key_index(prev, env.last().key@);
            assert(prev[i] == env[i]);
        }
        assert(prev.push(env.last()) =~= env);
    }
}

/// Merging an environment that is already merged changes nothing.
pub proof fn lemma_merge_idempotent(vars: Seq<EnvVar>)
    ensures
        merge_vars(merge_vars(vars)) == merge_vars(vars),
{
    lemma_merged_keys_unique(vars);
    lemma_merge_unique_is_identity(merge_vars(vars));
}

/// The profile assigns a value to `key` among its variables.
pub open spec fn assigns_key(p: Profile, key: Seq<char>) -> bool {
    last_assignment(p.vars@, key) is Some
}

proof fn lemma_profile_vars_add(a: Seq<Profile>, b: Seq<Profile>)
    ensures
        profile_vars(a + b) == profile_vars(a) + profile_vars(b),
    decreases b.len(),
{
    if b.len() == 0 {
        assert(a + b =~= a);
        assert(profile_vars(a) + profile_vars(b) =~= profile_vars(a));
    } else {
        assert((a + b).drop_last() =~= a + b.drop_last());
        assert((a + b).last() == b.last());
        lemma_profile_vars_add(a, b.drop_last());
        assert(profile_vars(a + b) =~= profile_vars(a) + profile_vars(b));
    }
}

proof fn lemma_last_assignment_add(a: Seq<EnvVar>, b: Seq<EnvVar>, key: Seq<char>)
    ensures
        last_assignment(a + b, key) == if last_assignment(b, key) is Some {
            last_assignment(b, key)
        } else {
            last_assignment(a, key)
        },
    decreases b.len(),
{
    if b.len() == 0 {
        assert(a + b =~= a);
    } else {
        assert((a + b).drop_last() =~= a + b.drop_last());
        assert((a + b).last() == b.last());
        lemma_last_assignment_add(a, b.drop_last(), key);
    }
}

proof fn lemma_no_assignment(s: Seq<Profile>, key: Seq<char>)
    requires
        forall|i: int| 0 <= i < s.len() ==> !assigns_key(#[trigger] s[i], key),
    ensures
        last_assignment(profile_vars(s), key) is None,
    decreases s.len(),
{
    if s.len() > 0 {
        assert forall|i: int| 0 <= i < s.drop_last().len() implies !assigns_key(
            #[trigger] s.drop_last()[i],
            key,
        ) by {
            assert(s.drop_last()[i] == s[i]);
        }
        lemma_no_assignment(s.drop_last(), key);
        assert(!assigns_key(s[s.len() - 1], key));
        lemma_last_assignment_add(profile_vars(s.drop_last()), s.last().vars@, key);
    }
}

/// The profile at `j` wins `key` over every other matching profile that assigns it.
pub open spec fn overrides_all(ps: Seq<Profile>, ctx: Context, key: Seq<char>, j: int) -> bool {
    forall|i: int|
        0 <= i < ps.len() && i != j && profile_matches(ps[i], ctx) && #[trigger] assigns_key(
            ps[i],
            key,
        ) ==> specificity(ps[i]) < specificity(ps[j]) || (specificity(ps[i]) == specificity(ps[j])
            && i < j)
}

proof fn lemma_level_above_silent(ps: Seq<Profile>, ctx: Context, key: Seq<char>, j: int, l: nat)
    requires
        0 <= j < ps.len(),
        overrides_all(ps, ctx, key, j),
        l > specificity(ps[j]),
    ensures
        last_assignment(profile_vars(profiles_at_level(ps, ctx, l)), key) is None,
{
    broadcast use vstd::seq_lib::group_filter_ensures;

    let pred = |p: Profile| profile_matches(p, ctx) && specificity(p) == l;
    let lev = profiles_at_level(ps, ctx, l);
    assert forall|i: int| 0 <= i < lev.len() implies !assigns_key(#[trigger] lev[i], key) by {
        ps.lemma_filter_pred(pred, i);
        assert(lev.contains(lev[i]));
        ps.lemma_filter_contains_rev(pred, lev[i]);
        let k = choose|k: int| 0 <= k < ps.len() && ps[k] == lev[i];
        if assigns_key(lev[i], key) {
            assert(assigns_key(ps[k], key));
        }
    }
    lemma_no_assignment(lev, key);
}

proof fn lemma_own_level_decides(ps: Seq<Profile>, ctx: Context, key: Seq<char>, j: int)
    requires
        0 <= j < ps.len(),
        profile_matches(ps[j], ctx),
        assigns_key(ps[j], key),
        overrides_all(ps, ctx, key, j),
    ensures
        last_assignment(profile_vars(profiles_at_level(ps, ctx, specificity(ps[j]))), key)
            == last_assignment(ps[j].vars@, key),
{
    broadcast use vstd::seq_lib::group_filter_ensures;

    let l = specificity(ps[j]);
    let pred = |p: Profile| profile_matches(p, ctx) && specificity(p) == l;
    let head = ps.take(j + 1);
    let tail = ps.skip(j + 1);
    assert(ps =~= head + tail);
    Seq::filter_distributes_over_add(head, tail, pred);
    assert(head.drop_last() =~= ps.take(j));
    assert(head.filter(pred) == ps.take(j).filter(pred).push(ps[j])) by {
        reveal(Seq::filter);
    }
    let tf = tail.filter(pred);
    assert forall|i: int| 0 <= i < tf.len() implies !assigns_key(#[trigger] tf[i], key) by {
        tail.lemma_filter_pred(pred, i);
        assert(tf.contains(tf[i]));
        tail.lemma_filter_contains_rev(pred, tf[i]);
        let k = choose|k: int| 0 <= k < tail.len() && tail[k] == tf[i];
        assert(ps[j + 1 + k] == tail[k]);
        if assigns_key(tf[i], key) {
            assert(assigns_key(ps[j + 1 + k], key));
        }
    }
    lemma_no_assignment(tf, key);
    let hf = head.filter(pred);
    assert(hf.drop_last() =~= ps.take(j).filter(pred));
    assert(profile_vars(hf) == profile_vars(ps.take(j).filter(pred)) + ps[j].vars@);
    lemma_last_assignment_add(profile_vars(ps.take(j).filter(pred)), ps[j].vars@, key);
    lemma_profile_vars_add(hf, tf);
    lemma_last_assignment_add(profile_vars(hf), profile_vars(tf), key);
}

proof fn lemma_resolved_below_decided(ps: Seq<Profile>, ctx: Context, key: Seq<char>, j: int, n: nat)
    requires
        0 <= j < ps.len(),
        profile_matches(ps[j], ctx),
        assigns_key(ps[j], key),
        overrides_all(ps, ctx, key, j),
        specificity(ps[j]) < n,
    ensures
        last_assignment(profile_vars(resolved_below(ps, ctx, n)), key) == last_assignment(
            ps[j].vars@,
            key,
        ),
    decreases n,
{
    let m = (n - 1) as nat;
    lemma_profile_vars_add(resolved_below(ps, ctx, m), profiles_at_level(ps, ctx, m));
    lemma_last_assignment_add(
        profile_vars(resolved_below(ps, ctx, m)),
        profile_vars(profiles_at_level(ps, ctx, m)),
        key,
    );
    if m == specificity(ps[j]) {
        lemma_own_level_decides(ps, ctx, key, j);
    } else {
        lemma_level_above_silent(ps, ctx, key, j, m);
        lemma_resolved_below_decided(ps, ctx, key, j, m);
    }
}

/// The value a variable ends with comes from the overlay that wins it: among the
/// matching profiles that assign the variable, the most specific one, and among
/// equally specific ones the last declared. That profile's own last assignment
/// of the variable is the merged value.
pub proof fn lemma_most_specific_overlay_wins(ps: Seq<Profile>, ctx: Context, key: Seq<char>, j: int)
    requires
        0 <= j < ps.len(),
        profile_matches(ps[j], ctx),
        assigns_key(ps[j], key),
        overrides_all(ps, ctx, key, j),
    ensures
        lookup(merged_profiles_env(resolved_profiles(ps, ctx)), key) == last_assignment(
            ps[j].vars@,
            key,
        ),
{
    lemma_merged_value_is_last_assignment(profile_vars(resolved_profiles(ps, ctx)), key);
    lemma_resolved_below_decided(ps, ctx, key, j, max_specificity() + 1);
}

} // verus!
