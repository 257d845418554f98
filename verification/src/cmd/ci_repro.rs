//! Reproducible builds under `--ci`.
//!
//! Under `--ci` every action carries a fixed set of variables and properties, so that two
//! runs on the same sources give the same bytes: the instant that archives are stamped
//! with, a time zone and a locale. What the user set explicitly always wins.

use vstd::prelude::*;
use vstd::string::*;

use crate::action_graph;
use crate::action_graph::ActionRequest;
use crate::calendar;
use crate::facts;
use crate::facts::Binding;
use crate::text;

verus! {

/// The variable that pins the instant.
pub const EPOCH_OVERRIDE_ENV: &'static str = "BARISTA_SOURCE_DATE_EPOCH";

/// The instant that is used where nothing else gives one: 2020-01-01T00:00:00Z.
pub const FIXED_SENTINEL_EPOCH: u64 = 1_577_836_800;

/// What `--ci` adds to every action.
#[derive(Debug)]
pub struct ReproducibilitySeed {
    /// The instant, as seconds since the Unix epoch.
    pub source_date_epoch: String,
    /// Where the instant came from.
    pub epoch_source: EpochSource,
    /// Environment variables.
    pub env: Vec<Binding>,
    /// System properties.
    pub system_properties: Vec<Binding>,
}

/// Where an instant came from.
#[derive(Debug, Clone, Copy, PartialEq, Eq, Structural)]
pub enum EpochSource {
    /// The environment variable.
    EnvOverride,
    /// The time of the last commit.
    GitHead,
    /// The fixed instant.
    FixedZero,
}

/// The seconds that a text writes, blanks around it aside.
pub open spec fn seconds_of(s: Seq<char>) -> Option<nat> {
    text::unsigned_value(text::trimmed(s), u64::MAX as nat)
}

/// The instant and its source: the variable where it writes a number, else the time of the
/// last commit, else the fixed instant.
pub open spec fn epoch_of(env: Option<Seq<char>>, git: Option<u64>) -> (nat, EpochSource) {
    if env is Some && seconds_of(env->0) is Some {
        (seconds_of(env->0)->0, EpochSource::EnvOverride)
    } else if git is Some {
        (git->0 as nat, EpochSource::GitHead)
    } else {
        (FIXED_SENTINEL_EPOCH as nat, EpochSource::FixedZero)
    }
}

/// The seconds that a text writes, blanks around it aside.
pub fn parse_unsigned_seconds(s: &str) -> (r: Option<u64>)
    ensures
        match r {
            Some(v) => seconds_of(s@) == Some(v as nat),
            None => seconds_of(s@) is None,
        },
{
    let trimmed = text::trim(s);
    text::parse_unsigned(trimmed.as_str(), u64::MAX)
}

/// The seconds that a text writes, or 0.
pub fn parse_epoch_seconds(s: &str) -> (r: u64)
    ensures
        r == (match seconds_of(s@) {
            Some(v) => v,
            None => 0,
        }),
{
    match parse_unsigned_seconds(s) {
        Some(v) => v,
        None => 0,
    }
}

/// How long `git` may take, in milliseconds, for its answer to count.
pub const GIT_LIMIT_MS: u64 = 100;

/// The time of the last commit, from what `git log -1 --pretty=%ct` printed, whether it
/// succeeded, and how long it took. A slow answer does not count.
pub fn git_head_time(success: bool, elapsed_ms: u64, stdout: &str) -> (r: Option<u64>)
    ensures
        match r {
            Some(v) => success && elapsed_ms < GIT_LIMIT_MS && seconds_of(text::trimmed(stdout@))
                == Some(v as nat),
            None => !success || elapsed_ms >= GIT_LIMIT_MS || seconds_of(text::trimmed(stdout@))
                is None,
        },
{
    if !success || elapsed_ms >= GIT_LIMIT_MS {
        return None;
    }
    let trimmed = text::trim(stdout);
    parse_unsigned_seconds(trimmed.as_str())
}

/// The instant and its source.
pub fn resolve_source_date_epoch(env: Option<&str>, git: Option<u64>) -> (r: (String, EpochSource))
    ensures
        ({
            let e = epoch_of(
                match env {
                    Some(s) => Some(s@),
                    None => None,
                },
                git,
            );
            r.0@ == text::dec(e.0) && r.1 == e.1
        }),
{
    if let Some(raw) = env {
        if let Some(parsed) = parse_unsigned_seconds(raw) {
            return (text::dec_u64(parsed), EpochSource::EnvOverride);
        }
    }
    if let Some(t) = git {
        return (text::dec_u64(t), EpochSource::GitHead);
    }
    (text::dec_u64(FIXED_SENTINEL_EPOCH), EpochSource::FixedZero)
}

/// The environment variables that `--ci` sets.
pub open spec fn seed_env(epoch: nat) -> Seq<(Seq<char>, Seq<char>)> {
    seq![("SOURCE_DATE_EPOCH"@, text::dec(epoch)), ("TZ"@, "UTC"@), ("LC_ALL"@, "C"@)]
}

/// Whether `s` is the seed for the instant `e` with the variables `env`.
pub open spec fn is_seed_with(
    s: ReproducibilitySeed,
    e: (nat, EpochSource),
    env: Seq<(Seq<char>, Seq<char>)>,
) -> bool {
    &&& s.source_date_epoch@ == text::dec(e.0)
    &&& s.epoch_source == e.1
    &&& facts::pairs(s.env@) == env
    &&& facts::pairs(s.system_properties@).len() == 1
    &&& facts::pairs(s.system_properties@)[0].0 == "project.build.outputTimestamp"@
    &&& calendar::writes_instant(facts::pairs(s.system_properties@)[0].1, e.0, "Z"@)
}

/// Whether `s` is the seed for the instant `e`.
pub open spec fn is_seed(s: ReproducibilitySeed, e: (nat, EpochSource)) -> bool {
    is_seed_with(s, e, seed_env(e.0))
}

/// The instant that the environment `vars` and the last commit give.
pub open spec fn epoch_in(vars: Seq<(Seq<char>, Seq<char>)>, git_head: Option<u64>) -> (
    nat,
    EpochSource,
) {
    epoch_of(facts::bound(vars, EPOCH_OVERRIDE_ENV@), git_head)
}

/// Whether `s` is the seed that a command sends to the daemon: without the variables that the
/// user's environment `vars` sets itself.
pub open spec fn is_sent_seed(
    s: ReproducibilitySeed,
    vars: Seq<(Seq<char>, Seq<char>)>,
    git_head: Option<u64>,
) -> bool {
    let e = epoch_in(vars, git_head);
    is_seed_with(s, e, unset_pairs(seed_env(e.0), vars))
}

/// The seed that a command sends to the daemon. A variable that the user sets is left alone.
pub fn sent_seed(vars: &Vec<Binding>, git_head: Option<u64>) -> (r: ReproducibilitySeed)
    ensures
        is_sent_seed(r, facts::pairs(vars@), git_head),
{
    let whole = build_seed(vars, git_head);
    let env = unset_bindings(&whole.env, vars);
    ReproducibilitySeed {
        source_date_epoch: whole.source_date_epoch,
        epoch_source: whole.epoch_source,
        env,
        system_properties: whole.system_properties,
    }
}

/// Builds what `--ci` adds to every action. `vars` is the calling environment, `git_head`
/// the time of the project's last commit.
pub fn build_seed(vars: &Vec<Binding>, git_head: Option<u64>) -> (r: ReproducibilitySeed)
    ensures
        is_seed(
            r,
            epoch_of(facts::bound(facts::pairs(vars@), EPOCH_OVERRIDE_ENV@), git_head),
        ),
{
    let env_override = match facts::lookup(vars, EPOCH_OVERRIDE_ENV) {
        Some(s) => Some(s.as_str()),
        None => None,
    };
    let (source_date_epoch, epoch_source) = resolve_source_date_epoch(env_override, git_head);
    let ghost e = epoch_of(facts::bound(facts::pairs(vars@), EPOCH_OVERRIDE_ENV@), git_head);
    let mut env: Vec<Binding> = Vec::new();
    env.push(
        Binding { key: "SOURCE_DATE_EPOCH".to_owned(), value: source_date_epoch.clone() },
    );
    env.push(Binding { key: "TZ".to_owned(), value: "UTC".to_owned() });
    env.push(Binding { key: "LC_ALL".to_owned(), value: "C".to_owned() });
    assert(facts::pairs(env@) =~= seed_env(e.0));
    proof {
        text::printed_number_reads_back(e.0);
        assert(e.0 <= u64::MAX);
    }
    let seconds: u64 = parse_epoch_seconds(source_date_epoch.as_str());
    assert(seconds == e.0);
    let iso = calendar::format_iso8601_utc(seconds);
    let mut system_properties: Vec<Binding> = Vec::new();
    system_properties.push(
        Binding { key: "project.build.outputTimestamp".to_owned(), value: iso },
    );
    ReproducibilitySeed { source_date_epoch, epoch_source, env, system_properties }
}

/// The value of `k` after `from` was merged into `into`: what was there stays.
pub open spec fn merged(
    into: Seq<(Seq<char>, Seq<char>)>,
    from: Seq<(Seq<char>, Seq<char>)>,
    k: Seq<char>,
) -> Option<Seq<char>> {
    match facts::bound(into, k) {
        Some(v) => Some(v),
        None => facts::bound(from, k),
    }
}

/// Adds the bindings of `from` whose keys are not bound yet.
fn merge(into: &mut Vec<Binding>, from: &Vec<Binding>)
    ensures
        forall|k: Seq<char>| #[trigger]
            facts::bound(facts::pairs(final(into)@), k) == merged(
                facts::pairs(old(into)@),
                facts::pairs(from@),
                k,
            ),
        facts::pairs(old(into)@).is_prefix_of(facts::pairs(final(into)@)),
{
    let ghost start = facts::pairs(into@);
    let ghost all = facts::pairs(from@);
    let mut i: usize = 0;
    assert(all.take(0) =~= Seq::empty());
    while i < from.len()
        invariant
            i <= from@.len(),
            all == facts::pairs(from@),
            forall|k: Seq<char>| #[trigger]
                facts::bound(facts::pairs(into@), k) == merged(start, all.take(i as int), k),
            start.is_prefix_of(facts::pairs(into@)),
        decreases from@.len() - i,
    {
        let ghost before = facts::pairs(into@);
        let ghost key = from@[i as int].key@;
        let ghost value = from@[i as int].value@;
        proof {
            assert(all.take(i + 1) =~= all.take(i as int).push((key, value)));
            assert forall|k: Seq<char>| #[trigger]
                merged(start, all.take(i + 1), k) == match merged(start, all.take(i as int), k) {
                    Some(v) => Some(v),
                    None => if k == key {
                        Some(value)
                    } else {
                        None
                    },
                } by {
                facts::bound_after_push(all.take(i as int), key, value, k);
            }
        }
        let taken = facts::lookup(into, from[i].key.as_str()).is_some();
        if !taken {
            into.push(Binding { key: from[i].key.clone(), value: from[i].value.clone() });
            proof {
                assert(facts::pairs(into@) =~= before.push((key, value)));
                assert forall|k: Seq<char>| #[trigger]
                    facts::bound(facts::pairs(into@), k) == merged(start, all.take(i + 1), k) by {
                    facts::bound_after_push(before, key, value, k);
                }
            }
        } else {
            proof {
                assert forall|k: Seq<char>| #[trigger]
                    facts::bound(facts::pairs(into@), k) == merged(start, all.take(i + 1), k) by {
                    assert(facts::bound(before, key) is Some);
                }
            }
        }
        i = i + 1;
    }
    assert(all.take(from@.len() as int) =~= all);
}

/// Whether an argument names the property `k`, alone or with a value.
pub open spec fn names_property(a: Seq<char>, k: Seq<char>) -> bool {
    a == k || (k + "="@).is_prefix_of(a)
}

/// Whether the argument at `i` defines the property `k`: `-Dk`, `-Dk=..`, or `-D` or
/// `--define` in front of it.
pub open spec fn defines_at(args: Seq<Seq<char>>, k: Seq<char>, i: int) -> bool {
    ||| "-D"@.is_prefix_of(args[i]) && names_property(args[i].skip(2), k)
    ||| (args[i] == "-D"@ || args[i] == "--define"@) && i + 1 < args.len() && names_property(
        args[i + 1],
        k,
    )
}

/// Whether the user's arguments define the property `k`.
pub open spec fn defines(args: Seq<Seq<char>>, k: Seq<char>) -> bool {
    exists|i: int| 0 <= i < args.len() && defines_at(args, k, i)
}

fn named(a: &str, k: &str) -> (r: bool)
    ensures
        r == names_property(a@, k@),
{
    text::same_text(a, k) || text::starts_with(a, text::two(k, "=").as_str())
}

/// Whether the user's arguments define the property `k`.
fn user_defines(args: &Vec<String>, k: &str) -> (r: bool)
    ensures
        r == defines(text::texts(args@), k@),
{
    let ghost all = text::texts(args@);
    let mut i: usize = 0;
    proof {
        reveal_strlit("-D");
    }
    while i < args.len()
        invariant
            i <= args@.len(),
            all == text::texts(args@),
            "-D"@.len() == 2,
            forall|j: int| 0 <= j < i ==> !defines_at(all, k@, j),
        decreases args@.len() - i,
    {
        let a = args[i].as_str();
        assert(all[i as int] == a@);
        let attached = match text::strip_prefix(a, "-D") {
            Some(rest) => named(rest.as_str(), k),
            None => false,
        };
        let separate = (text::same_text(a, "-D") || text::same_text(a, "--define")) && i + 1
            < args.len() && named(args[i + 1].as_str(), k);
        if attached || separate {
            assert(defines_at(all, k@, i as int));
            return true;
        }
        assert(!defines_at(all, k@, i as int));
        i = i + 1;
    }
    false
}

/// The value of the property `k` that a seed gives: none where the user's arguments define
/// it.
pub open spec fn unclaimed(
    from: Seq<(Seq<char>, Seq<char>)>,
    args: Seq<Seq<char>>,
    k: Seq<char>,
) -> Option<Seq<char>> {
    if defines(args, k) {
        None
    } else {
        facts::bound(from, k)
    }
}

/// The bindings that the user's arguments do not define, in their order.
pub open spec fn unclaimed_pairs(
    from: Seq<(Seq<char>, Seq<char>)>,
    args: Seq<Seq<char>>,
) -> Seq<(Seq<char>, Seq<char>)>
    decreases from.len(),
{
    if from.len() == 0 {
        Seq::empty()
    } else if defines(args, from.last().0) {
        unclaimed_pairs(from.drop_last(), args)
    } else {
        unclaimed_pairs(from.drop_last(), args).push(from.last())
    }
}

/// The bindings that the user's arguments do not define.
pub fn unclaimed_bindings(from: &Vec<Binding>, args: &Vec<String>) -> (r: Vec<Binding>)
    ensures
        facts::pairs(r@) == unclaimed_pairs(facts::pairs(from@), text::texts(args@)),
        forall|k: Seq<char>| #[trigger]
            facts::bound(facts::pairs(r@), k) == unclaimed(
                facts::pairs(from@),
                text::texts(args@),
                k,
            ),
{
    let ghost all = facts::pairs(from@);
    let ghost user = text::texts(args@);
    let mut out: Vec<Binding> = Vec::new();
    let mut i: usize = 0;
    assert(all.take(0) =~= Seq::empty());
    assert(facts::pairs(out@) =~= Seq::empty());
    while i < from.len()
        invariant
            i <= from@.len(),
            all == facts::pairs(from@),
            user == text::texts(args@),
            facts::pairs(out@) == unclaimed_pairs(all.take(i as int), user),
            forall|k: Seq<char>| #[trigger]
                facts::bound(facts::pairs(out@), k) == unclaimed(all.take(i as int), user, k),
        decreases from@.len() - i,
    {
        let ghost before = facts::pairs(out@);
        let ghost key = from@[i as int].key@;
        let ghost value = from@[i as int].value@;
        let taken = user_defines(args, from[i].key.as_str());
        proof {
            assert(all.take(i + 1) =~= all.take(i as int).push((key, value)));
            assert(all.take(i + 1).drop_last() =~= all.take(i as int));
        }
        if !taken {
            out.push(Binding { key: from[i].key.clone(), value: from[i].value.clone() });
            assert(facts::pairs(out@) =~= before.push((key, value)));
        }
        proof {
            assert forall|k: Seq<char>| #[trigger]
                facts::bound(facts::pairs(out@), k) == unclaimed(all.take(i + 1), user, k) by {
                facts::bound_after_push(all.take(i as int), key, value, k);
                facts::bound_after_push(before, key, value, k);
                assert(facts::bound(before, k) == unclaimed(all.take(i as int), user, k));
            }
        }
        i = i + 1;
    }
    assert(all.take(from@.len() as int) =~= all);
    out
}

/// The bindings whose keys `vars` does not bind, in their order.
pub open spec fn unset_pairs(
    from: Seq<(Seq<char>, Seq<char>)>,
    vars: Seq<(Seq<char>, Seq<char>)>,
) -> Seq<(Seq<char>, Seq<char>)>
    decreases from.len(),
{
    if from.len() == 0 {
        Seq::empty()
    } else if facts::bound(vars, from.last().0) is Some {
        unset_pairs(from.drop_last(), vars)
    } else {
        unset_pairs(from.drop_last(), vars).push(from.last())
    }
}

/// The bindings whose keys `vars` does not bind.
pub fn unset_bindings(from: &Vec<Binding>, vars: &Vec<Binding>) -> (r: Vec<Binding>)
    ensures
        facts::pairs(r@) == unset_pairs(facts::pairs(from@), facts::pairs(vars@)),
{
    let ghost all = facts::pairs(from@);
    let mut out: Vec<Binding> = Vec::new();
    let mut i: usize = 0;
    assert(all.take(0) =~= Seq::empty());
    assert(facts::pairs(out@) =~= Seq::empty());
    while i < from.len()
        invariant
            i <= from@.len(),
            all == facts::pairs(from@),
            facts::pairs(out@) == unset_pairs(all.take(i as int), facts::pairs(vars@)),
        decreases from@.len() - i,
    {
        let ghost before = facts::pairs(out@);
        let ghost pair = all[i as int];
        proof {
            assert(all.take(i + 1).drop_last() =~= all.take(i as int));
            assert(all.take(i + 1).last() == pair);
        }
        if facts::lookup(vars, from[i].key.as_str()).is_none() {
            out.push(Binding { key: from[i].key.clone(), value: from[i].value.clone() });
            assert(facts::pairs(out@) =~= before.push(pair));
        }
        i = i + 1;
    }
    assert(all.take(from@.len() as int) =~= all);
    out
}

/// Whether `after` is the request `before` with a seed applied: variables, properties and
/// the compatibility level that are not set yet are set, everything else stays. A property
/// that the user's arguments define counts as set.
pub open spec fn is_seeded(
    before: action_graph::RequestModel,
    after: action_graph::RequestModel,
    seed: ReproducibilitySeed,
) -> bool {
    &&& forall|k: Seq<char>| #[trigger]
        facts::bound(after.environment, k) == merged(before.environment, facts::pairs(seed.env@), k)
    &&& forall|k: Seq<char>| #[trigger]
        facts::bound(after.system_properties, k) == (match facts::bound(
            before.system_properties,
            k,
        ) {
            Some(v) => Some(v),
            None => unclaimed(facts::pairs(seed.system_properties@), before.arguments, k),
        })
    &&& after == action_graph::RequestModel {
        environment: after.environment,
        system_properties: after.system_properties,
        maven_compat: if before.maven_compat.len() == 0 {
            "4"@
        } else {
            before.maven_compat
        },
        ..before
    }
}

/// Applies a seed to a request. What the request already sets is kept.
pub fn apply_to_request(request: &mut ActionRequest, seed: &ReproducibilitySeed)
    ensures
        is_seeded(old(request)@, final(request)@, *seed),
{
    merge(&mut request.environment, &seed.env);
    let properties = unclaimed_bindings(&seed.system_properties, &request.arguments);
    merge(&mut request.system_properties, &properties);
    if request.maven_compat.as_str().is_empty() {
        request.maven_compat = "4".to_owned();
    }
}

// ---------------------------------------------------------------------------
// Laws
// ---------------------------------------------------------------------------

/// A seed never overwrites what the user set.
pub proof fn seed_never_clobbers(
    before: action_graph::RequestModel,
    after: action_graph::RequestModel,
    seed: ReproducibilitySeed,
    k: Seq<char>,
)
    requires
        is_seeded(before, after, seed),
    ensures
        facts::bound(before.environment, k) is Some ==> facts::bound(after.environment, k)
            == facts::bound(before.environment, k),
        facts::bound(before.system_properties, k) is Some ==> facts::bound(
            after.system_properties,
            k,
        ) == facts::bound(before.system_properties, k),
        before.maven_compat.len() > 0 ==> after.maven_compat == before.maven_compat,
        defines(before.arguments, k) ==> facts::bound(after.system_properties, k) == facts::bound(
            before.system_properties,
            k,
        ),
        after.arguments == before.arguments,
{
}

/// Applying a seed a second time changes no value.
pub proof fn seeding_is_idempotent(
    first: action_graph::RequestModel,
    second: action_graph::RequestModel,
    third: action_graph::RequestModel,
    seed: ReproducibilitySeed,
    k: Seq<char>,
)
    requires
        is_seeded(first, second, seed),
        is_seeded(second, third, seed),
    ensures
        facts::bound(third.environment, k) == facts::bound(second.environment, k),
        facts::bound(third.system_properties, k) == facts::bound(second.system_properties, k),
        third.maven_compat == second.maven_compat,
{
    reveal_strlit("4");
}

/// Every action of a run sees the same instant, time zone and locale wherever the user
/// left them unset, whatever the action is.
pub proof fn seeded_actions_agree(
    a: action_graph::RequestModel,
    a2: action_graph::RequestModel,
    b: action_graph::RequestModel,
    b2: action_graph::RequestModel,
    seed: ReproducibilitySeed,
    k: Seq<char>,
)
    requires
        is_seeded(a, a2, seed),
        is_seeded(b, b2, seed),
        facts::bound(a.environment, k) is None,
        facts::bound(b.environment, k) is None,
    ensures
        facts::bound(a2.environment, k) == facts::bound(b2.environment, k),
{
}

/// The instant comes from the variable, else from the last commit, else it is the fixed
/// one; a variable that writes no number is ignored.
pub proof fn epoch_precedence(env: Seq<char>, git: u64)
    ensures
        seconds_of(env) is Some ==> epoch_of(Some(env), Some(git)) == (
            seconds_of(env)->0,
            EpochSource::EnvOverride,
        ),
        seconds_of(env) is None ==> epoch_of(Some(env), Some(git)) == epoch_of(None, Some(git)),
        epoch_of(None, Some(git)) == (git as nat, EpochSource::GitHead),
        epoch_of(None, None) == (FIXED_SENTINEL_EPOCH as nat, EpochSource::FixedZero),
{
}

/// A variable that the user sets is not in what is sent to the daemon, whatever its value,
/// and every other one of the seed is.
pub proof fn set_variables_are_left_alone(
    s: ReproducibilitySeed,
    vars: Seq<(Seq<char>, Seq<char>)>,
    git_head: Option<u64>,
    k: Seq<char>,
)
    requires
        is_sent_seed(s, vars, git_head),
    ensures
        facts::bound(vars, k) is Some ==> facts::bound(facts::pairs(s.env@), k) is None,
        facts::bound(vars, k) is None ==> facts::bound(facts::pairs(s.env@), k) == facts::bound(
            seed_env(epoch_in(vars, git_head).0),
            k,
        ),
{
    unset_pairs_bind(seed_env(epoch_in(vars, git_head).0), vars, k);
}

proof fn unset_pairs_bind(
    from: Seq<(Seq<char>, Seq<char>)>,
    vars: Seq<(Seq<char>, Seq<char>)>,
    k: Seq<char>,
)
    ensures
        facts::bound(unset_pairs(from, vars), k) == (if facts::bound(vars, k) is Some {
            None
        } else {
            facts::bound(from, k)
        }),
    decreases from.len(),
{
    if from.len() > 0 {
        let rest = from.drop_last();
        let (key, value) = from.last();
        unset_pairs_bind(rest, vars, k);
        assert(from =~= rest.push((key, value)));
        facts::bound_after_push(rest, key, value, k);
        facts::bound_after_push(unset_pairs(rest, vars), key, value, k);
    }
}

/// What is sent to the daemon sets the instant, the time zone and the language, each unless the
/// user set it, and nothing else.
pub proof fn seed_sets_instant_zone_and_language(
    s: ReproducibilitySeed,
    vars: Seq<(Seq<char>, Seq<char>)>,
    git_head: Option<u64>,
    k: Seq<char>,
)
    requires
        is_sent_seed(s, vars, git_head),
    ensures
        facts::bound(vars, "TZ"@) is None ==> facts::bound(facts::pairs(s.env@), "TZ"@) == Some("UTC"@),
        facts::bound(vars, "LC_ALL"@) is None ==> facts::bound(facts::pairs(s.env@), "LC_ALL"@)
            == Some("C"@),
        facts::bound(vars, "SOURCE_DATE_EPOCH"@) is None ==> facts::bound(
            facts::pairs(s.env@),
            "SOURCE_DATE_EPOCH"@,
        ) == Some(s.source_date_epoch@),
        k != "TZ"@ && k != "LC_ALL"@ && k != "SOURCE_DATE_EPOCH"@ ==> facts::bound(
            facts::pairs(s.env@),
            k,
        ) is None,
        facts::bound(
            facts::pairs(s.system_properties@),
            "project.build.outputTimestamp"@,
        ) is Some,
        k != "project.build.outputTimestamp"@ ==> facts::bound(
            facts::pairs(s.system_properties@),
            k,
        ) is None,
{
    reveal_strlit("TZ");
    reveal_strlit("LC_ALL");
    reveal_strlit("SOURCE_DATE_EPOCH");
    assert("TZ"@.len() == 2 && "LC_ALL"@.len() == 6 && "SOURCE_DATE_EPOCH"@.len() == 17);
    reveal_with_fuel(facts::bound, 4);
    let env = seed_env(epoch_in(vars, git_head).0);
    assert(env.drop_first()[0] == env[1]);
    assert(env.drop_first().drop_first()[0] == env[2]);
    assert(env.drop_first().drop_first().drop_first() =~= Seq::empty());
    set_variables_are_left_alone(s, vars, git_head, "TZ"@);
    set_variables_are_left_alone(s, vars, git_head, "LC_ALL"@);
    set_variables_are_left_alone(s, vars, git_head, "SOURCE_DATE_EPOCH"@);
    set_variables_are_left_alone(s, vars, git_head, k);
    let ps = facts::pairs(s.system_properties@);
    assert(ps.drop_first() =~= Seq::empty());
}

/// The instant is the one that the user pinned, where that is a number, else that of the last
/// commit, else the first second of 2020; the seed says where it came from, and both of its
/// forms are that instant.
pub proof fn seed_has_the_pinned_instant(
    s: ReproducibilitySeed,
    vars: Seq<(Seq<char>, Seq<char>)>,
    git_head: Option<u64>,
)
    requires
        is_sent_seed(s, vars, git_head),
    ensures
        ({
            let pinned = facts::bound(vars, "BARISTA_SOURCE_DATE_EPOCH"@);
            let instant = text::digits_value(s.source_date_epoch@);
            &&& pinned matches Some(t) ==> (text::unsigned_value(
                text::trimmed(t),
                0xffff_ffff_ffff_ffff,
            ) matches Some(n) ==> instant == n && s.epoch_source == EpochSource::EnvOverride)
            &&& (pinned matches Some(t) ==> text::unsigned_value(
                text::trimmed(t),
                0xffff_ffff_ffff_ffff,
            ) is None) ==> {
                &&& git_head matches Some(n) ==> instant == n && s.epoch_source
                    == EpochSource::GitHead
                &&& git_head is None ==> instant == 1_577_836_800 && s.epoch_source
                    == EpochSource::FixedZero
            }
            &&& calendar::writes_instant(
                facts::pairs(s.system_properties@)[0].1,
                instant,
                "Z"@,
            )
        }),
{
    let e = epoch_in(vars, git_head);
    text::printed_number_reads_back(e.0);
}

/// What a request leaves open is filled in from the seed: every variable, and every property
/// that the user's arguments do not define. Where a request names no Maven level, it is the
/// fourth.
pub proof fn open_values_come_from_the_seed(
    before: action_graph::RequestModel,
    after: action_graph::RequestModel,
    seed: ReproducibilitySeed,
    k: Seq<char>,
)
    requires
        is_seeded(before, after, seed),
    ensures
        facts::bound(before.environment, k) is None ==> facts::bound(after.environment, k)
            == facts::bound(facts::pairs(seed.env@), k),
        facts::bound(before.system_properties, k) is None && !defines(before.arguments, k)
            ==> facts::bound(after.system_properties, k) == facts::bound(
            facts::pairs(seed.system_properties@),
            k,
        ),
        before.maven_compat.len() == 0 ==> after.maven_compat == "4"@,
        after.mojo_coords == before.mojo_coords,
        after.credentials == before.credentials,
        after.project_root == before.project_root,
        after.pom_path == before.pom_path,
        after.working_directory == before.working_directory,
        after.action_id == before.action_id,
{
}

/// The user's arguments define a property with `-D`, joined to it or before it, or with
/// `--define` before it, with a value or without; nothing else defines one.
pub proof fn properties_are_defined_by_their_flags(
    args: Seq<Seq<char>>,
    k: Seq<char>,
    v: Seq<char>,
    i: int,
)
    requires
        0 <= i < args.len(),
    ensures
        args[i] == "-D"@ + k || args[i] == "-D"@ + k + "="@ + v ==> defines(args, k),
        i + 1 < args.len() && (args[i] == "-D"@ || args[i] == "--define"@) && (args[i + 1] == k
            || args[i + 1] == k + "="@ + v) ==> defines(args, k),
        (forall|j: int|
            0 <= j < args.len() ==> !"-D"@.is_prefix_of(#[trigger] args[j]) && args[j]
                != "--define"@) ==> !defines(args, k),
{
    reveal_strlit("-D");
    let with_value = "-D"@ + k + "="@ + v;
    assert(("-D"@ + k).skip(2) =~= k);
    assert(with_value.skip(2) =~= k + "="@ + v);
    assert("-D"@ =~= ("-D"@ + k).subrange(0, 2));
    assert("-D"@ =~= with_value.subrange(0, 2));
    assert("-D"@ =~= "-D"@.subrange(0, 2));
    let n = (k + "="@).len() as int;
    assert(k + "="@ =~= (k + "="@ + v).subrange(0, n));
    if args[i] == "-D"@ + k || args[i] == with_value {
        assert("-D"@.is_prefix_of(args[i]));
        assert(defines_at(args, k, i));
    }
    if i + 1 < args.len() && (args[i] == "-D"@ || args[i] == "--define"@) && (args[i + 1] == k
        || args[i + 1] == k + "="@ + v) {
        assert(names_property(args[i + 1], k));
        assert(defines_at(args, k, i));
    }
}

/// Of the properties of a seed exactly those are added that the user does not define.
pub proof fn only_undefined_properties_are_added(
    from: Seq<(Seq<char>, Seq<char>)>,
    args: Seq<Seq<char>>,
    p: (Seq<char>, Seq<char>),
)
    ensures
        unclaimed_pairs(from, args).contains(p) <==> from.contains(p) && !defines(args, p.0),
    decreases from.len(),
{
    if from.len() > 0 {
        let rest = from.drop_last();
        let last = from.last();
        let kept = unclaimed_pairs(rest, args);
        only_undefined_properties_are_added(rest, args, p);
        if from.contains(p) && p != last {
            let k = choose|k: int| 0 <= k < from.len() && from[k] == p;
            assert(rest[k] == p);
        }
        if rest.contains(p) {
            let k = choose|k: int| 0 <= k < rest.len() && rest[k] == p;
            assert(from[k] == p);
        }
        assert(from[from.len() - 1] == last);
        if !defines(args, last.0) {
            let all = kept.push(last);
            assert(all[kept.len() as int] == last);
            if kept.contains(p) {
                let k = choose|k: int| 0 <= k < kept.len() && kept[k] == p;
                assert(all[k] == p);
            }
            if all.contains(p) && p != last {
                let k = choose|k: int| 0 <= k < all.len() && all[k] == p;
                assert(kept[k] == p);
            }
        }
    }
}

/// Of the variables of a seed exactly those are set that the environment does not set.
pub proof fn only_unset_variables_are_set(
    from: Seq<(Seq<char>, Seq<char>)>,
    vars: Seq<(Seq<char>, Seq<char>)>,
    p: (Seq<char>, Seq<char>),
)
    ensures
        unset_pairs(from, vars).contains(p) <==> from.contains(p) && facts::bound(vars, p.0)
            is None,
    decreases from.len(),
{
    if from.len() > 0 {
        let rest = from.drop_last();
        let last = from.last();
        let kept = unset_pairs(rest, vars);
        only_unset_variables_are_set(rest, vars, p);
        if from.contains(p) && p != last {
            let k = choose|k: int| 0 <= k < from.len() && from[k] == p;
            assert(rest[k] == p);
        }
        if rest.contains(p) {
            let k = choose|k: int| 0 <= k < rest.len() && rest[k] == p;
            assert(from[k] == p);
        }
        assert(from[from.len() - 1] == last);
        if facts::bound(vars, last.0) is None {
            let all = kept.push(last);
            assert(all[kept.len() as int] == last);
            if kept.contains(p) {
                let k = choose|k: int| 0 <= k < kept.len() && kept[k] == p;
                assert(all[k] == p);
            }
            if all.contains(p) && p != last {
                let k = choose|k: int| 0 <= k < all.len() && all[k] == p;
                assert(kept[k] == p);
            }
        }
    }
}

} // verus!
