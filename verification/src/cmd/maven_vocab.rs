//! The Maven lifecycle commands: `clean`, `compile`, `test`, `package`, `verify`,
//! `install`, `deploy`, `site`.

use vstd::prelude::*;
use vstd::string::*;

use crate::cli::{GlobalFlags, MavenVocabArgs};
use crate::text;

verus! {

/// The lifecycle phases that have a command of their own.
#[derive(Debug, Clone, Copy, PartialEq, Eq, Structural)]
pub enum MavenPhase {
    /// Delete the build output.
    Clean,
    /// Compile the main sources.
    Compile,
    /// Run the unit tests.
    Test,
    /// Assemble the artifact.
    Package,
    /// Run the integration tests and checks.
    Verify,
    /// Install the artifact into the local repository.
    Install,
    /// Publish the artifact.
    Deploy,
    /// Generate the project site.
    Site,
}

/// The name of a phase.
pub open spec fn phase_name(p: MavenPhase) -> Seq<char> {
    match p {
        MavenPhase::Clean => "clean"@,
        MavenPhase::Compile => "compile"@,
        MavenPhase::Test => "test"@,
        MavenPhase::Package => "package"@,
        MavenPhase::Verify => "verify"@,
        MavenPhase::Install => "install"@,
        MavenPhase::Deploy => "deploy"@,
        MavenPhase::Site => "site"@,
    }
}

/// The eight names are different.
pub proof fn phase_names_differ(a: MavenPhase, b: MavenPhase)
    requires
        phase_name(a) == phase_name(b),
    ensures
        a == b,
{
    reveal_strlit("clean");
    reveal_strlit("compile");
    reveal_strlit("test");
    reveal_strlit("package");
    reveal_strlit("verify");
    reveal_strlit("install");
    reveal_strlit("deploy");
    reveal_strlit("site");
    let x = phase_name(a);
    let y = phase_name(b);
    assert(x.len() == y.len());
    assert(x[0] == y[0]);
    assert(x[1] == y[1]);
    assert(x[2] == y[2]);
}

impl MavenPhase {
    /// The name of the phase as Maven writes it.
    pub fn as_str(&self) -> (r: &'static str)
        ensures
            r@ == phase_name(*self),
    {
        match self {
            MavenPhase::Clean => "clean",
            MavenPhase::Compile => "compile",
            MavenPhase::Test => "test",
            MavenPhase::Package => "package",
            MavenPhase::Verify => "verify",
            MavenPhase::Install => "install",
            MavenPhase::Deploy => "deploy",
            MavenPhase::Site => "site",
        }
    }

    /// The phase of that name, if there is one.
    pub fn from_phase_name(s: &str) -> (r: Option<MavenPhase>)
        ensures
            match r {
                Some(p) => phase_name(p) == s@,
                None => forall|p: MavenPhase| #[trigger] phase_name(p) != s@,
            },
    {
        if text::same_text(s, "clean") {
            Some(MavenPhase::Clean)
        } else if text::same_text(s, "compile") {
            Some(MavenPhase::Compile)
        } else if text::same_text(s, "test") {
            Some(MavenPhase::Test)
        } else if text::same_text(s, "package") {
            Some(MavenPhase::Package)
        } else if text::same_text(s, "verify") {
            Some(MavenPhase::Verify)
        } else if text::same_text(s, "install") {
            Some(MavenPhase::Install)
        } else if text::same_text(s, "deploy") {
            Some(MavenPhase::Deploy)
        } else if text::same_text(s, "site") {
            Some(MavenPhase::Site)
        } else {
            None
        }
    }
}

/// Who runs a lifecycle command.
#[derive(Debug, Clone, Copy, PartialEq, Eq, Structural)]
pub enum LifecycleRunner {
    /// A forked `mvn`.
    ForkedMaven,
    /// The daemon.
    Daemon,
}

/// Who runs a lifecycle command: `--no-daemon` always forks `mvn`.
pub fn runner(global: &GlobalFlags) -> (r: LifecycleRunner)
    ensures
        r == (if global.no_daemon {
            LifecycleRunner::ForkedMaven
        } else {
            LifecycleRunner::Daemon
        }),
{
    if global.no_daemon {
        LifecycleRunner::ForkedMaven
    } else {
        LifecycleRunner::Daemon
    }
}

/// `s` between backticks.
pub open spec fn backticked(s: Seq<char>) -> Seq<char> {
    "`"@ + s + "`"@
}

/// The passed-through arguments for the `args:` line.
pub open spec fn args_line(args: Seq<Seq<char>>) -> Seq<char> {
    if args.len() == 0 {
        "(none)"@
    } else {
        text::joined(args.map_values(|a: Seq<char>| backticked(a)), " "@)
    }
}

/// The passed-through arguments, each between backticks so that white space shows.
pub fn args_summary(args: &Vec<String>) -> (r: String)
    ensures
        r@ == args_line(text::texts(args@)),
{
    if args.len() == 0 {
        return "(none)".to_owned();
    }
    let mut parts: Vec<String> = Vec::new();
    let mut i: usize = 0;
    while i < args.len()
        invariant
            i <= args@.len(),
            parts@.len() == i,
            forall|k: int| 0 <= k < i ==> #[trigger] parts@[k]@ == backticked(args@[k]@),
        decreases args@.len() - i,
    {
        let mut part = "`".to_owned();
        part.append(args[i].as_str());
        part.append("`");
        parts.push(part);
        i = i + 1;
    }
    assert(text::texts(parts@) =~= text::texts(args@).map_values(|a: Seq<char>| backticked(a)));
    text::join(&parts, " ")
}

/// The notice that a phase cannot be executed, for the project `root`.
pub open spec fn notice(phase: MavenPhase, args: Seq<Seq<char>>, root: Option<Seq<char>>) -> Seq<
    char,
> {
    let name = phase_name(phase);
    "barista: `"@ + name + "` is not yet executable.\n\n"@ + (match root {
        Some(r) => "project: "@ + r + "\n"@,
        None => "project: (no pom.xml found; see --help)\n"@,
    }) + "phase:   "@ + name + "\nargs:    "@ + args_line(args)
        + "\n\nThe Maven-vocabulary lifecycle phases (clean / compile / test /\npackage / verify / install / deploy / site) are drop-in synonyms\nfor `mvn <phase>`. Execution wires through the barback daemon,\nwhich lands in a subsequent milestone.\n\nFor now you can:\n  - Run `mvn "@
        + name + (if args.len() == 0 {
        Seq::empty()
    } else {
        " "@ + text::joined(args, " "@)
    })
        + "` in this project. Output\n    will be identical until barista's barback path differs.\n  - Run `barista pull --no-fetch` to inspect what barista would\n    resolve before lifecycle execution.\n  - Run `barista grind tree` to view the resolved dependency\n    graph as recorded in `barista.lock`.\n"@
}

/// Renders the notice that a phase cannot be executed. `root` is the resolved project
/// root, where there is one.
pub fn render(phase: MavenPhase, args: &MavenVocabArgs, root: Option<&str>) -> (r: String)
    ensures
        r@ == notice(
            phase,
            text::texts(args.args@),
            match root {
                Some(s) => Some(s@),
                None => None,
            },
        ),
{
    let mut project = String::new();
    match root {
        Some(s) => {
            project.append("project: ");
            project.append(s);
            project.append("\n");
            assert(project@ =~= "project: "@ + s@ + "\n"@);
        },
        None => {
            project.append("project: (no pom.xml found; see --help)\n");
            assert(project@ =~= "project: (no pom.xml found; see --help)\n"@);
        },
    }
    let mut suffix = String::new();
    if args.args.len() > 0 {
        suffix.append(" ");
        suffix.append(text::join(&args.args, " ").as_str());
        assert(suffix@ =~= " "@ + text::joined(text::texts(args.args@), " "@));
    }
    let name = phase.as_str();
    let mut out = "barista: `".to_owned();
    out.append(name);
    out.append("` is not yet executable.\n\n");
    out.append(project.as_str());
    out.append("phase:   ");
    out.append(name);
    out.append("\nargs:    ");
    out.append(args_summary(&args.args).as_str());
    out.append(
        "\n\nThe Maven-vocabulary lifecycle phases (clean / compile / test /\npackage / verify / install / deploy / site) are drop-in synonyms\nfor `mvn <phase>`. Execution wires through the barback daemon,\nwhich lands in a subsequent milestone.\n\nFor now you can:\n  - Run `mvn ",
    );
    out.append(name);
    out.append(suffix.as_str());
    out.append(
        "` in this project. Output\n    will be identical until barista's barback path differs.\n  - Run `barista pull --no-fetch` to inspect what barista would\n    resolve before lifecycle execution.\n  - Run `barista grind tree` to view the resolved dependency\n    graph as recorded in `barista.lock`.\n",
    );
    out
}

/// The phases are named as Maven names them.
pub proof fn phases_have_their_maven_names(p: MavenPhase)
    ensures
        p == MavenPhase::Clean <==> phase_name(p) == "clean"@,
        p == MavenPhase::Compile <==> phase_name(p) == "compile"@,
        p == MavenPhase::Test <==> phase_name(p) == "test"@,
        p == MavenPhase::Package <==> phase_name(p) == "package"@,
        p == MavenPhase::Verify <==> phase_name(p) == "verify"@,
        p == MavenPhase::Install <==> phase_name(p) == "install"@,
        p == MavenPhase::Deploy <==> phase_name(p) == "deploy"@,
        p == MavenPhase::Site <==> phase_name(p) == "site"@,
{
    if phase_name(p) == "clean"@ {
        phase_names_differ(p, MavenPhase::Clean);
    }
    if phase_name(p) == "compile"@ {
        phase_names_differ(p, MavenPhase::Compile);
    }
    if phase_name(p) == "test"@ {
        phase_names_differ(p, MavenPhase::Test);
    }
    if phase_name(p) == "package"@ {
        phase_names_differ(p, MavenPhase::Package);
    }
    if phase_name(p) == "verify"@ {
        phase_names_differ(p, MavenPhase::Verify);
    }
    if phase_name(p) == "install"@ {
        phase_names_differ(p, MavenPhase::Install);
    }
    if phase_name(p) == "deploy"@ {
        phase_names_differ(p, MavenPhase::Deploy);
    }
    if phase_name(p) == "site"@ {
        phase_names_differ(p, MavenPhase::Site);
    }
}

/// Maven itself runs the phase exactly where no daemon is wanted.
pub proof fn daemon_runs_unless_unwanted(global: &GlobalFlags, r: LifecycleRunner)
    requires
        call_ensures(runner, (global,), r),
    ensures
        r is ForkedMaven <==> global.no_daemon,
        r is Daemon <==> !global.no_daemon,
{
}

/// The arguments of a phase are shown in their order, each between backticks.
pub proof fn arguments_are_shown_between_backticks(args: Seq<Seq<char>>, last: Seq<char>)
    ensures
        args_line(Seq::empty()) == "(none)"@,
        backticked(last) == seq!['`'] + last + seq!['`'],
        args.len() > 0 ==> args_line(args.push(last)) == args_line(args) + " "@ + backticked(last),
        args_line(seq![last]) == backticked(last),
{
    reveal_strlit("`");
    assert("`"@ =~= seq!['`']);
    let f = |a: Seq<char>| backticked(a);
    assert(args.push(last).map_values(f) =~= args.map_values(f).push(backticked(last)));
    assert(seq![last].map_values(f) =~= seq![backticked(last)]);
    if args.len() > 0 {
        text::separators_stand_between(args.map_values(f), backticked(last), " "@);
    }
    reveal_with_fuel(text::joined, 2);
}

/// The notice names the phase, the project where there is one, and the arguments.
pub proof fn notice_names_the_phase(phase: MavenPhase, args: Seq<Seq<char>>, root: Seq<char>)
    ensures
        ("barista: `"@ + phase_name(phase) + "` is not yet executable.\n\n"@ + "project: "@ + root
            + "\n"@ + "phase:   "@ + phase_name(phase) + "\nargs:    "@ + args_line(
            args,
        )).is_prefix_of(notice(phase, args, Some(root))),
{
    let front = "barista: `"@ + phase_name(phase) + "` is not yet executable.\n\n"@ + "project: "@
        + root + "\n"@ + "phase:   "@ + phase_name(phase) + "\nargs:    "@ + args_line(args);
    let all = notice(phase, args, Some(root));
    assert(front =~= all.take(front.len() as int));
}

} // verus!
