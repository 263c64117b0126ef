//! Launch planning: what it takes to run one robot, and what a sandbox
//! instance is allowed to see.
//!
//! A parsed identity is turned into a launch plan — which backend to use
//! and with which plain inputs — and a sandboxed robot gets a sandbox
//! specification: one fresh directory holding a copy of its source under a
//! fixed name, mounted read-only under a fixed alias, with the instance's
//! standard streams redirected to the protocol.  The caller executes the
//! plan: it copies files, fetches published source, compiles bytecode and
//! instantiates the virtual machine; the library fixes what may be granted.

use vstd::prelude::*;

use crate::ident::Lang;
use crate::ident::RobotId;
use crate::ident::RobotIdV;

verus! {

/// The path at which a sandboxed robot always finds its own source file:
/// the mount alias, then the fixed source file name.
pub open spec fn spec_mounted_source_path() -> Seq<char> {
    "/source/sourcecode"@
}

/// What a sandbox instance is given — and everything it is given.
#[derive(Debug, Clone, PartialEq, Eq)]
pub struct SandboxSpec {
    /// The program name the instance sees.
    pub program_name: String,
    /// The alias under which the one mounted directory appears.
    pub mount_alias: String,
    /// The one mount is read-only.
    pub read_only: bool,
    /// The file name under the mounted directory holding the robot's source.
    pub source_file: String,
    /// Invocation arguments: any extra arguments, then the mounted source path.
    pub args: Vec<String>,
    /// Standard input and output carry the protocol; standard error is
    /// forwarded to the host's for diagnostics.
    pub stdio_redirected: bool,
}

/// Isolation, as far as it is a property of the request: exactly one
/// directory is exposed, read-only, under the fixed alias, and the standard
/// streams are redirected rather than inherited.  No network, environment
/// or further filesystem capability appears in the specification at all.
pub open spec fn spec_isolated(s: SandboxSpec) -> bool {
    &&& s.mount_alias@ == "source"@
    &&& s.read_only
    &&& s.stdio_redirected
    &&& s.source_file@ == "sourcecode"@
}

/// Builds the sandbox specification for one robot.  Whatever extra
/// arguments the robot is given, the instance sees one read-only mount and
/// its own source at the fixed mounted path, as the last argument.
pub fn sandbox_plan(extra_args: &Vec<String>) -> (r: SandboxSpec)
    ensures
        spec_isolated(r),
        r.program_name@ == "robot"@,
        r.args.deep_view() == extra_args.deep_view() + seq![spec_mounted_source_path()],
{
    let mut args: Vec<String> = Vec::new();
    let mut i: usize = 0;
    while i < extra_args.len()
        invariant
            0 <= i <= extra_args.len(),
            args.deep_view() =~= extra_args.deep_view().take(i as int),
        decreases extra_args.len() - i,
    {
        let ghost dv = args.deep_view();
        args.push(extra_args[i].clone());
        proof {
            assert(args.deep_view() =~= dv.push(extra_args.deep_view()[i as int]));
            assert(extra_args.deep_view().take(i + 1) =~= extra_args.deep_view().take(
                i as int,
            ).push(extra_args.deep_view()[i as int]));
        }
        i += 1;
    }
    let ghost dv = args.deep_view();
    args.push("/source/sourcecode".to_owned());
    proof {
        assert(extra_args.deep_view().take(extra_args.deep_view().len() as int)
            =~= extra_args.deep_view());
        assert(args.deep_view() =~= dv.push(spec_mounted_source_path()));
        assert(args.deep_view() =~= extra_args.deep_view() + seq![spec_mounted_source_path()]);
    }
    SandboxSpec {
        program_name: "robot".to_owned(),
        mount_alias: "source".to_owned(),
        read_only: true,
        source_file: "sourcecode".to_owned(),
        args,
        stdio_redirected: true,
    }
}

/// How the fresh source directory is filled before mounting.
#[derive(Debug, Clone, PartialEq, Eq)]
pub enum SourcePlan {
    /// Copy the file at this path in, under the fixed source file name.
    CopyFile { path: String },
    /// Write this text in, under the fixed source file name.
    WriteInline { text: String },
}

/// Which backend runs a robot, and with which plain inputs.
#[derive(Debug, Clone, PartialEq, Eq)]
pub enum LaunchPlan {
    /// Fetch the published robot's language and source from the remote
    /// service, then sandbox the source inline.
    Published { user: String, robot: String },
    /// Run the built-in module for the language on the prepared source.
    Sandbox { lang: Lang, source: SourcePlan, extra_args: Vec<String> },
    /// Compile the runner bytecode at this path — through the module
    /// cache — then run it on the prepared source with these arguments.
    RunnerSandbox { runner_path: String, runner_args: Vec<String>, source: SourcePlan },
    /// Spawn the command as an external process, unsandboxed.
    Process { command: String, args: Vec<String> },
}

/// Turns a parsed identity into the plan for launching it: published
/// robots and inline or local source run in the built-in sandbox for their
/// language, a local runner is compiled and sandboxed, and a command runs
/// as an external process.
pub fn launch_plan(id: &RobotId) -> (r: LaunchPlan)
    ensures
        match id@ {
            RobotIdV::Published { user, robot } => {
                &&& r matches LaunchPlan::Published { user: u, robot: rb }
                &&& u@ == user
                &&& rb@ == robot
            },
            RobotIdV::Local { source, lang } => {
                &&& r matches LaunchPlan::Sandbox { lang: l, source: sp, extra_args }
                &&& l == lang
                &&& sp matches SourcePlan::CopyFile { path }
                &&& path@ == source
                &&& extra_args@.len() == 0
            },
            RobotIdV::Inline { lang, source } => {
                &&& r matches LaunchPlan::Sandbox { lang: l, source: sp, extra_args }
                &&& l == lang
                &&& sp matches SourcePlan::WriteInline { text }
                &&& text@ == source
                &&& extra_args@.len() == 0
            },
            RobotIdV::LocalRunner { runner, runner_args, source } => {
                &&& r matches LaunchPlan::RunnerSandbox { runner_path, runner_args: ra, source: sp }
                &&& runner_path@ == runner
                &&& ra.deep_view() == runner_args
                &&& sp matches SourcePlan::CopyFile { path }
                &&& path@ == source
            },
            RobotIdV::Command { command, args } => {
                &&& r matches LaunchPlan::Process { command: c, args: a }
                &&& c@ == command
                &&& a.deep_view() == args
            },
        },
{
    match id {
        RobotId::Published { user, robot } => LaunchPlan::Published {
            user: user.clone(),
            robot: robot.clone(),
        },
        RobotId::Local { source, lang } => LaunchPlan::Sandbox {
            lang: *lang,
            source: SourcePlan::CopyFile { path: source.clone() },
            extra_args: Vec::new(),
        },
        RobotId::Inline { lang, source } => LaunchPlan::Sandbox {
            lang: *lang,
            source: SourcePlan::WriteInline { text: source.clone() },
            extra_args: Vec::new(),
        },
        RobotId::LocalRunner { runner, runner_args, source } => {
            let cloned = clone_words(runner_args);
            LaunchPlan::RunnerSandbox {
                runner_path: runner.clone(),
                runner_args: cloned,
                source: SourcePlan::CopyFile { path: source.clone() },
            }
        },
        RobotId::Command { command, args } => LaunchPlan::Process {
            command: command.clone(),
            args: clone_words(args),
        },
    }
}

/// Clones a list of words, preserving its contents.
fn clone_words(words: &Vec<String>) -> (r: Vec<String>)
    ensures
        r.deep_view() == words.deep_view(),
{
    let mut out: Vec<String> = Vec::new();
    let mut i: usize = 0;
    while i < words.len()
        invariant
            0 <= i <= words.len(),
            out.deep_view() =~= words.deep_view().take(i as int),
        decreases words.len() - i,
    {
        let ghost dv = out.deep_view();
        out.push(words[i].clone());
        proof {
            assert(out.deep_view() =~= dv.push(words.deep_view()[i as int]));
            assert(words.deep_view().take(i + 1) =~= words.deep_view().take(i as int).push(
                words.deep_view()[i as int],
            ));
        }
        i += 1;
    }
    proof {
        assert(words.deep_view().take(words.deep_view().len() as int) =~= words.deep_view());
    }
    out
}

} // verus!
