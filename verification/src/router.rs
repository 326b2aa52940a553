//! The command state machine. An invocation is `tool [command] [path]`;
//! the command defaults to `run` and the target to auto-discovery. `help`
//! and `clean` never touch a target; `build` and `run` need one and print
//! guidance instead of failing when none resolves. The cache directory is
//! created only for `build`/`run`, and only when the resolved target exists.

use vstd::prelude::*;
use vstd::slice::slice_to_vec;
use crate::local_error::LocalError;

verus! {

/// The keyword `"help"` as bytes.
pub open spec fn spec_kw_help() -> Seq<u8> {
    seq![104u8, 101u8, 108u8, 112u8]
}

/// The keyword `"clean"` as bytes.
pub open spec fn spec_kw_clean() -> Seq<u8> {
    seq![99u8, 108u8, 101u8, 97u8, 110u8]
}

/// The keyword `"build"` as bytes.
pub open spec fn spec_kw_build() -> Seq<u8> {
    seq![98u8, 117u8, 105u8, 108u8, 100u8]
}

/// The keyword `"run"` as bytes.
pub open spec fn spec_kw_run() -> Seq<u8> {
    seq![114u8, 117u8, 110u8]
}

/// The four commands, plus the tag for anything unrecognized.
#[derive(Clone, Copy, Debug, PartialEq, Eq, Structural)]
pub enum Command {
    Help,
    Clean,
    Build,
    Run,
    Unknown,
}

/// What one invocation has to do, once the command and the presence of a
/// target are known.
#[derive(Clone, Copy, Debug, PartialEq, Eq, Structural)]
pub enum Action {
    ShowHelp,
    CleanCache,
    Build,
    BuildAndRun,
    ReportMissingTarget,
    ReportUnknownCommand,
}

/// What `clean` found: a cache directory it removed, or nothing to delete
/// (which is a success, reported distinctly).
#[derive(Clone, Copy, Debug, PartialEq, Eq, Structural)]
pub enum CleanOutcome {
    Removed,
    NothingToDelete,
}

/// The command a word names.
pub open spec fn spec_command_word(s: Seq<u8>) -> Command {
    if s == spec_kw_help() {
        Command::Help
    } else if s == spec_kw_clean() {
        Command::Clean
    } else if s == spec_kw_build() {
        Command::Build
    } else if s == spec_kw_run() {
        Command::Run
    } else {
        Command::Unknown
    }
}

fn is_kw_help(a: &[u8]) -> (r: bool)
    ensures
        r == (a@ == spec_kw_help()),
{
    let r = a.len() == 4 && a[0] == 104 && a[1] == 101 && a[2] == 108 && a[3] == 112;
    proof {
        if r {
            assert(a@ =~= spec_kw_help());
        } else {
            if a@ == spec_kw_help() {
                assert(a@.len() == 4);
                assert(a@[0] == 104 && a@[1] == 101 && a@[2] == 108 && a@[3] == 112);
            }
        }
    }
    r
}

fn is_kw_clean(a: &[u8]) -> (r: bool)
    ensures
        r == (a@ == spec_kw_clean()),
{
    let r = a.len() == 5 && a[0] == 99 && a[1] == 108 && a[2] == 101 && a[3] == 97 && a[4] == 110;
    proof {
        if r {
            assert(a@ =~= spec_kw_clean());
        } else {
            if a@ == spec_kw_clean() {
                assert(a@.len() == 5);
                assert(a@[0] == 99 && a@[1] == 108 && a@[2] == 101 && a@[3] == 97 && a@[4]
                    == 110);
            }
        }
    }
    r
}

fn is_kw_build(a: &[u8]) -> (r: bool)
    ensures
        r == (a@ == spec_kw_build()),
{
    let r = a.len() == 5 && a[0] == 98 && a[1] == 117 && a[2] == 105 && a[3] == 108 && a[4] == 100;
    proof {
        if r {
            assert(a@ =~= spec_kw_build());
        } else {
            if a@ == spec_kw_build() {
                assert(a@.len() == 5);
                assert(a@[0] == 98 && a@[1] == 117 && a@[2] == 105 && a@[3] == 108 && a@[4]
                    == 100);
            }
        }
    }
    r
}

fn is_kw_run(a: &[u8]) -> (r: bool)
    ensures
        r == (a@ == spec_kw_run()),
{
    let r = a.len() == 3 && a[0] == 114 && a[1] == 117 && a[2] == 110;
    proof {
        if r {
            assert(a@ =~= spec_kw_run());
        } else {
            if a@ == spec_kw_run() {
                assert(a@.len() == 3);
                assert(a@[0] == 114 && a@[1] == 117 && a@[2] == 110);
            }
        }
    }
    r
}

/// Parses one command word.
pub fn parse_command(word: &[u8]) -> (c: Command)
    ensures
        c == spec_command_word(word@),
{
    if is_kw_help(word) {
        Command::Help
    } else if is_kw_clean(word) {
        Command::Clean
    } else if is_kw_build(word) {
        Command::Build
    } else if is_kw_run(word) {
        Command::Run
    } else {
        Command::Unknown
    }
}

/// Reads the command line: the first argument after the program name is the
/// command (`run` when absent), the second is the explicit source path
/// (absent means auto-discovery). The explicit path is taken verbatim;
/// whether it exists is the caller's concern.
pub fn parse_invocation(args: &Vec<Vec<u8>>) -> (r: (Command, Option<Vec<u8>>))
    ensures
        args@.len() <= 1 ==> r.0 == Command::Run,
        args@.len() > 1 ==> r.0 == spec_command_word(args@[1]@),
        args@.len() <= 2 ==> r.1 is None,
        args@.len() > 2 ==> (r.1 matches Some(e) && e@ == args@[2]@),
{
    let command = if args.len() > 1 {
        parse_command(args[1].as_slice())
    } else {
        Command::Run
    };
    let explicit = if args.len() > 2 {
        Some(slice_to_vec(args[2].as_slice()))
    } else {
        None
    };
    (command, explicit)
}

/// The dispatch table: what each command does, given whether a target was
/// resolved. `help`, `clean` and unrecognized commands ignore the target;
/// `build` and `run` turn a missing target into guidance, never an error.
pub open spec fn spec_route(c: Command, target_resolved: bool) -> Action {
    match c {
        Command::Help => Action::ShowHelp,
        Command::Clean => Action::CleanCache,
        Command::Build => if target_resolved {
            Action::Build
        } else {
            Action::ReportMissingTarget
        },
        Command::Run => if target_resolved {
            Action::BuildAndRun
        } else {
            Action::ReportMissingTarget
        },
        Command::Unknown => Action::ReportUnknownCommand,
    }
}

/// Dispatches a command.
pub fn route(c: Command, target_resolved: bool) -> (a: Action)
    ensures
        a == spec_route(c, target_resolved),
        (a == Action::Build || a == Action::BuildAndRun) ==> target_resolved,
{
    match c {
        Command::Help => Action::ShowHelp,
        Command::Clean => Action::CleanCache,
        Command::Build => if target_resolved {
            Action::Build
        } else {
            Action::ReportMissingTarget
        },
        Command::Run => if target_resolved {
            Action::BuildAndRun
        } else {
            Action::ReportMissingTarget
        },
        Command::Unknown => Action::ReportUnknownCommand,
    }
}

/// Whether this invocation may create the cache directory: only `build` and
/// `run` ever do, and only when the resolved target actually exists — never
/// for `help`, `clean`, an unknown command, or a missing target.
pub fn should_create_cache_dir(c: Command, target_exists: bool) -> (r: bool)
    ensures
        r == ((c == Command::Build || c == Command::Run) && target_exists),
{
    (matches!(c, Command::Build) || matches!(c, Command::Run)) && target_exists
}

/// What `clean` does: remove the cache directory when it exists, otherwise
/// report that there was nothing to delete. Idempotent — absence is a
/// success, not an error.
pub fn clean_outcome(cache_dir_exists: bool) -> (o: CleanOutcome)
    ensures
        o == CleanOutcome::Removed <==> cache_dir_exists,
{
    if cache_dir_exists {
        CleanOutcome::Removed
    } else {
        CleanOutcome::NothingToDelete
    }
}

/// Before executing, `run` must verify the artifact exists — a cache record
/// can outlive an artifact that was deleted externally. Missing artifact is
/// an I/O failure.
pub fn run_precheck(artifact_exists: bool) -> (r: Result<(), LocalError>)
    ensures
        r is Ok <==> artifact_exists,
        !artifact_exists ==> r == Err::<(), LocalError>(LocalError::IoErr),
{
    if artifact_exists {
        Ok(())
    } else {
        Err(LocalError::IoErr)
    }
}

/// How a finished run is reported: a failing exit status becomes a
/// user-visible message, not a process failure; a clean exit says nothing.
pub fn run_report(run_ok: bool) -> (m: Option<String>)
    ensures
        run_ok ==> m is None,
        !run_ok ==> (m matches Some(s) && s@ == "\nC++ program failed to run."@),
{
    if run_ok {
        None
    } else {
        Some("\nC++ program failed to run.".to_owned())
    }
}

/// The usage text `help` prints.
pub fn help_text() -> (t: String)
    ensures
        t@
            == "Usage: cdo [command] [source_file]\n\nCommands:\n  build       Compiles the specified C++ source file or the one with a main function found in the current directory.\n  run         Executes the compiled binary. If no binary exists, it will attempt to build it first.\n  clean       Removes the compiled binary and the hash file.\n  help        Displays this help message.\n\nIf no source file is provided, the program will look for a C++ file with a main function in the current directory.\nThe compiled binary will be placed in the 'cdo' directory in the current working directory.\n"@,
{
    "Usage: cdo [command] [source_file]\n\nCommands:\n  build       Compiles the specified C++ source file or the one with a main function found in the current directory.\n  run         Executes the compiled binary. If no binary exists, it will attempt to build it first.\n  clean       Removes the compiled binary and the hash file.\n  help        Displays this help message.\n\nIf no source file is provided, the program will look for a C++ file with a main function in the current directory.\nThe compiled binary will be placed in the 'cdo' directory in the current working directory.\n".to_owned()
}

} // verus!
