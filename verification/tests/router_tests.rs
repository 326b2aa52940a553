use cdo::local_error::LocalError;
use cdo::router::{
    clean_outcome, help_text, parse_command, parse_invocation, route, run_precheck, run_report,
    should_create_cache_dir, Action, CleanOutcome, Command,
};

#[test]
fn parse_recognizes_the_four_commands() {
    assert_eq!(parse_command(b"help"), Command::Help);
    assert_eq!(parse_command(b"clean"), Command::Clean);
    assert_eq!(parse_command(b"build"), Command::Build);
    assert_eq!(parse_command(b"run"), Command::Run);
}

#[test]
fn parse_flags_anything_else_as_unknown() {
    assert_eq!(parse_command(b"test"), Command::Unknown);
    assert_eq!(parse_command(b"Build"), Command::Unknown);
    assert_eq!(parse_command(b""), Command::Unknown);
    assert_eq!(parse_command(b"runn"), Command::Unknown);
}

#[test]
fn invocation_defaults_to_run_with_auto_discovery() {
    let args = vec![b"cdo".to_vec()];
    let (command, explicit) = parse_invocation(&args);
    assert_eq!(command, Command::Run);
    assert_eq!(explicit, None);
}

#[test]
fn invocation_takes_command_and_explicit_path() {
    let args = vec![b"cdo".to_vec(), b"build".to_vec(), b"src/main.cpp".to_vec()];
    let (command, explicit) = parse_invocation(&args);
    assert_eq!(command, Command::Build);
    assert_eq!(explicit, Some(b"src/main.cpp".to_vec()));
}

#[test]
fn route_dispatch_table() {
    assert_eq!(route(Command::Help, false), Action::ShowHelp);
    assert_eq!(route(Command::Help, true), Action::ShowHelp);
    assert_eq!(route(Command::Clean, false), Action::CleanCache);
    assert_eq!(route(Command::Clean, true), Action::CleanCache);
    assert_eq!(route(Command::Build, true), Action::Build);
    assert_eq!(route(Command::Run, true), Action::BuildAndRun);
    assert_eq!(route(Command::Unknown, true), Action::ReportUnknownCommand);
}

#[test]
fn missing_target_gives_guidance_not_an_error() {
    assert_eq!(route(Command::Build, false), Action::ReportMissingTarget);
    assert_eq!(route(Command::Run, false), Action::ReportMissingTarget);
}

#[test]
fn cache_dir_created_only_for_build_and_run_with_a_target() {
    assert!(should_create_cache_dir(Command::Build, true));
    assert!(should_create_cache_dir(Command::Run, true));
    assert!(!should_create_cache_dir(Command::Build, false));
    assert!(!should_create_cache_dir(Command::Run, false));
    assert!(!should_create_cache_dir(Command::Help, true));
    assert!(!should_create_cache_dir(Command::Clean, true));
    assert!(!should_create_cache_dir(Command::Unknown, true));
}

#[test]
fn clean_removes_when_present_and_reports_nothing_otherwise() {
    // A populated cache directory is removed; a second clean finds nothing
    // to delete and still succeeds.
    assert_eq!(clean_outcome(true), CleanOutcome::Removed);
    assert_eq!(clean_outcome(false), CleanOutcome::NothingToDelete);
}

#[test]
fn run_requires_the_artifact_to_exist() {
    assert_eq!(run_precheck(true), Ok(()));
    assert_eq!(run_precheck(false), Err(LocalError::IoErr));
}

#[test]
fn failed_run_becomes_a_message() {
    assert_eq!(run_report(true), None);
    let message = run_report(false).unwrap();
    assert!(message.contains("failed to run"));
}

#[test]
fn help_text_describes_every_command() {
    let text = help_text();
    assert!(text.starts_with("Usage: cdo [command] [source_file]"));
    assert!(text.contains("build"));
    assert!(text.contains("run"));
    assert!(text.contains("clean"));
    assert!(text.contains("help"));
}

#[test]
fn error_kinds_have_distinct_messages() {
    let io = LocalError::IoErr.message();
    let exit = LocalError::ExitErr.message();
    let parse = LocalError::Parse.message();
    assert_ne!(io, exit);
    assert_ne!(io, parse);
    assert_ne!(exit, parse);
}
