use cdo::fingerprint::fingerprint;
use cdo::local_error::LocalError;
use cdo::orchestrator::{build_decision, finish_build, plan_build, BuildDecision, BuildPlan};
use cdo::record::{parse_fingerprint, render_fingerprint};

#[test]
fn no_record_forces_rebuild() {
    assert_eq!(build_decision(42, None), BuildDecision::Rebuild);
}

#[test]
fn matching_record_is_up_to_date() {
    let record = render_fingerprint(42);
    assert_eq!(build_decision(42, Some(&record)), BuildDecision::UpToDate);
}

#[test]
fn mismatching_record_forces_rebuild() {
    let record = render_fingerprint(41);
    assert_eq!(build_decision(42, Some(&record)), BuildDecision::Rebuild);
}

#[test]
fn corrupt_record_forces_rebuild_instead_of_failing() {
    let record = b"not a number".to_vec();
    assert_eq!(build_decision(42, Some(&record)), BuildDecision::Rebuild);
}

#[test]
fn missing_source_fails_before_any_decision() {
    let record = render_fingerprint(42);
    assert_eq!(plan_build(false, 42, Some(&record)), BuildPlan::MissingSource);
}

#[test]
fn plan_compiles_on_first_build() {
    assert_eq!(plan_build(true, 42, None), BuildPlan::Compile);
}

#[test]
fn plan_skips_compile_on_cache_hit() {
    let record = render_fingerprint(42);
    assert_eq!(plan_build(true, 42, Some(&record)), BuildPlan::UpToDate);
}

#[test]
fn successful_compile_writes_record_that_reads_back() {
    let record = finish_build(42, true).unwrap();
    assert_eq!(parse_fingerprint(&record), Some(42));
}

#[test]
fn failed_compile_reports_exit_error_and_writes_nothing() {
    assert_eq!(finish_build(42, false), Err(LocalError::ExitErr));
}

#[test]
fn building_twice_without_edits_compiles_once() {
    // An unchanged file: the first build compiles and stores the
    // fingerprint, the second is a pure cache hit.
    let content = b"int main() { return 0; }\n";
    let mut compiler_invocations = 0;
    let mut stored: Option<Vec<u8>> = None;

    for _ in 0..2 {
        let current = fingerprint(content);
        if plan_build(true, current, stored.as_ref()) == BuildPlan::Compile {
            compiler_invocations += 1;
            stored = Some(finish_build(current, true).unwrap());
        }
    }
    assert_eq!(compiler_invocations, 1);
}

#[test]
fn modified_source_recompiles_and_updates_record() {
    // A run against edited content recompiles before executing and stores
    // the new fingerprint.
    let old_content = b"int main() { return 0; }\n";
    let new_content = b"int main() { return 7; }\n";
    let old_record = finish_build(fingerprint(old_content), true).unwrap();

    let current = fingerprint(new_content);
    assert_eq!(plan_build(true, current, Some(&old_record)), BuildPlan::Compile);
    let new_record = finish_build(current, true).unwrap();
    assert_eq!(parse_fingerprint(&new_record), Some(current));
    assert_ne!(new_record, old_record);
}

#[test]
fn failed_compile_leaves_stale_record_so_next_attempt_retries() {
    let old_record = render_fingerprint(fingerprint(b"old"));
    let current = fingerprint(b"new");
    assert_eq!(plan_build(true, current, Some(&old_record)), BuildPlan::Compile);
    // The compile fails: no new record is produced.
    assert!(finish_build(current, false).is_err());
    // The stale record still forces a rebuild on the next invocation.
    assert_eq!(plan_build(true, current, Some(&old_record)), BuildPlan::Compile);
}
