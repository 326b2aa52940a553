//! The incremental-build decision. A target is recompiled exactly when its
//! current content fingerprint differs from the stored one, or no stored
//! fingerprint can be read; the stored fingerprint is replaced only after
//! the compiler reports success.

use vstd::prelude::*;
use crate::fingerprint::fnv1a;
use crate::local_error::LocalError;
use crate::record::{spec_parse, spec_render, lemma_record_round_trip};
use crate::record::{parse_fingerprint, render_fingerprint};

verus! {

/// Whether the cached artifact may be reused or the source must be compiled
/// again.
#[derive(Clone, Copy, Debug, PartialEq, Eq, Structural)]
pub enum BuildDecision {
    UpToDate,
    Rebuild,
}

/// What one `ensureBuilt` invocation has to do, given what the filesystem
/// reported: nothing (missing source), nothing (cache hit), or one compile.
#[derive(Clone, Copy, Debug, PartialEq, Eq, Structural)]
pub enum BuildPlan {
    MissingSource,
    UpToDate,
    Compile,
}

/// The rebuild decision: up to date exactly when a stored record exists,
/// parses, and names the current fingerprint.
pub open spec fn spec_decision(current: u64, record: Option<Seq<u8>>) -> BuildDecision {
    match record {
        Some(r) => if spec_parse(r) == Some(current) {
            BuildDecision::UpToDate
        } else {
            BuildDecision::Rebuild
        },
        None => BuildDecision::Rebuild,
    }
}

/// Decides whether a recompile is needed. `current` is the fingerprint of
/// the source file's bytes as they are now; `record` is the raw content of
/// the stored fingerprint record, or `None` when no record file exists.
/// An unparsable record forces a rebuild, the same as an absent one.
pub fn build_decision(current: u64, record: Option<&Vec<u8>>) -> (d: BuildDecision)
    ensures
        record matches Some(r) ==> d == spec_decision(current, Some(r@)),
        record is None ==> d == BuildDecision::Rebuild,
        d == BuildDecision::UpToDate <==> (record matches Some(r) && spec_parse(r@) == Some(
            current,
        )),
{
    match record {
        Some(r) => {
            match parse_fingerprint(r.as_slice()) {
                Some(stored) => if stored == current {
                    BuildDecision::UpToDate
                } else {
                    BuildDecision::Rebuild
                },
                None => BuildDecision::Rebuild,
            }
        },
        None => BuildDecision::Rebuild,
    }
}

/// The whole `ensureBuilt` decision: fail on a missing source, otherwise
/// reuse the artifact on a fingerprint match and compile on any mismatch.
pub fn plan_build(source_exists: bool, current: u64, record: Option<&Vec<u8>>) -> (p: BuildPlan)
    ensures
        !source_exists ==> p == BuildPlan::MissingSource,
        source_exists && (record matches Some(r) && spec_parse(r@) == Some(current)) ==> p
            == BuildPlan::UpToDate,
        source_exists && !(record matches Some(r) && spec_parse(r@) == Some(current)) ==> p
            == BuildPlan::Compile,
{
    if !source_exists {
        BuildPlan::MissingSource
    } else {
        match build_decision(current, record) {
            BuildDecision::UpToDate => BuildPlan::UpToDate,
            BuildDecision::Rebuild => BuildPlan::Compile,
        }
    }
}

/// Concludes a compile attempt. On success, the new record content to
/// persist — it parses back to exactly `current`, so the next unchanged
/// invocation is a cache hit. On failure, the compile error; no record
/// content is produced, so the stale fingerprint stays and the next
/// invocation tries again.
pub fn finish_build(current: u64, compile_ok: bool) -> (r: Result<Vec<u8>, LocalError>)
    ensures
        compile_ok ==> r is Ok && r->Ok_0@ == spec_render(current) && spec_parse(r->Ok_0@)
            == Some(current),
        !compile_ok ==> r == Err::<Vec<u8>, LocalError>(LocalError::ExitErr),
{
    if compile_ok {
        let v = render_fingerprint(current);
        proof {
            lemma_record_round_trip(current);
        }
        Ok(v)
    } else {
        Err(LocalError::ExitErr)
    }
}

/// Law (idempotence): once a successful build has stored the rendering of a
/// file's fingerprint, a second build of the unchanged content decides
/// "up to date" — the compiler is invoked at most once for unchanged bytes.
pub proof fn lemma_second_build_is_cache_hit(content: Seq<u8>)
    ensures
        spec_decision(fnv1a(content), Some(spec_render(fnv1a(content)))) == BuildDecision::UpToDate,
{
    lemma_record_round_trip(fnv1a(content));
}

/// Law (corruption recovery): a record that does not parse as a fingerprint
/// forces a rebuild — it is treated exactly like an absent record, never as
/// a fatal error.
pub proof fn lemma_corrupt_record_forces_rebuild(current: u64, record: Seq<u8>)
    requires
        spec_parse(record) == None::<u64>,
    ensures
        spec_decision(current, Some(record)) == BuildDecision::Rebuild,
{
}

/// Law (change detection): a stored fingerprint that differs from the
/// current one forces a rebuild before anything is executed.
pub proof fn lemma_changed_source_rebuilds(current: u64, stored: u64, record: Seq<u8>)
    requires
        spec_parse(record) == Some(stored),
        stored != current,
    ensures
        spec_decision(current, Some(record)) == BuildDecision::Rebuild,
{
}

} // verus!
