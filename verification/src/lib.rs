//! Incremental-build decision engine for a single-file C++ build/run wrapper.
//!
//! The library holds the logic of the tool: a deterministic content
//! fingerprint, the text codec for persisted fingerprint records, the
//! derivation of cache-directory and artifact paths, the selection of a
//! source file during auto-discovery, the rebuild decision, and the command
//! state machine. Everything here works on plain values (bytes, integers,
//! booleans); the binary around it performs the file and process I/O and
//! feeds the results in.

pub mod fingerprint;
pub mod local_error;
pub mod locator;
pub mod orchestrator;
pub mod paths;
pub mod record;
pub mod router;
