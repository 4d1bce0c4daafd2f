//! What to do about an event that fails: go on with the next, or stop.

use vstd::prelude::*;
use crate::engine::error::EngineError;
use crate::io::error::IoError;
use crate::storage::error::starts_with;

verus! {

/// Decides, error by error, whether processing goes on. A policy decides by
/// the error alone: the same error gets the same answer.
pub trait ErrorPolicy: Send + Sync {
    /// Whether processing goes on after this error of the source.
    spec fn continues_after_io(&self, error: IoError) -> bool;

    /// Whether processing goes on after this error of the engine.
    spec fn continues_after_engine(&self, error: EngineError) -> bool;

    /// Takes an error of the source; `true` to go on, `false` to stop.
    fn handle_io_error(&self, error: IoError) -> (go_on: bool)
        ensures
            go_on == self.continues_after_io(error),
    ;

    /// Takes an error of the engine; `true` to go on, `false` to stop.
    fn handle_engine_error(&self, error: EngineError) -> (go_on: bool)
        ensures
            go_on == self.continues_after_engine(error),
    ;
}

/// `prefix` followed by `detail`.
fn line(prefix: &str, detail: String) -> (text: String)
    ensures
        text@ == prefix@ + detail@,
{
    String::from_str(prefix).concat(detail.as_str())
}

/// Whether `text` is a diagnostic: `prefix`, then the text of the error, of
/// which `message` is what the error itself fixes.
pub open spec fn is_diagnostic(text: Seq<char>, prefix: Seq<char>, message: Option<Seq<char>>) -> bool {
    match message {
        Some(m) => text == prefix + m,
        None => starts_with(text, prefix),
    }
}

/// Drops the failed event and goes on; the caller may report the diagnostic.
#[derive(Debug, Clone, Copy)]
pub struct SkipErrors;

impl SkipErrors {
    /// The diagnostic for an error of the source that is skipped.
    pub fn io_diagnostic(error: &IoError) -> (text: String)
        ensures
            is_diagnostic(text@, "IO error (skipping): "@, error.message()),
    {
        let text = line("IO error (skipping): ", error.to_string());
        assert(text@.subrange(0, "IO error (skipping): "@.len() as int) == "IO error (skipping): "@);
        text
    }

    /// The diagnostic for an error of the engine that is skipped.
    pub fn engine_diagnostic(error: &EngineError) -> (text: String)
        ensures
            is_diagnostic(text@, "Engine error (skipping): "@, error.message()),
    {
        let text = line("Engine error (skipping): ", error.to_string());
        assert(text@.subrange(0, "Engine error (skipping): "@.len() as int)
            == "Engine error (skipping): "@);
        text
    }
}

impl ErrorPolicy for SkipErrors {
    open spec fn continues_after_io(&self, error: IoError) -> bool {
        true
    }

    open spec fn continues_after_engine(&self, error: EngineError) -> bool {
        true
    }

    fn handle_io_error(&self, error: IoError) -> (go_on: bool) {
        true
    }

    fn handle_engine_error(&self, error: EngineError) -> (go_on: bool) {
        true
    }
}

/// Stops at the first error; the caller may report the diagnostic.
#[derive(Debug, Clone, Copy)]
pub struct AbortOnError;

impl AbortOnError {
    /// The diagnostic for an error of the source that stops processing.
    pub fn io_diagnostic(error: &IoError) -> (text: String)
        ensures
            is_diagnostic(text@, "IO error (aborting): "@, error.message()),
    {
        let text = line("IO error (aborting): ", error.to_string());
        assert(text@.subrange(0, "IO error (aborting): "@.len() as int) == "IO error (aborting): "@);
        text
    }

    /// The diagnostic for an error of the engine that stops processing.
    pub fn engine_diagnostic(error: &EngineError) -> (text: String)
        ensures
            is_diagnostic(text@, "Engine error (aborting): "@, error.message()),
    {
        let text = line("Engine error (aborting): ", error.to_string());
        assert(text@.subrange(0, "Engine error (aborting): "@.len() as int)
            == "Engine error (aborting): "@);
        text
    }
}

impl ErrorPolicy for AbortOnError {
    open spec fn continues_after_io(&self, error: IoError) -> bool {
        false
    }

    open spec fn continues_after_engine(&self, error: EngineError) -> bool {
        false
    }

    fn handle_io_error(&self, error: IoError) -> (go_on: bool) {
        false
    }

    fn handle_engine_error(&self, error: EngineError) -> (go_on: bool) {
        false
    }
}

/// Drops the failed event and goes on, with nothing to report.
#[derive(Debug, Clone, Copy)]
pub struct SilentSkip;

impl ErrorPolicy for SilentSkip {
    open spec fn continues_after_io(&self, error: IoError) -> bool {
        true
    }

    open spec fn continues_after_engine(&self, error: EngineError) -> bool {
        true
    }

    fn handle_io_error(&self, error: IoError) -> (go_on: bool) {
        true
    }

    fn handle_engine_error(&self, error: EngineError) -> (go_on: bool) {
        true
    }
}

} // verus!
