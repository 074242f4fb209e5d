use vstd::prelude::*;
use crate::step::{Step, StepV};

verus! {

/// The input to the `applyScript` command.
#[derive(Debug)]
pub struct ApplyScriptInput {
    /// The script as a string.
    pub script: String,
}

/// The output of the `applyScript` command: an empty success marker.
#[derive(Debug, Clone, Copy, PartialEq, Eq, Structural)]
pub struct ApplyScriptOutput {}

/// The error of the `applyScript` command: the database's words, verbatim.
#[derive(Debug)]
pub struct RawScriptError {
    pub message: String,
}

/// Applies a script to the database without recording anything in the
/// migrations table. This is used for correcting drift. It bypasses diffing
/// and classification entirely.
pub struct ApplyScriptCommand;

impl ApplyScriptCommand {
    /// The step that runs the script: the script itself, not rendered.
    pub fn step(input: ApplyScriptInput) -> (r: Step)
        ensures
            r@ == StepV::RawScript(input.script@),
    {
        Step::RawScript(input.script)
    }

    /// The command's result from what the database answered.
    pub fn finish(result: Result<(), String>) -> (r: Result<ApplyScriptOutput, RawScriptError>)
        ensures
            match result {
                Ok(()) => r == Ok::<ApplyScriptOutput, RawScriptError>(ApplyScriptOutput {}),
                Err(m) => r is Err && r->Err_0.message == m,
            },
    {
        match result {
            Ok(()) => Ok(ApplyScriptOutput {}),
            Err(m) => Err(RawScriptError { message: m }),
        }
    }
}

} // verus!
