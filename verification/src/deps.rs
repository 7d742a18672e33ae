//! Whether the system tools MorSteg needs are installed: a tool counts as
//! installed when running it with `--version` exits successfully.
use vstd::prelude::*;
use crate::commands::{strings_view, ToolCommand};

verus! {

/// A system tool MorSteg runs.
#[derive(Debug, Clone, Copy, PartialEq, Eq, Structural)]
pub enum Tool {
    /// Hides and extracts the encrypted blob.
    Steghide,
    /// Encrypts and decrypts the secret.
    Age,
    /// Makes age key files.
    AgeKeygen,
}

/// What happened when a version probe was run.
#[derive(Debug, Clone, Copy, PartialEq, Eq, Structural)]
pub enum ProbeOutcome {
    /// The program ran and exited, successfully or not.
    Exited { success: bool },
    /// The program could not be started (for instance, it is not installed).
    NotStarted,
}

/// The program name of `tool`.
pub open spec fn tool_program(tool: Tool) -> Seq<char> {
    match tool {
        Tool::Steghide => "steghide"@,
        Tool::Age => "age"@,
        Tool::AgeKeygen => "age-keygen"@,
    }
}

/// The command that probes for `tool`: the program with `--version`, run with no
/// input and its output discarded.
pub fn version_probe(tool: Tool) -> (c: ToolCommand)
    ensures
        c.program@ == tool_program(tool),
        strings_view(c.args@) == seq!["--version"@],
{
    let program = match tool {
        Tool::Steghide => String::from_str("steghide"),
        Tool::Age => String::from_str("age"),
        Tool::AgeKeygen => String::from_str("age-keygen"),
    };
    let mut args: Vec<String> = Vec::new();
    args.push(String::from_str("--version"));
    assert(strings_view(args@) =~= seq!["--version"@]);
    ToolCommand { program, args }
}

/// A probe finds its tool when the program ran and exited successfully.
pub open spec fn probe_found(outcome: ProbeOutcome) -> bool {
    outcome matches ProbeOutcome::Exited { success } && success
}

/// Whether a probe found its tool.
pub fn command_exists(outcome: ProbeOutcome) -> (found: bool)
    ensures
        found == probe_found(outcome),
{
    match outcome {
        ProbeOutcome::Exited { success } => success,
        ProbeOutcome::NotStarted => false,
    }
}

/// Whether steghide is installed, given the outcome of `version_probe(Tool::Steghide)`.
pub fn steghide_exists(probe: ProbeOutcome) -> (found: bool)
    ensures
        found == probe_found(probe),
{
    command_exists(probe)
}

/// Whether age is installed, given the outcome of `version_probe(Tool::Age)`.
pub fn age_exists(probe: ProbeOutcome) -> (found: bool)
    ensures
        found == probe_found(probe),
{
    command_exists(probe)
}

/// Whether age-keygen is installed, given the outcome of `version_probe(Tool::AgeKeygen)`.
pub fn age_keygen_exists(probe: ProbeOutcome) -> (found: bool)
    ensures
        found == probe_found(probe),
{
    command_exists(probe)
}

/// Whether both tools needed to hide and open files are installed, given the
/// steghide probe and, when it was run, the age probe: age only needs probing
/// once steghide was found, and the answer is no when it was not probed.
pub fn core_dependencies_exist(steghide: ProbeOutcome, age: Option<ProbeOutcome>) -> (ok: bool)
    ensures
        ok == (probe_found(steghide) && (age matches Some(a) && probe_found(a))),
{
    steghide_exists(steghide) && match age {
        Some(a) => age_exists(a),
        None => false,
    }
}

} // verus!
