//! The ways a probe can fail or be deliberately skipped, and the
//! interpretation of one external tool invocation's outcome.

use crate::command::spec_render;
use crate::command::CommandSpec;
use crate::strutil::concat2;
use crate::strutil::concat3;
use vstd::prelude::*;
use vstd::string::StringExecFns;

verus! {

/// What one invocation of the external tool produced: the exit condition
/// and the captured output streams, decoded to text by the host layer.
#[derive(Debug)]
pub struct ProcOutput {
    /// Whether the process exited successfully.
    pub success: bool,
    /// The exit condition, rendered for diagnostics.
    pub status: String,
    /// Captured standard output.
    pub stdout: String,
    /// Captured standard error.
    pub stderr: String,
}

/// The outcome of asking the host layer to run one command: the process ran
/// and produced output, or it could not be started.
#[derive(Debug)]
pub enum RunOutcome {
    /// The process ran; its output and exit condition.
    Ran(ProcOutput),
    /// The process could not be started; the underlying cause, rendered.
    SpawnFailed(String),
}

/// All reasons the probe might not succeed or be run at all.
#[derive(Debug)]
pub enum Error {
    /// Aborted because the per-library disable variable is set; carries the
    /// variable's name.
    EnvNoPkgConfig(String),
    /// Cross compilation detected and not explicitly allowed.
    CrossCompilation,
    /// The external tool could not be started; carries the attempted
    /// command and the underlying cause.
    Command { command: String, cause: String },
    /// The external tool ran but did not exit successfully; carries the
    /// attempted command and its captured output.
    Failure { command: String, output: ProcOutput },
    /// Reserved for future extension; never constructed by this crate.
    Unknown,
}

/// The diagnostic message for each error.
pub open spec fn spec_error_message(e: &Error) -> Seq<char> {
    match e {
        Error::EnvNoPkgConfig(name) => "Aborted because "@ + name@ + " is set"@,
        Error::CrossCompilation => "Cross compilation detected. Use PKG_CONFIG_ALLOW_CROSS=1 to override"@,
        Error::Command { command, cause } => "Failed to run `"@ + command@ + "`: "@ + cause@,
        Error::Failure { command, output } => {
            let head = "`"@ + command@ + "` did not exit successfully: "@ + output.status@;
            let with_out = if output.stdout@.len() > 0 {
                head + "\n--- stdout\n"@ + output.stdout@
            } else {
                head
            };
            if output.stderr@.len() > 0 {
                with_out + "\n--- stderr\n"@ + output.stderr@
            } else {
                with_out
            }
        },
        Error::Unknown => "unhandled probe error"@,
    }
}

impl Error {
    /// The diagnostic message: which command failed and how, or why the
    /// probe was skipped.
    pub fn message(&self) -> (r: String)
        ensures
            r@ == spec_error_message(self),
    {
        match self {
            Error::EnvNoPkgConfig(name) => concat3("Aborted because ", name.as_str(), " is set"),
            Error::CrossCompilation => "Cross compilation detected. Use PKG_CONFIG_ALLOW_CROSS=1 to override".to_owned(),
            Error::Command { command, cause } => {
                let mut r = concat3("Failed to run `", command.as_str(), "`: ");
                r.append(cause.as_str());
                r
            },
            Error::Failure { command, output } => {
                let mut r = concat3("`", command.as_str(), "` did not exit successfully: ");
                r.append(output.status.as_str());
                if output.stdout.as_str().unicode_len() > 0 {
                    r.append("\n--- stdout\n");
                    r.append(output.stdout.as_str());
                }
                if output.stderr.as_str().unicode_len() > 0 {
                    r.append("\n--- stderr\n");
                    r.append(output.stderr.as_str());
                }
                r
            },
            Error::Unknown => "unhandled probe error".to_owned(),
        }
    }
}

/// How a run outcome is interpreted for a command `c`: successful output
/// yields the captured standard output, a failed exit or spawn yields the
/// matching error with the rendered command attached.
pub open spec fn spec_run_ok(outcome: &RunOutcome) -> bool {
    match outcome {
        RunOutcome::Ran(o) => o.success,
        RunOutcome::SpawnFailed(c) => false,
    }
}

/// Interprets the outcome of running a composed command: the captured
/// standard output on success, the start-failure or exit-failure error
/// otherwise.
pub fn interpret_run(command: &CommandSpec, outcome: &RunOutcome) -> (r: Result<String, Error>)
    ensures
        spec_run_ok(outcome) <==> r is Ok,
        match outcome {
            RunOutcome::Ran(o) => {
                if o.success {
                    r matches Ok(s) && s@ == o.stdout@
                } else {
                    r matches Err(e) && e matches Error::Failure { command: c, output } && c@
                        == spec_render(command) && output == o
                }
            },
            RunOutcome::SpawnFailed(cause) => r matches Err(e) && e matches Error::Command {
                command: c,
                cause: cc,
            } && c@ == spec_render(command) && cc@ == cause@,
        },
{
    match outcome {
        RunOutcome::Ran(o) => {
            if o.success {
                Ok(o.stdout.clone())
            } else {
                let copy = ProcOutput {
                    success: o.success,
                    status: o.status.clone(),
                    stdout: o.stdout.clone(),
                    stderr: o.stderr.clone(),
                };
                Err(Error::Failure { command: command.render(), output: copy })
            }
        },
        RunOutcome::SpawnFailed(cause) => Err(
            Error::Command { command: command.render(), cause: cause.clone() },
        ),
    }
}

} // verus!
