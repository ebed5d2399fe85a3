//! The application under test: whether it may start, when it is ready and what is kept of it.

use vstd::prelude::*;

use crate::command_runner;
use crate::project_config;
use crate::project_config::ArgvError;
use crate::text;
use crate::workspace::{PathFact, Workspace, WorkspaceError};

verus! {

/// How many bytes of each output stream are kept.
pub const LOG_LIMIT: usize = 4194304;

/// How many milliseconds an application that has no address to ask is given.
pub const SETTLE_MILLIS: u64 = 150;

/// Why an application is not started.
#[derive(Debug)]
pub enum RuntimeError {
    Argv(ArgvError),
    Workspace(WorkspaceError),
    OutsideArgument { argument: String, cause: WorkspaceError },
}

impl RuntimeError {
    /// The message of the error.
    pub open spec fn text(self) -> Seq<char> {
        match self {
            RuntimeError::Argv(fault) => fault.text(),
            RuntimeError::Workspace(error) => error.text(),
            RuntimeError::OutsideArgument { argument, cause } => "absolute runtime argument is outside workspace: "@
                + argument@,
        }
    }

    /// The message of what caused the error, where that is known.
    pub open spec fn cause_text(self) -> Option<Seq<char>> {
        match self {
            RuntimeError::OutsideArgument { argument, cause } => Some(cause.text()),
            _ => None,
        }
    }

    /// The message of the error with what caused it.
    pub fn chain(&self) -> (message: String)
        ensures
            message@ == command_runner::with_cause(self.text(), self.cause_text()),
    {
        match self {
            RuntimeError::OutsideArgument { argument: _, cause } => self.message().concat(": ").concat(
                cause.message().as_str(),
            ),
            _ => self.message(),
        }
    }

    /// The message of the error.
    pub fn message(&self) -> (message: String)
        ensures
            message@ == self.text(),
    {
        match self {
            RuntimeError::Argv(fault) => fault.message(),
            RuntimeError::Workspace(error) => error.message(),
            RuntimeError::OutsideArgument { argument, cause: _ } => "absolute runtime argument is outside workspace: ".to_string().concat(
                argument.as_str(),
            ),
        }
    }
}

/// Why an application is not started, where it is not: a message, and that of its cause where there is
/// one.
pub open spec fn start_fault(
    argv: Seq<Seq<char>>,
    cwd: Seq<char>,
    canonical: Option<String>,
    is_directory: bool,
    facts: Seq<PathFact>,
) -> Option<(Seq<char>, Option<Seq<char>>)> {
    if project_config::argv_fault(argv) is Some {
        Some((project_config::argv_fault(argv)->0.text(), None))
    } else if canonical is None {
        Some(("could not canonicalize workspace "@ + cwd, None))
    } else if !is_directory {
        Some(("workspace is not a directory: "@ + canonical->0@, None))
    } else {
        let workspace = Workspace { root: canonical->0 };
        match command_runner::first_escape(argv, workspace, facts) {
            Some(argument) => Some(
                (
                    "absolute runtime argument is outside workspace: "@ + argument,
                    Some(workspace.write_target(argument, facts)->Err_0),
                ),
            ),
            None => None,
        }
    }
}

/// Decides whether an application may start.
pub fn validate_start(argv: &[String], cwd: &str, canonical: Option<String>, is_directory: bool, facts: &Vec<PathFact>) -> (result: Result<
    (),
    RuntimeError,
>)
    ensures
        match start_fault(text::texts(argv@), cwd@, canonical, is_directory, facts@) {
            None => result is Ok,
            Some(fault) => result is Err && result->Err_0.text() == fault.0 && result->Err_0.cause_text() == fault.1,
        },
{
    if let Err(fault) = project_config::validate_argv(argv) {
        return Err(RuntimeError::Argv(fault));
    }
    match canonical {
        None => Err(RuntimeError::Workspace(WorkspaceError::NotCanonical(cwd.to_string()))),
        Some(path) => {
            if !is_directory {
                return Err(RuntimeError::Workspace(WorkspaceError::NotADirectory(path)));
            }
            let workspace = Workspace { root: path };
            match command_runner::validate_absolute_arguments(argv, &workspace, facts) {
                Ok(_) => Ok(()),
                Err(command_runner::RunError::OutsideArgument { argument, cause }) => Err(
                    RuntimeError::OutsideArgument { argument, cause },
                ),
                Err(_) => {
                    assert(false);
                    Ok(())
                },
            }
        },
    }
}

/// How a failed start is reported.
pub fn start_failure(argv: &Vec<String>) -> (message: String)
    ensures
        message@ == "could not start runtime "@ + text::joined(text::texts(argv@), " "@),
{
    "could not start runtime ".to_string().concat(text::join(argv, " ").as_str())
}

/// What to make of an application that was started.
#[derive(Debug)]
pub enum Readiness {
    Ready,
    Failed(String),
    Waiting,
}

/// How a number of seconds is shown. None at all are shown in the smallest unit.
pub open spec fn seconds_text(seconds: u64) -> Seq<char> {
    if seconds == 0 {
        "0ns"@
    } else {
        text::digits(seconds as nat) + "s"@
    }
}

fn shown_seconds(seconds: u64) -> (shown: String)
    ensures
        shown@ == seconds_text(seconds),
{
    if seconds == 0 {
        "0ns".to_string()
    } else {
        text::decimal(seconds).concat("s")
    }
}

/// What to make of an application that was started, by whether it exited, whether it answered, and
/// how long it has been waited for.
pub open spec fn readiness_of(
    exited: Option<Seq<char>>,
    answered: Option<bool>,
    elapsed_millis: u64,
    timeout_seconds: u64,
) -> Option<Result<(), Seq<char>>> {
    if exited is Some {
        Some(Err("runtime exited before readiness with "@ + exited->0))
    } else if (match answered {
        Some(answer) => answer,
        None => elapsed_millis >= SETTLE_MILLIS,
    }) {
        Some(Ok(()))
    } else if elapsed_millis >= timeout_seconds * 1000 {
        Some(Err("runtime readiness timed out after "@ + seconds_text(timeout_seconds)))
    } else {
        None
    }
}

/// What to make of an application that was started. `exited` is how it ended, where it did;
/// `answered` is whether it answered at its address, where it has one.
pub fn readiness(exited: Option<&str>, answered: Option<bool>, elapsed_millis: u64, timeout_seconds: u64) -> (readiness: Readiness)
    ensures
        match readiness_of(crate::model::view_of(exited), answered, elapsed_millis, timeout_seconds) {
            Some(Ok(_)) => readiness is Ready,
            Some(Err(message)) => readiness matches Readiness::Failed(shown) && shown@ == message,
            None => readiness is Waiting,
        },
{
    if let Some(status) = exited {
        return Readiness::Failed("runtime exited before readiness with ".to_string().concat(status));
    }
    let ready = match answered {
        Some(answer) => answer,
        None => elapsed_millis >= SETTLE_MILLIS,
    };
    if ready {
        return Readiness::Ready;
    }
    let limit: u128 = timeout_seconds as u128 * 1000;
    if elapsed_millis as u128 >= limit {
        return Readiness::Failed(
            "runtime readiness timed out after ".to_string().concat(shown_seconds(timeout_seconds).as_str()),
        );
    }
    Readiness::Waiting
}

/// The first bytes of an output, as many as are kept.
pub fn limit_log(output: Vec<u8>) -> (kept: Vec<u8>)
    ensures
        kept@ == if output@.len() > LOG_LIMIT {
            output@.take(LOG_LIMIT as int)
        } else {
            output@
        },
{
    let mut kept = output;
    if kept.len() > LOG_LIMIT {
        kept.truncate(LOG_LIMIT);
        assert(kept@ =~= output@.take(LOG_LIMIT as int));
    }
    kept
}

/// An application that ended is never ready, one that answers is, and one that says nothing within its
/// time is given up; until then it is waited for.
pub proof fn applications_are_ready_when_they_answer(
    exited: Option<Seq<char>>,
    answered: Option<bool>,
    elapsed_millis: u64,
    timeout_seconds: u64,
)
    ensures
        exited is Some ==> (readiness_of(exited, answered, elapsed_millis, timeout_seconds) matches Some(Err(message))
            && text::holds(message, exited->0)),
        exited is None && answered == Some(true) ==> readiness_of(exited, answered, elapsed_millis, timeout_seconds) == Some(
            Ok::<(), Seq<char>>(()),
        ),
        exited is None && answered == Some(false) && elapsed_millis >= timeout_seconds * 1000 ==> readiness_of(
            exited,
            answered,
            elapsed_millis,
            timeout_seconds,
        ) matches Some(Err(_)),
        exited is None && answered == Some(false) && elapsed_millis < timeout_seconds * 1000 ==> readiness_of(
            exited,
            answered,
            elapsed_millis,
            timeout_seconds,
        ) is None,
        exited is None && answered is None && elapsed_millis >= 150 ==> readiness_of(
            exited,
            answered,
            elapsed_millis,
            timeout_seconds,
        ) == Some(Ok::<(), Seq<char>>(())),
{
    if let Some(status) = exited {
        let label = "runtime exited before readiness with "@;
        text::parts_are_held(label, status, Seq::empty());
        assert(label + status + Seq::<char>::empty() =~= label + status);
    }
}

} // verus!
