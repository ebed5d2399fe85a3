//! Commands: which may start, what they see, how long they run and what is kept of them.

use vstd::prelude::*;

use crate::project_config;
use crate::project_config::ArgvError;
use crate::redaction;
use crate::text;
use crate::text_map::TextMap;
use crate::workspace::{PathFact, Workspace, WorkspaceError};

verus! {

/// How many bytes of each output stream are kept.
pub const MAX_OUTPUT_BYTES: usize = 2097152;

/// How many seconds a terminated process has before it is killed.
pub const GRACE_SECONDS: u64 = 5;

/// Who runs a command, which decides what the command sees of the environment.
#[derive(Debug, Clone, Copy, PartialEq, Eq, Structural)]
pub enum EnvironmentPolicy {
    Check,
    Worker,
}

/// What a command did.
#[derive(Debug)]
pub struct CommandResult {
    pub invocation_id: String,
    pub argv: Vec<String>,
    pub working_directory: String,
    pub pid: u32,
    pub started_at: u64,
    pub finished_at: u64,
    pub elapsed_ms: u64,
    pub exit_code: Option<i32>,
    pub timed_out: bool,
    pub cancelled: bool,
    pub stdout: String,
    pub stderr: String,
    pub output_truncated: bool,
}

// ---------------------------------------------------------------------------
// Display
// ---------------------------------------------------------------------------

/// The quoted form that `std`'s `Debug` gives a text.
pub uninterp spec fn debug_form(s: Seq<char>) -> Seq<char>;

/// Calls `std`'s `Debug` of `str` through `format!`. Its result is a function of the text alone;
/// the contract names it and says nothing of which characters are escaped.
#[verifier::external_body]
pub(crate) fn quoted(value: &str) -> (result: String)
    ensures
        result@ == debug_form(value@),
{
    format!("{value:?}")
}

/// The text that the bytes encode, with `std`'s replacement character for what is not UTF-8.
pub uninterp spec fn lossy_text(bytes: Seq<u8>) -> Seq<char>;

/// Calls `String::from_utf8_lossy` of `std`. Its result is a function of the bytes alone; the
/// contract names it and says nothing of where replacement characters stand.
#[verifier::external_body]
pub(crate) fn text_of_bytes(bytes: &Vec<u8>) -> (result: String)
    ensures
        result@ == lossy_text(bytes@),
{
    String::from_utf8_lossy(bytes).into_owned()
}

/// The characters besides ASCII letters and digits that need no quotes.
pub open spec fn plain_marks() -> Seq<char> {
    "-_./:=+"@
}

/// How an argument is shown: as it is where it is plain, else quoted.
pub open spec fn shown_argument(argument: Seq<char>) -> Seq<char> {
    if text::plain(argument, plain_marks()) {
        argument
    } else {
        debug_form(argument)
    }
}

/// How a command is shown.
pub open spec fn shown_argv(argv: Seq<Seq<char>>) -> Seq<char> {
    text::joined(Seq::new(argv.len(), |i: int| shown_argument(argv[i])), " "@)
}

/// How a command is shown: its arguments with a space between each two, quoted where needed.
pub fn display_argv(argv: &[String]) -> (shown: String)
    ensures
        shown@ == shown_argv(text::texts(argv@)),
{
    let mut list: Vec<String> = Vec::new();
    let ghost all = text::texts(argv@);
    let mut at: usize = 0;
    while at < argv.len()
        invariant
            at <= argv@.len(),
            all == text::texts(argv@),
            list@.len() == at,
            forall|i: int| 0 <= i < at ==> (#[trigger] list@[i])@ == shown_argument(all[i]),
        decreases argv@.len() - at,
    {
        assert(all[at as int] == argv@[at as int]@);
        if text::is_plain(argv[at].as_str(), "-_./:=+") {
            list.push(argv[at].clone());
        } else {
            list.push(quoted(argv[at].as_str()));
        }
        at = at + 1;
    }
    assert(text::texts(list@) =~= Seq::new(all.len(), |i: int| shown_argument(all[i])));
    text::join(&list, " ")
}

/// How an exit code is shown.
pub open spec fn shown_exit(code: Option<i32>) -> Seq<char> {
    match code {
        Some(value) => "Some("@ + text::signed_digits(value as int) + ")"@,
        None => "None"@,
    }
}

impl CommandResult {
    /// Whether the command ended by itself, with success.
    pub open spec fn succeeded(self) -> bool {
        self.exit_code == Some(0i32) && !self.timed_out && !self.cancelled
    }

    /// What the command's record shows of it.
    pub open spec fn evidence_text(self) -> Seq<char> {
        "command: "@ + shown_argv(text::texts(self.argv@)) + "\nexit: "@ + shown_exit(self.exit_code) + "\ntimeout: "@
            + text::truth(self.timed_out) + "\ncancelled: "@ + text::truth(self.cancelled) + "\nstdout:\n"@
            + self.stdout@ + "\nstderr:\n"@ + self.stderr@
    }

    /// Whether the command ended by itself, with success.
    pub fn success(&self) -> (answer: bool)
        ensures
            answer == self.succeeded(),
    {
        let zero = match self.exit_code {
            Some(code) => code == 0,
            None => false,
        };
        zero && !self.timed_out && !self.cancelled
    }

    /// What the command's record shows of it.
    pub fn evidence(&self) -> (evidence: String)
        ensures
            evidence@ == self.evidence_text(),
    {
        let exit = match self.exit_code {
            Some(code) => "Some(".to_string().concat(text::signed_decimal(code).as_str()).concat(")"),
            None => "None".to_string(),
        };
        "command: ".to_string().concat(display_argv(self.argv.as_slice()).as_str()).concat("\nexit: ").concat(
            exit.as_str(),
        ).concat("\ntimeout: ").concat(text::truth_text(self.timed_out).as_str()).concat("\ncancelled: ").concat(
            text::truth_text(self.cancelled).as_str(),
        ).concat("\nstdout:\n").concat(self.stdout.as_str()).concat("\nstderr:\n").concat(self.stderr.as_str())
    }
}

// ---------------------------------------------------------------------------
// Admission
// ---------------------------------------------------------------------------

/// Why a command is not started.
#[derive(Debug)]
pub enum RunError {
    Argv(ArgvError),
    NotCanonical(String),
    Workspace(WorkspaceError),
    OutsideArgument { argument: String, cause: WorkspaceError },
}

/// An error with what caused it, as it is shown in full.
pub open spec fn with_cause(message: Seq<char>, cause: Option<Seq<char>>) -> Seq<char> {
    match cause {
        Some(cause) => message + ": "@ + cause,
        None => message,
    }
}

impl RunError {
    /// The message of the error.
    pub open spec fn text(self) -> Seq<char> {
        match self {
            RunError::Argv(fault) => fault.text(),
            RunError::NotCanonical(cwd) => "could not canonicalize "@ + cwd@,
            RunError::Workspace(error) => error.text(),
            RunError::OutsideArgument { argument, cause } => "absolute command argument is outside workspace: "@ + argument@,
        }
    }

    /// The message of what caused the error, where that is known.
    pub open spec fn cause_text(self) -> Option<Seq<char>> {
        match self {
            RunError::OutsideArgument { argument, cause } => Some(cause.text()),
            _ => None,
        }
    }

    /// The message of the error with what caused it.
    pub fn chain(&self) -> (message: String)
        ensures
            message@ == with_cause(self.text(), self.cause_text()),
    {
        match self {
            RunError::OutsideArgument { argument: _, cause } => self.message().concat(": ").concat(cause.message().as_str()),
            _ => self.message(),
        }
    }

    /// The message of the error.
    pub fn message(&self) -> (message: String)
        ensures
            message@ == self.text(),
    {
        match self {
            RunError::Argv(fault) => fault.message(),
            RunError::NotCanonical(cwd) => "could not canonicalize ".to_string().concat(cwd.as_str()),
            RunError::Workspace(error) => error.message(),
            RunError::OutsideArgument { argument, cause: _ } => "absolute command argument is outside workspace: ".to_string().concat(
                argument.as_str(),
            ),
        }
    }
}

/// Whether an argument is an absolute path that may not be written to.
pub open spec fn argument_escapes(argument: Seq<char>, workspace: Workspace, facts: Seq<PathFact>) -> bool {
    crate::paths::absolute(argument) && workspace.write_target(argument, facts) is Err
}

/// The first argument that escapes, where one does.
pub open spec fn first_escape(argv: Seq<Seq<char>>, workspace: Workspace, facts: Seq<PathFact>) -> Option<Seq<char>>
    decreases argv.len(),
{
    if argv.len() == 0 {
        None
    } else if argument_escapes(argv.first(), workspace, facts) {
        Some(argv.first())
    } else {
        first_escape(argv.drop_first(), workspace, facts)
    }
}

/// Refuses a command with an argument that is an absolute path outside the workspace.
pub fn validate_absolute_arguments(argv: &[String], workspace: &Workspace, facts: &Vec<PathFact>) -> (result: Result<
    (),
    RunError,
>)
    ensures
        match first_escape(text::texts(argv@), *workspace, facts@) {
            None => result is Ok,
            Some(escaping) => result matches Err(RunError::OutsideArgument { argument, cause }) && argument@ == escaping
                && workspace.write_target(escaping, facts@) == Err::<Seq<char>, Seq<char>>(cause.text()),
        },
{
    let ghost all = text::texts(argv@);
    let mut at: usize = 0;
    assert(all.skip(0) =~= all);
    while at < argv.len()
        invariant
            at <= argv@.len(),
            all == text::texts(argv@),
            first_escape(all, *workspace, facts@) == first_escape(all.skip(at as int), *workspace, facts@),
        decreases argv@.len() - at,
    {
        assert(all.skip(at as int).first() == argv@[at as int]@);
        assert(all.skip(at as int).drop_first() =~= all.skip(at + 1));
        if crate::paths::is_absolute(argv[at].as_str()) {
            if let Err(cause) = workspace.resolve_write(argv[at].as_str(), facts) {
                return Err(RunError::OutsideArgument { argument: argv[at].clone(), cause });
            }
        }
        at = at + 1;
    }
    Ok(())
}

/// Why a command is not started, where it is not: its shape, its working directory, then its
/// arguments. A message, and that of its cause where there is one.
pub open spec fn admission(
    argv: Seq<Seq<char>>,
    cwd: Seq<char>,
    canonical: Option<String>,
    is_directory: bool,
    facts: Seq<PathFact>,
) -> Option<(Seq<char>, Option<Seq<char>>)> {
    if project_config::argv_fault(argv) is Some {
        Some((project_config::argv_fault(argv)->0.text(), None))
    } else if canonical is None {
        Some(("could not canonicalize "@ + cwd, None))
    } else if !is_directory {
        Some(("workspace is not a directory: "@ + canonical->0@, None))
    } else {
        let workspace = Workspace { root: canonical->0 };
        match first_escape(argv, workspace, facts) {
            Some(argument) => Some(
                (
                    "absolute command argument is outside workspace: "@ + argument,
                    Some(workspace.write_target(argument, facts)->Err_0),
                ),
            ),
            None => None,
        }
    }
}

/// Decides whether a command may start, and in which workspace it then runs.
pub fn admit_command(argv: &[String], cwd: &str, canonical: Option<String>, is_directory: bool, facts: &Vec<PathFact>) -> (result: Result<
    Workspace,
    RunError,
>)
    ensures
        match admission(text::texts(argv@), cwd@, canonical, is_directory, facts@) {
            None => result is Ok && canonical is Some && result->Ok_0.root == canonical->0,
            Some(fault) => result is Err && result->Err_0.text() == fault.0 && result->Err_0.cause_text() == fault.1,
        },
{
    if let Err(fault) = project_config::validate_argv(argv) {
        return Err(RunError::Argv(fault));
    }
    match canonical {
        None => Err(RunError::NotCanonical(cwd.to_string())),
        Some(path) => {
            if !is_directory {
                return Err(RunError::Workspace(WorkspaceError::NotADirectory(path)));
            }
            let workspace = Workspace { root: path };
            match validate_absolute_arguments(argv, &workspace, facts) {
                Ok(_) => Ok(workspace),
                Err(error) => Err(error),
            }
        },
    }
}

// ---------------------------------------------------------------------------
// Environment
// ---------------------------------------------------------------------------

/// The variables that every command sees.
pub open spec fn common_variables() -> Seq<Seq<char>> {
    seq![
        "PATH"@,
        "LANG"@,
        "LC_ALL"@,
        "TERM"@,
        "TMPDIR"@,
        "CARGO_HOME"@,
        "RUSTUP_HOME"@,
        "RUSTFLAGS"@,
        "RUST_BACKTRACE"@,
        "NIX_PATH"@,
        "SSL_CERT_FILE"@,
        "SSL_CERT_DIR"@,
    ]
}

/// The variables that only a worker sees: its home and its credentials.
pub open spec fn worker_variables() -> Seq<Seq<char>> {
    seq!["HOME"@, "CODEX_HOME"@, "OPENAI_API_KEY"@, "CODEX_API_KEY"@, "CODEX_ACCESS_TOKEN"@]
}

/// The variables that a command sees.
pub open spec fn variables(policy: EnvironmentPolicy) -> Seq<Seq<char>> {
    match policy {
        EnvironmentPolicy::Check => common_variables(),
        EnvironmentPolicy::Worker => common_variables() + worker_variables(),
    }
}

/// The variables that a command sees; all others are cleared.
pub fn passed_variables(policy: EnvironmentPolicy) -> (names: Vec<String>)
    ensures
        text::texts(names@) == variables(policy),
{
    let mut names = project_config::argv_of(
        &[
            "PATH",
            "LANG",
            "LC_ALL",
            "TERM",
            "TMPDIR",
            "CARGO_HOME",
            "RUSTUP_HOME",
            "RUSTFLAGS",
            "RUST_BACKTRACE",
            "NIX_PATH",
            "SSL_CERT_FILE",
            "SSL_CERT_DIR",
        ],
    );
    assert(text::texts(names@) =~= common_variables());
    if policy == EnvironmentPolicy::Worker {
        let mut more = project_config::argv_of(
            &["HOME", "CODEX_HOME", "OPENAI_API_KEY", "CODEX_API_KEY", "CODEX_ACCESS_TOKEN"],
        );
        assert(text::texts(more@) =~= worker_variables());
        let ghost first = names@;
        let ghost second = more@;
        names.append(&mut more);
        assert(text::texts(names@) =~= text::texts(first) + text::texts(second));
    }
    names
}

/// A check sees neither the home nor a credential of a worker.
pub proof fn checks_see_no_credentials(name: Seq<char>)
    requires
        worker_variables().contains(name),
    ensures
        !variables(EnvironmentPolicy::Check).contains(name),
{
    reveal_strlit("PATH");
    reveal_strlit("LANG");
    reveal_strlit("LC_ALL");
    reveal_strlit("TERM");
    reveal_strlit("TMPDIR");
    reveal_strlit("CARGO_HOME");
    reveal_strlit("RUSTUP_HOME");
    reveal_strlit("RUSTFLAGS");
    reveal_strlit("RUST_BACKTRACE");
    reveal_strlit("NIX_PATH");
    reveal_strlit("SSL_CERT_FILE");
    reveal_strlit("SSL_CERT_DIR");
    reveal_strlit("HOME");
    reveal_strlit("CODEX_HOME");
    reveal_strlit("OPENAI_API_KEY");
    reveal_strlit("CODEX_API_KEY");
    reveal_strlit("CODEX_ACCESS_TOKEN");
    let common = common_variables();
    assert forall|i: int| 0 <= i < common.len() implies common[i] != name by {
        assert(name[0] == 'H' || name[1] == 'O' || name[0] == 'O');
        assert(common[i][0] != 'H' && common[i][1] != 'O' && common[i][0] != 'O');
    }
}

// ---------------------------------------------------------------------------
// Output
// ---------------------------------------------------------------------------

/// What is kept of an output stream.
#[derive(Debug)]
pub struct OutputBuffer {
    pub bytes: Vec<u8>,
    pub truncated: bool,
}

/// The first bytes of an output, as many as are kept.
pub open spec fn kept_bytes(output: Seq<u8>) -> Seq<u8> {
    if output.len() <= MAX_OUTPUT_BYTES {
        output
    } else {
        output.take(MAX_OUTPUT_BYTES as int)
    }
}

impl OutputBuffer {
    /// Whether the buffer is what is kept of `output`.
    pub open spec fn holds(self, output: Seq<u8>) -> bool {
        &&& self.bytes@ == kept_bytes(output)
        &&& self.truncated == (output.len() > MAX_OUTPUT_BYTES)
    }

    /// The buffer of a stream that gave nothing yet.
    pub fn new() -> (buffer: Self)
        ensures
            buffer.holds(Seq::empty()),
    {
        OutputBuffer { bytes: Vec::new(), truncated: false }
    }

    /// Takes the next bytes of the stream.
    pub fn take_chunk(&mut self, chunk: &[u8])
        requires
            old(self).bytes@.len() <= MAX_OUTPUT_BYTES,
        ensures
            final(self).bytes@ == kept_bytes(old(self).bytes@ + chunk@),
            final(self).truncated == (old(self).truncated || old(self).bytes@.len() + chunk@.len() > MAX_OUTPUT_BYTES),
            forall|output: Seq<u8>| #[trigger] old(self).holds(output) ==> final(self).holds(output + chunk@),
    {
        let remaining: usize = MAX_OUTPUT_BYTES - self.bytes.len();
        let ghost before = self.bytes@;
        let wanted: usize = if chunk.len() < remaining {
            chunk.len()
        } else {
            remaining
        };
        let mut at: usize = 0;
        while at < wanted
            invariant
                at <= wanted <= chunk@.len(),
                self.bytes@ == before + chunk@.take(at as int),
                self.truncated == old(self).truncated,
            decreases wanted - at,
        {
            self.bytes.push(chunk[at]);
            at = at + 1;
            assert(chunk@.take(at as int) =~= chunk@.take(at - 1).push(chunk@[at - 1]));
        }
        if chunk.len() > remaining {
            self.truncated = true;
        }
        assert(self.bytes@ =~= kept_bytes(before + chunk@));
        proof {
            assert forall|output: Seq<u8>| #[trigger] old(self).holds(output) implies self.holds(output + chunk@) by {
                assert(kept_bytes(output + chunk@) =~= kept_bytes(before + chunk@));
            }
        }
    }
}

// ---------------------------------------------------------------------------
// Waiting
// ---------------------------------------------------------------------------

/// How far waiting for a process has come.
#[derive(Debug, Clone, Copy, PartialEq, Eq, Structural)]
pub enum WaitState {
    Running,
    Terminating,
    Ended { exit_code: Option<i32>, timed_out: bool },
}

/// What waiting brought.
#[derive(Debug, Clone, Copy, PartialEq, Eq, Structural)]
pub enum WaitEvent {
    Exited(Option<i32>),
    Elapsed,
}

/// What has to be done to the process group.
#[derive(Debug, Clone, Copy, PartialEq, Eq, Structural)]
pub enum WaitAction {
    Nothing,
    Terminate,
    Kill,
}

/// The state that follows. A process that runs too long is terminated; one that does not end in
/// the time it is then given is killed.
pub open spec fn waited(state: WaitState, event: WaitEvent) -> (WaitState, WaitAction) {
    match (state, event) {
        (WaitState::Running, WaitEvent::Exited(code)) => (
            WaitState::Ended { exit_code: code, timed_out: false },
            WaitAction::Nothing,
        ),
        (WaitState::Running, WaitEvent::Elapsed) => (WaitState::Terminating, WaitAction::Terminate),
        (WaitState::Terminating, WaitEvent::Exited(code)) => (
            WaitState::Ended { exit_code: code, timed_out: true },
            WaitAction::Nothing,
        ),
        (WaitState::Terminating, WaitEvent::Elapsed) => (
            WaitState::Ended { exit_code: None, timed_out: true },
            WaitAction::Kill,
        ),
        (WaitState::Ended { .. }, _) => (state, WaitAction::Nothing),
    }
}

/// The state that follows, and what has to be done.
pub fn wait_step(state: WaitState, event: WaitEvent) -> (next: (WaitState, WaitAction))
    ensures
        next == waited(state, event),
{
    match state {
        WaitState::Running => match event {
            WaitEvent::Exited(code) => (WaitState::Ended { exit_code: code, timed_out: false }, WaitAction::Nothing),
            WaitEvent::Elapsed => (WaitState::Terminating, WaitAction::Terminate),
        },
        WaitState::Terminating => match event {
            WaitEvent::Exited(code) => (WaitState::Ended { exit_code: code, timed_out: true }, WaitAction::Nothing),
            WaitEvent::Elapsed => (WaitState::Ended { exit_code: None, timed_out: true }, WaitAction::Kill),
        },
        WaitState::Ended { exit_code, timed_out } => (state, WaitAction::Nothing),
    }
}

/// Two events end every wait, and a process that had to be terminated counts as timed out.
pub proof fn every_wait_ends(first: WaitEvent, second: WaitEvent)
    ensures
        waited(waited(WaitState::Running, first).0, second).0 is Ended,
        waited(waited(WaitState::Running, first).0, second).0->timed_out == (first is Elapsed),
{
}

/// The name of the process group that a process leads.
pub fn process_group(pid: u32) -> (name: String)
    ensures
        name@ == "-"@ + text::digits(pid as nat),
{
    "-".to_string().concat(text::decimal(pid as u64).as_str())
}

// ---------------------------------------------------------------------------
// Running
// ---------------------------------------------------------------------------

/// A process that runs.
#[derive(Debug, Clone, Copy)]
pub struct ActiveProcess {
    pub pid: u32,
    pub ticket: usize,
}

/// The processes that run, by the name of their invocation, and which were ever cancelled, by
/// their ticket.
#[derive(Debug)]
pub struct CommandRunner {
    pub active: TextMap<ActiveProcess>,
    pub cancelled: Vec<bool>,
}

/// What is known of a process that ended.
#[derive(Debug)]
pub struct Ended {
    pub pid: u32,
    pub started_at: u64,
    pub finished_at: u64,
    pub elapsed_ms: u64,
    pub exit_code: Option<i32>,
    pub timed_out: bool,
    pub stdout: OutputBuffer,
    pub stderr: OutputBuffer,
}

impl CommandRunner {
    /// Whether each process that runs has a ticket.
    pub open spec fn wf(self) -> bool {
        &&& self.active.wf()
        &&& forall|id: Seq<char>| #[trigger] self.active@.contains_key(id) ==> self.active@[id].ticket < self.cancelled@.len()
    }

    /// The runner that runs nothing.
    pub fn new() -> (runner: Self)
        ensures
            runner.wf(),
            runner.active@ == Map::<Seq<char>, ActiveProcess>::empty(),
            runner.cancelled@.len() == 0,
    {
        CommandRunner { active: TextMap::new(), cancelled: Vec::new() }
    }

    /// Records that a process was started for an invocation, and gives it a ticket.
    pub fn begin(&mut self, invocation_id: &str, pid: u32) -> (ticket: usize)
        requires
            old(self).wf(),
        ensures
            final(self).wf(),
            ticket == old(self).cancelled@.len(),
            final(self).cancelled@ == old(self).cancelled@.push(false),
            final(self).active@ == old(self).active@.insert(invocation_id@, ActiveProcess { pid, ticket }),
    {
        let ticket: usize = self.cancelled.len();
        self.cancelled.push(false);
        self.active.insert(invocation_id.to_string(), ActiveProcess { pid, ticket });
        ticket
    }

    /// Cancels an invocation. The process whose group has to be terminated is returned, where one
    /// runs.
    pub fn cancel(&mut self, invocation_id: &str) -> (pid: Option<u32>)
        requires
            old(self).wf(),
        ensures
            final(self).wf(),
            final(self).active@ == old(self).active@,
            match pid {
                Some(pid) => old(self).active@.contains_key(invocation_id@) && pid == old(self).active@[invocation_id@].pid
                    && final(self).cancelled@ == old(self).cancelled@.update(
                    old(self).active@[invocation_id@].ticket as int,
                    true,
                ),
                None => !old(self).active@.contains_key(invocation_id@) && *final(self) == *old(self),
            },
    {
        let found: Option<ActiveProcess> = match self.active.get(invocation_id) {
            Some(process) => Some(*process),
            None => None,
        };
        match found {
            Some(process) => {
                self.cancelled.set(process.ticket, true);
                Some(process.pid)
            },
            None => None,
        }
    }

    /// Whether the process still runs for the invocation, so that it has to be killed.
    pub fn still_active(&self, invocation_id: &str, pid: u32) -> (answer: bool)
        requires
            self.wf(),
        ensures
            answer == (self.active@.contains_key(invocation_id@) && self.active@[invocation_id@].pid == pid),
    {
        match self.active.get(invocation_id) {
            Some(process) => process.pid == pid,
            None => false,
        }
    }

    /// Records that the process of an invocation ended, and what it did.
    pub fn finish(
        &mut self,
        invocation_id: String,
        ticket: usize,
        argv: Vec<String>,
        working_directory: String,
        ended: Ended,
    ) -> (result: CommandResult)
        requires
            old(self).wf(),
            ticket < old(self).cancelled@.len(),
        ensures
            final(self).wf(),
            final(self).active@ == old(self).active@.remove(invocation_id@),
            final(self).cancelled@ == old(self).cancelled@,
            result.invocation_id == invocation_id,
            result.argv == argv,
            result.working_directory == working_directory,
            result.pid == ended.pid,
            result.started_at == ended.started_at,
            result.finished_at == ended.finished_at,
            result.elapsed_ms == ended.elapsed_ms,
            result.exit_code == ended.exit_code,
            result.timed_out == ended.timed_out,
            result.cancelled == old(self).cancelled@[ticket as int],
            result.stdout@ == redaction::redacted(lossy_text(ended.stdout.bytes@)),
            result.stderr@ == redaction::redacted(lossy_text(ended.stderr.bytes@)),
            result.output_truncated == (ended.stdout.truncated || ended.stderr.truncated),
    {
        let _ = self.active.remove(invocation_id.as_str());
        let stdout = redaction::redact(text_of_bytes(&ended.stdout.bytes).as_str());
        let stderr = redaction::redact(text_of_bytes(&ended.stderr.bytes).as_str());
        CommandResult {
            invocation_id,
            argv,
            working_directory,
            pid: ended.pid,
            started_at: ended.started_at,
            finished_at: ended.finished_at,
            elapsed_ms: ended.elapsed_ms,
            exit_code: ended.exit_code,
            timed_out: ended.timed_out,
            cancelled: self.cancelled[ticket],
            stdout,
            stderr,
            output_truncated: ended.stdout.truncated || ended.stderr.truncated,
        }
    }
}

impl Default for CommandRunner {
    fn default() -> (runner: Self)
        ensures
            runner.wf(),
            runner.active@ == Map::<Seq<char>, ActiveProcess>::empty(),
            runner.cancelled@.len() == 0,
    {
        CommandRunner::new()
    }
}

/// A command succeeds only by ending itself with exit code zero: not with another code, not without one,
/// not when its time ran out and not when it was cancelled.
pub proof fn success_is_exit_zero(result: CommandResult)
    ensures
        result.exit_code == Some(0i32) && !result.timed_out && !result.cancelled ==> result.succeeded(),
        result.exit_code is None ==> !result.succeeded(),
        result.exit_code matches Some(code) ==> code != 0 ==> !result.succeeded(),
        result.timed_out ==> !result.succeeded(),
        result.cancelled ==> !result.succeeded(),
{
}

/// What is shown of a command has its exit code, whether its time ran out, whether it was cancelled and
/// the whole of both outputs, each under its name.
pub proof fn evidence_shows_both_outputs(result: CommandResult)
    ensures
        ({
            let shown = result.evidence_text();
            &&& text::holds(shown, "\nstdout:\n"@ + result.stdout@ + "\nstderr:\n"@ + result.stderr@)
            &&& text::holds(shown, result.stdout@)
            &&& text::holds(shown, result.stderr@)
            &&& text::holds(shown, "\nexit: "@ + shown_exit(result.exit_code))
            &&& text::holds(shown, "\ntimeout: "@ + text::truth(result.timed_out))
            &&& text::holds(shown, "\ncancelled: "@ + text::truth(result.cancelled))
            &&& text::holds(shown, "command: "@ + shown_argv(text::texts(result.argv@)))
        }),
{
    let argv = shown_argv(text::texts(result.argv@));
    let exit = shown_exit(result.exit_code);
    let timeout = text::truth(result.timed_out);
    let cancelled = text::truth(result.cancelled);
    let a = "command: "@ + argv;
    let b = a + "\nexit: "@ + exit;
    let c = b + "\ntimeout: "@ + timeout;
    let d = c + "\ncancelled: "@ + cancelled;
    let e = d + "\nstdout:\n"@ + result.stdout@;
    let shown = e + "\nstderr:\n"@ + result.stderr@;
    assert(result.evidence_text() == shown);
    text::additions_are_held(a, "\nexit: "@, exit, a);
    text::additions_are_held(b, "\ntimeout: "@, timeout, b);
    text::additions_are_held(c, "\ncancelled: "@, cancelled, c);
    text::additions_are_held(d, "\nstdout:\n"@, result.stdout@, d);
    text::additions_are_held(e, "\nstderr:\n"@, result.stderr@, result.stdout@);
    text::holding_is_transitive(shown, e, d);
    text::holding_is_transitive(shown, d, "\ncancelled: "@ + cancelled);
    text::holding_is_transitive(shown, d, c);
    text::holding_is_transitive(shown, c, "\ntimeout: "@ + timeout);
    text::holding_is_transitive(shown, c, b);
    text::holding_is_transitive(shown, b, "\nexit: "@ + exit);
    text::holding_is_transitive(shown, b, a);
    let tail = "\nstdout:\n"@ + result.stdout@ + "\nstderr:\n"@;
    text::additions_are_held(d, tail, result.stderr@, d);
    assert(d + tail =~= e + "\nstderr:\n"@);
}

/// A command shows each of its plain arguments as it is.
pub proof fn plain_arguments_are_shown(argv: Seq<Seq<char>>, i: int)
    requires
        0 <= i < argv.len(),
        forall|k: int| 0 <= k < argv[i].len() ==> text::alphanumeric(#[trigger] argv[i][k]) || argv[i][k] == '-' || argv[i][k] == '.',
    ensures
        text::holds(shown_argv(argv), argv[i]),
{
    let lines = Seq::new(argv.len(), |k: int| shown_argument(argv[k]));
    reveal_strlit("-_./:=+");
    let marks = plain_marks();
    assert(marks[0] == '-' && marks[2] == '.');
    assert(text::plain(argv[i], marks));
    text::joined_texts_are_held(lines, " "@, i);
    assert(lines[i] == argv[i]);
}

} // verus!
