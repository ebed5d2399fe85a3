//! Coding workers: what they are asked, how they are started and what is made of their answers.

use vstd::prelude::*;

use crate::codex::{CodexCapabilities, CodexError};
use crate::command_runner;
use crate::command_runner::CommandResult;
use crate::json;
use crate::json::Json;
use crate::lists;
use crate::model;
use crate::patch;
use crate::paths;
use crate::project_config;
use crate::redaction;
use crate::text;

verus! {

/// What a worker is asked to do.
#[derive(Debug)]
pub struct WorkerRequest {
    pub invocation_id: String,
    pub job_id: String,
    pub workspace: String,
    pub artifacts: String,
    pub prompt: String,
    pub attempt: u32,
    pub session_id: Option<String>,
    pub timeout_seconds: u64,
}

/// What a worker did.
#[derive(Debug)]
pub struct WorkerResult {
    pub worker: String,
    pub invocation_id: String,
    pub session_id: Option<String>,
    pub summary: String,
    pub changed_files: Vec<String>,
    pub tests: Vec<String>,
    pub process: CommandResult,
}

/// The structured answer of a worker.
#[derive(Debug)]
pub struct FinalMessage {
    pub summary: String,
    pub changed_files: Vec<String>,
    pub tests: Vec<String>,
    pub patch: String,
}

/// What was found of a worker's answer.
#[derive(Debug)]
pub enum Answer {
    Missing,
    Malformed,
    Parsed(FinalMessage),
}

/// Why a worker gave no result.
#[derive(Debug)]
pub enum WorkerError {
    InvocationFailed { label: String, exit_code: Option<i32>, timed_out: bool, cancelled: bool, stderr: String },
    NoAnswer,
    MalformedAnswer,
    NoPlan,
    NoContent,
    MalformedContent,
}

/// How a failed invocation is reported.
pub open spec fn invocation_failure(
    label: Seq<char>,
    exit_code: Option<i32>,
    timed_out: bool,
    cancelled: bool,
    stderr: Seq<char>,
) -> Seq<char> {
    label + " failed (exit "@ + command_runner::shown_exit(exit_code) + ", timeout "@ + text::truth(timed_out)
        + ", cancelled "@ + text::truth(cancelled) + "): "@ + stderr
}

impl WorkerError {
    /// The message of the error.
    pub open spec fn text(self) -> Seq<char> {
        match self {
            WorkerError::InvocationFailed { label, exit_code, timed_out, cancelled, stderr } => invocation_failure(
                label@,
                exit_code,
                timed_out,
                cancelled,
                stderr@,
            ),
            WorkerError::NoAnswer => "Codex exited successfully but did not produce structured output"@,
            WorkerError::MalformedAnswer => "Codex produced malformed structured output"@,
            WorkerError::NoPlan => "Codex requirements planner did not produce structured output"@,
            WorkerError::NoContent => "Ollama response did not contain message.content"@,
            WorkerError::MalformedContent => "Ollama returned malformed structured output"@,
        }
    }

    /// The message of the error.
    pub fn message(&self) -> (message: String)
        ensures
            message@ == self.text(),
    {
        match self {
            WorkerError::InvocationFailed { label, exit_code, timed_out, cancelled, stderr } => {
                let exit = match exit_code {
                    Some(code) => "Some(".to_string().concat(text::signed_decimal(*code).as_str()).concat(")"),
                    None => "None".to_string(),
                };
                label.clone().concat(" failed (exit ").concat(exit.as_str()).concat(", timeout ").concat(
                    text::truth_text(*timed_out).as_str(),
                ).concat(", cancelled ").concat(text::truth_text(*cancelled).as_str()).concat("): ").concat(stderr.as_str())
            },
            WorkerError::NoAnswer => "Codex exited successfully but did not produce structured output".to_string(),
            WorkerError::MalformedAnswer => "Codex produced malformed structured output".to_string(),
            WorkerError::NoPlan => "Codex requirements planner did not produce structured output".to_string(),
            WorkerError::NoContent => "Ollama response did not contain message.content".to_string(),
            WorkerError::MalformedContent => "Ollama returned malformed structured output".to_string(),
        }
    }
}

fn require_success(label: &str, process: &CommandResult) -> (result: Result<(), WorkerError>)
    ensures
        result is Ok <==> process.succeeded(),
        result matches Err(error) ==> error.text() == invocation_failure(
            label@,
            process.exit_code,
            process.timed_out,
            process.cancelled,
            process.stderr@,
        ),
{
    if process.success() {
        return Ok(());
    }
    Err(
        WorkerError::InvocationFailed {
            label: label.to_string(),
            exit_code: process.exit_code,
            timed_out: process.timed_out,
            cancelled: process.cancelled,
            stderr: process.stderr.clone(),
        },
    )
}

/// Where an artifact of an invocation is stored.
pub fn artifact_path(artifacts: &str, invocation_id: &str, suffix: &str) -> (path: String)
    ensures
        path@ == paths::joined_path(artifacts@, invocation_id@ + suffix@),
{
    paths::join(artifacts, invocation_id.to_string().concat(suffix).as_str())
}

// ---------------------------------------------------------------------------
// The coding tool on this machine
// ---------------------------------------------------------------------------

/// The worker that runs the coding tool on this machine.
#[derive(Debug)]
pub struct CodexCliWorker {
    pub binary: String,
}

impl Default for CodexCliWorker {
    fn default() -> (worker: Self)
        ensures
            worker.binary@ == "codex"@,
    {
        CodexCliWorker { binary: "codex".to_string() }
    }
}

/// The session that a line of events reports, where it reports one.
pub open spec fn line_session(line: Seq<char>) -> Option<Seq<char>> {
    match json::json_document(line) {
        None => None,
        Some(event) => if event.member_string("type"@) == Some("thread.started"@) {
            match event.member("thread_id"@) {
                Some(id) => id.string(),
                None => event.member_string("threadId"@),
            }
        } else {
            None
        },
    }
}

/// The first session that lines of events report.
pub open spec fn session_in(lines: Seq<Seq<char>>) -> Option<Seq<char>>
    decreases lines.len(),
{
    if lines.len() == 0 {
        None
    } else if line_session(lines.first()) is Some {
        line_session(lines.first())
    } else {
        session_in(lines.drop_first())
    }
}

fn session_of_line(line: &str) -> (id: Option<String>)
    ensures
        model::view_of(id) == line_session(line@),
{
    let event = match json::parse(line) {
        Some(event) => event,
        None => {
            return None;
        },
    };
    let started = match event.get_str("type") {
        Some(kind) => text::same(kind, "thread.started"),
        None => false,
    };
    if !started {
        return None;
    }
    let found = match event.get("thread_id") {
        Some(id) => id.as_str(),
        None => event.get_str("threadId"),
    };
    match found {
        Some(id) => Some(id.to_string()),
        None => None,
    }
}

/// The session that the events report.
pub fn extract_thread_id(jsonl: &str) -> (id: Option<String>)
    ensures
        model::view_of(id) == session_in(text::lines_of(jsonl@)),
{
    let lines = text::lines(jsonl);
    let ghost all = text::texts(lines@);
    let mut at: usize = 0;
    assert(all.skip(0) =~= all);
    while at < lines.len()
        invariant
            at <= lines@.len(),
            all == text::texts(lines@),
            all == text::lines_of(jsonl@),
            session_in(all) == session_in(all.skip(at as int)),
        decreases lines@.len() - at,
    {
        assert(all.skip(at as int).first() == lines@[at as int]@);
        assert(all.skip(at as int).drop_first() =~= all.skip(at + 1));
        let id = session_of_line(lines[at].as_str());
        if id.is_some() {
            return id;
        }
        at = at + 1;
    }
    None
}

/// The start of every command of the tool: it never asks, and it is confined to the workspace.
pub open spec fn confined(binary: Seq<char>, sandbox: Seq<char>, workspace: Seq<char>) -> Seq<Seq<char>> {
    seq![binary, "--ask-for-approval"@, "never"@, "--sandbox"@, sandbox, "--cd"@, workspace, "exec"@]
}

/// The command that lets the tool work: in a new session, or in one that it resumes.
pub open spec fn work_command(
    binary: Seq<char>,
    workspace: Seq<char>,
    session_id: Option<Seq<char>>,
    schema: Seq<char>,
    last_message: Seq<char>,
) -> Seq<Seq<char>> {
    confined(binary, "workspace-write"@, workspace) + match session_id {
        Some(id) => seq![
            "resume"@,
            "--json"@,
            "--output-schema"@,
            schema,
            "--output-last-message"@,
            last_message,
            id,
            "-"@,
        ],
        None => seq![
            "--json"@,
            "--skip-git-repo-check"@,
            "--output-schema"@,
            schema,
            "--output-last-message"@,
            last_message,
            "-"@,
        ],
    }
}

/// The command that lets the tool plan, without writing.
pub open spec fn plan_command(binary: Seq<char>, workspace: Seq<char>, schema: Seq<char>, last_message: Seq<char>) -> Seq<
    Seq<char>,
> {
    confined(binary, "read-only"@, workspace) + seq![
        "--ephemeral"@,
        "--json"@,
        "--output-schema"@,
        schema,
        "--output-last-message"@,
        last_message,
        "-"@,
    ]
}

impl CodexCliWorker {
    /// The worker that runs the given program.
    pub fn new(binary: &str) -> (worker: Self)
        ensures
            worker.binary@ == binary@,
    {
        CodexCliWorker { binary: binary.to_string() }
    }

    /// The name of the worker.
    pub fn name(&self) -> (name: String)
        ensures
            name@ == "codex_cli"@,
    {
        "codex_cli".to_string()
    }

    /// The command that lets the tool work, where it can do what that needs.
    pub fn argv(
        &self,
        workspace: &str,
        session_id: Option<&str>,
        schema: &str,
        last_message: &str,
        capabilities: &CodexCapabilities,
    ) -> (result: Result<Vec<String>, CodexError>)
        ensures
            result is Ok <==> capabilities.lacks(session_id is Some).len() == 0,
            result matches Ok(argv) ==> text::texts(argv@) == work_command(
                self.binary@,
                workspace@,
                model::view_of(session_id),
                schema@,
                last_message@,
            ),
            result matches Err(error) ==> error.text() == "incompatible Codex CLI "@ + capabilities.version@
                + ": unsupported capability: "@ + text::joined(capabilities.lacks(session_id is Some), ", "@),
    {
        if let Err(error) = capabilities.ensure_compatible(session_id.is_some()) {
            return Err(error);
        }
        let binary = self.binary.as_str();
        let argv = match session_id {
            Some(id) => project_config::argv_of(
                &[
                    binary,
                    "--ask-for-approval",
                    "never",
                    "--sandbox",
                    "workspace-write",
                    "--cd",
                    workspace,
                    "exec",
                    "resume",
                    "--json",
                    "--output-schema",
                    schema,
                    "--output-last-message",
                    last_message,
                    id,
                    "-",
                ],
            ),
            None => project_config::argv_of(
                &[
                    binary,
                    "--ask-for-approval",
                    "never",
                    "--sandbox",
                    "workspace-write",
                    "--cd",
                    workspace,
                    "exec",
                    "--json",
                    "--skip-git-repo-check",
                    "--output-schema",
                    schema,
                    "--output-last-message",
                    last_message,
                    "-",
                ],
            ),
        };
        assert(text::texts(argv@) =~= work_command(
            self.binary@,
            workspace@,
            model::view_of(session_id),
            schema@,
            last_message@,
        ));
        Ok(argv)
    }

    /// The command that lets the tool plan, where it can do what that needs.
    pub fn planner_argv(&self, workspace: &str, schema: &str, last_message: &str, capabilities: &CodexCapabilities) -> (result: Result<
        Vec<String>,
        CodexError,
    >)
        ensures
            result is Ok <==> capabilities.lacks_for_planning().len() == 0,
            result matches Ok(argv) ==> text::texts(argv@) == plan_command(
                self.binary@,
                workspace@,
                schema@,
                last_message@,
            ),
            result matches Err(error) ==> error.text() == "incompatible Codex CLI "@ + capabilities.version@
                + " for requirements planning: unsupported capability: "@ + text::joined(
                capabilities.lacks_for_planning(),
                ", "@,
            ),
    {
        if let Err(error) = capabilities.ensure_planning_compatible() {
            return Err(error);
        }
        let argv = project_config::argv_of(
            &[
                self.binary.as_str(),
                "--ask-for-approval",
                "never",
                "--sandbox",
                "read-only",
                "--cd",
                workspace,
                "exec",
                "--ephemeral",
                "--json",
                "--output-schema",
                schema,
                "--output-last-message",
                last_message,
                "-",
            ],
        );
        assert(text::texts(argv@) =~= plan_command(self.binary@, workspace@, schema@, last_message@));
        Ok(argv)
    }

    /// What the tool planned, from what its command did and what it left.
    pub fn planner_output(&self, process: &CommandResult, output: Option<String>) -> (result: Result<String, WorkerError>)
        ensures
            result is Ok <==> process.succeeded() && output is Some,
            result matches Ok(plan) ==> plan == output->0,
            result matches Err(error) ==> error.text() == if process.succeeded() {
                WorkerError::NoPlan.text()
            } else {
                invocation_failure(
                    "Codex requirements planner"@,
                    process.exit_code,
                    process.timed_out,
                    process.cancelled,
                    process.stderr@,
                )
            },
    {
        if let Err(error) = require_success("Codex requirements planner", process) {
            return Err(error);
        }
        match output {
            Some(plan) => Ok(plan),
            None => Err(WorkerError::NoPlan),
        }
    }

    /// What the tool did, from what its command did and the answer that it left. The session is the
    /// one that its events report, else the one that was resumed.
    pub fn result(&self, request: WorkerRequest, process: CommandResult, answer: Answer) -> (result: Result<
        WorkerResult,
        WorkerError,
    >)
        ensures
            result is Ok <==> process.succeeded() && answer is Parsed,
            result matches Ok(done) ==> {
                &&& done.worker@ == "codex_cli"@
                &&& done.invocation_id == request.invocation_id
                &&& model::view_of(done.session_id) == match session_in(text::lines_of(process.stdout@)) {
                    Some(id) => Some(id),
                    None => model::view_of(request.session_id),
                }
                &&& done.summary == answer->Parsed_0.summary
                &&& done.changed_files == answer->Parsed_0.changed_files
                &&& done.tests == answer->Parsed_0.tests
                &&& done.process == process
            },
            result matches Err(error) ==> error.text() == if !process.succeeded() {
                invocation_failure(
                    "Codex invocation"@,
                    process.exit_code,
                    process.timed_out,
                    process.cancelled,
                    process.stderr@,
                )
            } else if answer is Missing {
                WorkerError::NoAnswer.text()
            } else {
                WorkerError::MalformedAnswer.text()
            },
    {
        if let Err(error) = require_success("Codex invocation", &process) {
            return Err(error);
        }
        let message = match answer {
            Answer::Missing => {
                return Err(WorkerError::NoAnswer);
            },
            Answer::Malformed => {
                return Err(WorkerError::MalformedAnswer);
            },
            Answer::Parsed(message) => message,
        };
        let found = extract_thread_id(process.stdout.as_str());
        let session_id = match found {
            Some(id) => Some(id),
            None => request.session_id,
        };
        Ok(
            WorkerResult {
                worker: self.name(),
                invocation_id: request.invocation_id,
                session_id,
                summary: message.summary,
                changed_files: message.changed_files,
                tests: message.tests,
                process,
            },
        )
    }
}

/// Every command of the tool runs in the workspace, in a sandbox, and asks for no approval.
pub proof fn tool_commands_are_confined(
    binary: Seq<char>,
    workspace: Seq<char>,
    session_id: Option<Seq<char>>,
    schema: Seq<char>,
    last_message: Seq<char>,
)
    ensures
        ({
            let work = work_command(binary, workspace, session_id, schema, last_message);
            let plan = plan_command(binary, workspace, schema, last_message);
            &&& work[0] == binary && plan[0] == binary
            &&& work[1] == "--ask-for-approval"@ && work[2] == "never"@
            &&& plan[1] == "--ask-for-approval"@ && plan[2] == "never"@
            &&& work[3] == "--sandbox"@ && work[4] == "workspace-write"@
            &&& plan[3] == "--sandbox"@ && plan[4] == "read-only"@
            &&& work[5] == "--cd"@ && work[6] == workspace
            &&& plan[5] == "--cd"@ && plan[6] == workspace
        }),
{
}

// ---------------------------------------------------------------------------
// A local model
// ---------------------------------------------------------------------------

/// The worker that asks a local model.
#[derive(Debug)]
pub struct OllamaWorker {
    pub base_url: String,
    pub model: String,
}

/// The text that a chat reply holds.
pub open spec fn reply_content(reply: Json) -> Option<Seq<char>> {
    match reply.member("message"@) {
        Some(message) => message.member_string("content"@),
        None => None,
    }
}

/// The text that the chat reply holds.
pub fn chat_content(reply: &Json) -> (content: Option<String>)
    ensures
        model::view_of(content) == reply_content(*reply),
{
    match reply.get("message") {
        Some(message) => match message.get_str("content") {
            Some(content) => Some(content.to_string()),
            None => None,
        },
        None => None,
    }
}

/// Where a model is asked, below the address of its service.
pub fn chat_url(base_url: &str) -> (url: String)
    ensures
        url@ == text::trim_end_of(base_url@, "/"@) + "/api/chat"@,
{
    text::trim_end_matches(base_url, "/").concat("/api/chat")
}

impl OllamaWorker {
    /// The worker that asks the model of a service.
    pub fn new(base_url: &str, model: &str) -> (worker: Self)
        ensures
            worker.base_url@ == base_url@,
            worker.model@ == model@,
    {
        OllamaWorker { base_url: base_url.to_string(), model: model.to_string() }
    }

    /// The name of the worker.
    pub fn name(&self) -> (name: String)
        ensures
            name@ == "ollama"@,
    {
        "ollama".to_string()
    }

    /// What the model is asked.
    pub fn prompt(&self, request: &WorkerRequest) -> (prompt: String)
        ensures
            prompt@
                == "You are Bender's explicitly approved local fallback coding worker. You cannot execute tools. Inspect the supplied task context and return a valid unified diff in the optional `patch` field. Never target .git or .bender. Return only schema-valid JSON.\n\n"@
                + request.prompt@,
    {
        "You are Bender's explicitly approved local fallback coding worker. You cannot execute tools. Inspect the supplied task context and return a valid unified diff in the optional `patch` field. Never target .git or .bender. Return only schema-valid JSON.\n\n".to_string().concat(
            request.prompt.as_str(),
        )
    }

    /// Whether the answer holds a patch, which then has to be accepted and applied.
    pub fn has_patch(message: &FinalMessage) -> (answer: bool)
        ensures
            answer == !text::blank(message.patch@),
    {
        !text::is_blank(message.patch.as_str())
    }

    /// What the model did, from its answer and the reply that it came in. Files that the answer
    /// does not list are those that its patch writes.
    pub fn result(&self, request: WorkerRequest, message: FinalMessage, content: &str, started: u64, finished: u64) -> (done: WorkerResult)
        ensures
            done.worker@ == "ollama"@,
            done.invocation_id == request.invocation_id,
            done.session_id is None,
            done.summary == message.summary,
            text::texts(done.changed_files@) == if !text::blank(message.patch@) && message.changed_files@.len() == 0 {
                lists::sorted(patch::written(text::lines_of(message.patch@)))
            } else {
                text::texts(message.changed_files@)
            },
            done.tests == message.tests,
            done.process.succeeded(),
            done.process.invocation_id == request.invocation_id,
            text::texts(done.process.argv@) == seq!["ollama-api"@, self.model@],
            done.process.working_directory == request.workspace,
            done.process.pid == 0,
            done.process.started_at == started,
            done.process.finished_at == finished,
            done.process.elapsed_ms == if finished >= started {
                (finished - started) as u64
            } else {
                0
            },
            done.process.stdout@ == redaction::redacted(content@),
            done.process.stderr@ == Seq::<char>::empty(),
            !done.process.output_truncated,
    {
        let derive_files = OllamaWorker::has_patch(&message) && message.changed_files.len() == 0;
        let changed_files = if derive_files {
            patch::patch_paths(message.patch.as_str())
        } else {
            message.changed_files
        };
        let argv = project_config::argv_of(&["ollama-api", self.model.as_str()]);
        assert(text::texts(argv@) =~= seq!["ollama-api"@, self.model@]);
        let process = CommandResult {
            invocation_id: request.invocation_id.clone(),
            argv,
            working_directory: request.workspace,
            pid: 0,
            started_at: started,
            finished_at: finished,
            elapsed_ms: finished.saturating_sub(started),
            exit_code: Some(0),
            timed_out: false,
            cancelled: false,
            stdout: redaction::redact(content),
            stderr: String::new(),
            output_truncated: false,
        };
        WorkerResult {
            worker: self.name(),
            invocation_id: request.invocation_id,
            session_id: None,
            summary: message.summary,
            changed_files,
            tests: message.tests,
            process,
        }
    }
}

/// The session is the one that the first event of a started thread names, whatever stands before it that
/// is no event; and there is none where no line is an event.
pub proof fn sessions_come_from_started_threads(lines: Seq<Seq<char>>, k: int)
    ensures
        0 <= k < lines.len() && (forall|i: int| 0 <= i < k ==> json::json_document(#[trigger] lines[i]) is None)
            && json::json_document(lines[k]) is Some && json::json_document(lines[k])->0.member_string("type"@) == Some(
            "thread.started"@,
        ) && json::json_document(lines[k])->0.member_string("thread_id"@) is Some ==> session_in(lines)
            == json::json_document(lines[k])->0.member_string("thread_id"@),
        0 <= k < lines.len() && (forall|i: int| 0 <= i < k ==> json::json_document(#[trigger] lines[i]) is None)
            && json::json_document(lines[k]) is Some && json::json_document(lines[k])->0.member_string("type"@) == Some(
            "thread.started"@,
        ) && json::json_document(lines[k])->0.member("thread_id"@) is None && json::json_document(lines[k])->0.member_string(
            "threadId"@,
        ) is Some ==> session_in(lines) == json::json_document(lines[k])->0.member_string("threadId"@),
        (forall|i: int|
            0 <= i < lines.len() ==> (json::json_document(#[trigger] lines[i]) is None || json::json_document(
                lines[i],
            )->0.member_string("type"@) != Some("thread.started"@))) ==> session_in(lines) is None,
{
    if 0 <= k < lines.len() && (forall|i: int| 0 <= i < k ==> json::json_document(#[trigger] lines[i]) is None) {
        no_session_before(lines, k);
        assert(lines.skip(k).first() == lines[k]);
    }
    if forall|i: int|
        0 <= i < lines.len() ==> (json::json_document(#[trigger] lines[i]) is None || json::json_document(
            lines[i],
        )->0.member_string("type"@) != Some("thread.started"@)) {
        assert forall|i: int| 0 <= i < lines.len() implies line_session(#[trigger] lines[i]) is None by {}
        no_session_before(lines, lines.len() as int);
        assert(lines.skip(lines.len() as int) =~= Seq::<Seq<char>>::empty());
    }
}

proof fn no_session_before(lines: Seq<Seq<char>>, k: int)
    requires
        0 <= k <= lines.len(),
        forall|i: int| 0 <= i < k ==> line_session(#[trigger] lines[i]) is None,
    ensures
        session_in(lines) == session_in(lines.skip(k)),
    decreases k,
{
    if k > 0 {
        let rest = lines.drop_first();
        assert(line_session(lines[0]) is None);
        assert forall|i: int| 0 <= i < k - 1 implies line_session(#[trigger] rest[i]) is None by {
            assert(rest[i] == lines[i + 1]);
        }
        no_session_before(rest, k - 1);
        assert(rest.skip(k - 1) =~= lines.skip(k));
    } else {
        assert(lines.skip(0) =~= lines);
    }
}

/// The tool resumes a session exactly where one is given, and then that one; it prints events, answers in
/// the schema into the given file, and reads what it is asked from its input. Its plans leave no session
/// and write nothing.
pub proof fn tool_commands_answer_in_the_schema(
    binary: Seq<char>,
    workspace: Seq<char>,
    session_id: Option<Seq<char>>,
    schema: Seq<char>,
    last_message: Seq<char>,
)
    ensures
        ({
            let work = work_command(binary, workspace, session_id, schema, last_message);
            let plan = plan_command(binary, workspace, schema, last_message);
            &&& work[7] == "exec"@ && plan[7] == "exec"@
            &&& work.last() == "-"@ && plan.last() == "-"@
            &&& work.contains("--json"@) && plan.contains("--json"@)
            &&& exists|i: int|
                0 <= i < work.len() - 1 && #[trigger] work[i] == "--output-schema"@ && work[i + 1] == schema
            &&& exists|i: int|
                0 <= i < work.len() - 1 && #[trigger] work[i] == "--output-last-message"@ && work[i + 1] == last_message
            &&& exists|i: int|
                0 <= i < plan.len() - 1 && #[trigger] plan[i] == "--output-schema"@ && plan[i + 1] == schema
            &&& exists|i: int|
                0 <= i < plan.len() - 1 && #[trigger] plan[i] == "--output-last-message"@ && plan[i + 1] == last_message
            &&& session_id matches Some(id) ==> work[8] == "resume"@ && work[work.len() - 2] == id
            &&& session_id is None ==> work[8] == "--json"@ && work[9] == "--skip-git-repo-check"@
            &&& plan[8] == "--ephemeral"@
        }),
{
    let work = work_command(binary, workspace, session_id, schema, last_message);
    let plan = plan_command(binary, workspace, schema, last_message);
    if session_id is Some {
        assert(work[9] == "--json"@);
        assert(work[10] == "--output-schema"@);
        assert(work[12] == "--output-last-message"@);
    } else {
        assert(work[8] == "--json"@);
        assert(work[10] == "--output-schema"@);
        assert(work[12] == "--output-last-message"@);
    }
    assert(plan[9] == "--json"@);
    assert(plan[10] == "--output-schema"@);
    assert(plan[12] == "--output-last-message"@);
}

/// A failed invocation is reported with its exit code, whether its time ran out, whether it was cancelled,
/// and the whole of its error output.
pub proof fn failed_invocations_show_why(
    label: Seq<char>,
    exit_code: Option<i32>,
    timed_out: bool,
    cancelled: bool,
    stderr: Seq<char>,
)
    ensures
        ({
            let shown = invocation_failure(label, exit_code, timed_out, cancelled, stderr);
            &&& text::holds(shown, label)
            &&& text::holds(shown, " failed (exit "@ + command_runner::shown_exit(exit_code))
            &&& text::holds(shown, ", timeout "@ + text::truth(timed_out))
            &&& text::holds(shown, ", cancelled "@ + text::truth(cancelled))
            &&& text::holds(shown, "): "@ + stderr)
        }),
{
    let exit = command_runner::shown_exit(exit_code);
    let a = label + " failed (exit "@ + exit;
    let b = a + ", timeout "@ + text::truth(timed_out);
    let c = b + ", cancelled "@ + text::truth(cancelled);
    let shown = c + "): "@ + stderr;
    text::additions_are_held(label, " failed (exit "@, exit, label);
    text::additions_are_held(a, ", timeout "@, text::truth(timed_out), a);
    text::additions_are_held(b, ", cancelled "@, text::truth(cancelled), b);
    text::additions_are_held(c, "): "@, stderr, c);
    text::holding_is_transitive(shown, c, ", cancelled "@ + text::truth(cancelled));
    text::holding_is_transitive(shown, c, b);
    text::holding_is_transitive(shown, b, ", timeout "@ + text::truth(timed_out));
    text::holding_is_transitive(shown, b, a);
    text::holding_is_transitive(shown, a, " failed (exit "@ + exit);
    text::holding_is_transitive(shown, a, label);
}

} // verus!
