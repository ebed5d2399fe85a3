//! What the coding tool on this machine can do.

use vstd::prelude::*;

use crate::command_runner;
use crate::redaction;
use crate::text;

verus! {

/// What the coding tool can do.
#[derive(Debug)]
pub struct CodexCapabilities {
    pub version: String,
    pub supports_exec: bool,
    pub supports_json: bool,
    pub supports_output_schema: bool,
    pub supports_output_last_message: bool,
    pub supports_resume: bool,
    pub supports_workspace_write: bool,
    pub supports_read_only: bool,
    pub supports_approval_never: bool,
    pub supports_working_directory: bool,
}

impl Default for CodexCapabilities {
    fn default() -> (capabilities: Self)
        ensures
            capabilities.version@ == Seq::<char>::empty(),
            !capabilities.supports_exec,
            !capabilities.supports_json,
            !capabilities.supports_output_schema,
            !capabilities.supports_output_last_message,
            !capabilities.supports_resume,
            !capabilities.supports_workspace_write,
            !capabilities.supports_read_only,
            !capabilities.supports_approval_never,
            !capabilities.supports_working_directory,
    {
        CodexCapabilities {
            version: String::new(),
            supports_exec: false,
            supports_json: false,
            supports_output_schema: false,
            supports_output_last_message: false,
            supports_resume: false,
            supports_workspace_write: false,
            supports_read_only: false,
            supports_approval_never: false,
            supports_working_directory: false,
        }
    }
}

/// Why the coding tool cannot be used.
#[derive(Debug)]
pub enum CodexError {
    Incompatible { version: String, missing: String },
    CannotPlan { version: String, missing: String },
    CommandFailed(String),
}

impl CodexError {
    /// The message of the error.
    pub open spec fn text(self) -> Seq<char> {
        match self {
            CodexError::Incompatible { version, missing } => "incompatible Codex CLI "@ + version@
                + ": unsupported capability: "@ + missing@,
            CodexError::CannotPlan { version, missing } => "incompatible Codex CLI "@ + version@
                + " for requirements planning: unsupported capability: "@ + missing@,
            CodexError::CommandFailed(output) => output@,
        }
    }

    /// The message of the error.
    pub fn message(&self) -> (message: String)
        ensures
            message@ == self.text(),
    {
        match self {
            CodexError::Incompatible { version, missing } => "incompatible Codex CLI ".to_string().concat(
                version.as_str(),
            ).concat(": unsupported capability: ").concat(missing.as_str()),
            CodexError::CannotPlan { version, missing } => "incompatible Codex CLI ".to_string().concat(
                version.as_str(),
            ).concat(" for requirements planning: unsupported capability: ").concat(missing.as_str()),
            CodexError::CommandFailed(output) => output.clone(),
        }
    }
}

/// A name, where what it names is not supported.
pub open spec fn lacking(supported: bool, name: Seq<char>) -> Seq<Seq<char>> {
    if supported {
        Seq::empty()
    } else {
        seq![name]
    }
}

fn note_lack(missing: &mut Vec<String>, supported: bool, name: &str)
    ensures
        text::texts(final(missing)@) == text::texts(old(missing)@) + lacking(supported, name@),
{
    let ghost before = missing@;
    if !supported {
        missing.push(name.to_string());
    }
    assert(text::texts(missing@) =~= text::texts(before) + lacking(supported, name@));
}

impl CodexCapabilities {
    /// The capabilities that every use needs and that are missing.
    pub open spec fn lacks_basics(self, sandbox: bool, sandbox_name: Seq<char>) -> Seq<Seq<char>> {
        lacking(self.supports_exec, "non-interactive `codex exec`"@) + lacking(
            self.supports_json,
            "structured `--json` events"@,
        ) + lacking(self.supports_output_schema, "`--output-schema`"@) + lacking(
            self.supports_output_last_message,
            "`--output-last-message`"@,
        ) + lacking(sandbox, sandbox_name) + lacking(self.supports_approval_never, "`--ask-for-approval never`"@) + lacking(
            self.supports_working_directory,
            "workspace selection with `--cd`"@,
        )
    }

    /// The capabilities that work needs and that are missing.
    pub open spec fn lacks(self, resume_required: bool) -> Seq<Seq<char>> {
        self.lacks_basics(self.supports_workspace_write, "`--sandbox workspace-write`"@) + lacking(
            !resume_required || self.supports_resume,
            "session resumption with `codex exec resume`"@,
        )
    }

    /// The capabilities that planning needs and that are missing.
    pub open spec fn lacks_for_planning(self) -> Seq<Seq<char>> {
        self.lacks_basics(self.supports_read_only, "`--sandbox read-only`"@)
    }

    /// The capabilities that the tool's version and help texts show.
    pub fn detect(version: &str, global_help: &str, exec_help: &str, resume_help: Option<&str>) -> (capabilities: Self)
        ensures
            capabilities.version@ == text::trimmed(version@),
            capabilities.supports_exec == (text::holds(global_help@, "exec"@) && text::holds(
                exec_help@,
                "non-interactively"@,
            )),
            capabilities.supports_json == text::holds(exec_help@, "--json"@),
            capabilities.supports_output_schema == text::holds(exec_help@, "--output-schema"@),
            capabilities.supports_output_last_message == text::holds(exec_help@, "--output-last-message"@),
            capabilities.supports_resume == (resume_help is Some && text::holds(resume_help->0@, "SESSION_ID"@)
                && text::holds(resume_help->0@, "--json"@)),
            capabilities.supports_workspace_write == text::holds(global_help@, "workspace-write"@),
            capabilities.supports_read_only == text::holds(global_help@, "read-only"@),
            capabilities.supports_approval_never == (text::holds(global_help@, "--ask-for-approval"@) && text::holds(
                global_help@,
                "never"@,
            )),
            capabilities.supports_working_directory == text::holds(global_help@, "--cd"@),
    {
        let supports_resume = match resume_help {
            Some(help) => text::contains(help, "SESSION_ID") && text::contains(help, "--json"),
            None => false,
        };
        CodexCapabilities {
            version: text::trim(version),
            supports_exec: text::contains(global_help, "exec") && text::contains(exec_help, "non-interactively"),
            supports_json: text::contains(exec_help, "--json"),
            supports_output_schema: text::contains(exec_help, "--output-schema"),
            supports_output_last_message: text::contains(exec_help, "--output-last-message"),
            supports_resume,
            supports_workspace_write: text::contains(global_help, "workspace-write"),
            supports_read_only: text::contains(global_help, "read-only"),
            supports_approval_never: text::contains(global_help, "--ask-for-approval") && text::contains(
                global_help,
                "never",
            ),
            supports_working_directory: text::contains(global_help, "--cd"),
        }
    }

    fn missing_basics(&self, sandbox: bool, sandbox_name: &str) -> (missing: Vec<String>)
        ensures
            text::texts(missing@) == self.lacks_basics(sandbox, sandbox_name@),
    {
        let mut missing: Vec<String> = Vec::new();
        note_lack(&mut missing, self.supports_exec, "non-interactive `codex exec`");
        note_lack(&mut missing, self.supports_json, "structured `--json` events");
        note_lack(&mut missing, self.supports_output_schema, "`--output-schema`");
        note_lack(&mut missing, self.supports_output_last_message, "`--output-last-message`");
        note_lack(&mut missing, sandbox, sandbox_name);
        note_lack(&mut missing, self.supports_approval_never, "`--ask-for-approval never`");
        note_lack(&mut missing, self.supports_working_directory, "workspace selection with `--cd`");
        assert(text::texts(missing@) =~= self.lacks_basics(sandbox, sandbox_name@));
        missing
    }

    /// The capabilities that work needs and that are missing.
    pub fn missing_required(&self, resume_required: bool) -> (missing: Vec<String>)
        ensures
            text::texts(missing@) == self.lacks(resume_required),
    {
        let mut missing = self.missing_basics(self.supports_workspace_write, "`--sandbox workspace-write`");
        note_lack(
            &mut missing,
            !resume_required || self.supports_resume,
            "session resumption with `codex exec resume`",
        );
        missing
    }

    /// Accepts a tool that can do what work needs.
    pub fn ensure_compatible(&self, resume_required: bool) -> (result: Result<(), CodexError>)
        ensures
            result is Ok <==> self.lacks(resume_required).len() == 0,
            result matches Err(error) ==> error.text() == "incompatible Codex CLI "@ + self.version@
                + ": unsupported capability: "@ + text::joined(self.lacks(resume_required), ", "@),
    {
        let missing = self.missing_required(resume_required);
        assert(text::texts(missing@).len() == missing@.len());
        if missing.len() > 0 {
            return Err(
                CodexError::Incompatible { version: self.version.clone(), missing: text::join(&missing, ", ") },
            );
        }
        Ok(())
    }

    /// Accepts a tool that can do what planning needs.
    pub fn ensure_planning_compatible(&self) -> (result: Result<(), CodexError>)
        ensures
            result is Ok <==> self.lacks_for_planning().len() == 0,
            result matches Err(error) ==> error.text() == "incompatible Codex CLI "@ + self.version@
                + " for requirements planning: unsupported capability: "@ + text::joined(self.lacks_for_planning(), ", "@),
    {
        let missing = self.missing_basics(self.supports_read_only, "`--sandbox read-only`");
        assert(text::texts(missing@).len() == missing@.len());
        if missing.len() > 0 {
            return Err(CodexError::CannotPlan { version: self.version.clone(), missing: text::join(&missing, ", ") });
        }
        Ok(())
    }
}

/// What a command of the tool printed: both streams, one after the other.
pub open spec fn printed(stdout: Seq<u8>, stderr: Seq<u8>) -> Seq<char> {
    command_runner::lossy_text(stdout) + command_runner::lossy_text(stderr)
}

/// What a command of the tool printed, where it succeeded.
pub fn checked_output(stdout: &Vec<u8>, stderr: &Vec<u8>, succeeded: bool) -> (result: Result<String, CodexError>)
    ensures
        result is Ok <==> succeeded,
        result matches Ok(output) ==> output@ == printed(stdout@, stderr@),
        result matches Err(error) ==> error.text() == redaction::redacted(text::trimmed(printed(stdout@, stderr@))),
{
    let combined = command_runner::text_of_bytes(stdout).concat(command_runner::text_of_bytes(stderr).as_str());
    if !succeeded {
        return Err(CodexError::CommandFailed(redaction::redact(text::trim(combined.as_str()).as_str())));
    }
    Ok(combined)
}

/// What the tool says of its authentication, without what looks like a credential.
pub fn authentication_status(stdout: &Vec<u8>, stderr: &Vec<u8>, succeeded: bool) -> (result: Result<String, CodexError>)
    ensures
        result is Ok <==> succeeded,
        result matches Ok(status) ==> status@ == redaction::redacted(printed(stdout@, stderr@)),
        result matches Err(error) ==> error.text() == redaction::redacted(text::trimmed(printed(stdout@, stderr@))),
{
    match checked_output(stdout, stderr, succeeded) {
        Ok(output) => Ok(redaction::redact(output.as_str())),
        Err(error) => Err(error),
    }
}

// ---------------------------------------------------------------------------
// What always holds
// ---------------------------------------------------------------------------

/// A tool can work exactly where it runs without questions, prints events, answers in a schema and into a
/// file, writes in the workspace only, never asks for approval and takes a directory; and resumes
/// sessions, where one has to be resumed. It can plan where it does the same reading only.
pub proof fn tools_need_every_capability(tool: CodexCapabilities, resume_required: bool)
    ensures
        tool.lacks(resume_required).len() == 0 <==> {
            &&& tool.supports_exec
            &&& tool.supports_json
            &&& tool.supports_output_schema
            &&& tool.supports_output_last_message
            &&& tool.supports_workspace_write
            &&& tool.supports_approval_never
            &&& tool.supports_working_directory
            &&& resume_required ==> tool.supports_resume
        },
        tool.lacks_for_planning().len() == 0 <==> {
            &&& tool.supports_exec
            &&& tool.supports_json
            &&& tool.supports_output_schema
            &&& tool.supports_output_last_message
            &&& tool.supports_read_only
            &&& tool.supports_approval_never
            &&& tool.supports_working_directory
        },
{
}

/// What is missing is named, so that whoever reads the refusal sees what it is about.
pub proof fn missing_capabilities_are_named(tool: CodexCapabilities, resume_required: bool)
    ensures
        !tool.supports_exec ==> tool.lacks(resume_required).contains("non-interactive `codex exec`"@),
        !tool.supports_json ==> tool.lacks(resume_required).contains("structured `--json` events"@),
        !tool.supports_output_schema ==> tool.lacks(resume_required).contains("`--output-schema`"@),
        !tool.supports_output_last_message ==> tool.lacks(resume_required).contains("`--output-last-message`"@),
        !tool.supports_workspace_write ==> tool.lacks(resume_required).contains("`--sandbox workspace-write`"@),
        !tool.supports_approval_never ==> tool.lacks(resume_required).contains("`--ask-for-approval never`"@),
        !tool.supports_working_directory ==> tool.lacks(resume_required).contains("workspace selection with `--cd`"@),
        resume_required && !tool.supports_resume ==> tool.lacks(resume_required).contains(
            "session resumption with `codex exec resume`"@,
        ),
        !tool.supports_read_only ==> tool.lacks_for_planning().contains("`--sandbox read-only`"@),
{
    let write = tool.lacks_basics(tool.supports_workspace_write, "`--sandbox workspace-write`"@);
    let resume = lacking(!resume_required || tool.supports_resume, "session resumption with `codex exec resume`"@);
    basics_are_named(tool, tool.supports_workspace_write, "`--sandbox workspace-write`"@);
    basics_are_named(tool, tool.supports_read_only, "`--sandbox read-only`"@);
    assert forall|name: Seq<char>| write.contains(name) || resume.contains(name) implies #[trigger] tool.lacks(
        resume_required,
    ).contains(name) by {
        sums_contain(write, resume, name);
    }
    assert(resume.len() > 0 ==> resume[0] == "session resumption with `codex exec resume`"@);
}

proof fn sums_contain(left: Seq<Seq<char>>, right: Seq<Seq<char>>, name: Seq<char>)
    ensures
        left.contains(name) || right.contains(name) ==> (left + right).contains(name),
{
    if left.contains(name) {
        assert((left + right)[left.index_of(name)] == name);
    } else if right.contains(name) {
        assert((left + right)[left.len() + right.index_of(name)] == name);
    }
}

proof fn basics_are_named(tool: CodexCapabilities, sandbox: bool, sandbox_name: Seq<char>)
    ensures
        ({
            let missing = tool.lacks_basics(sandbox, sandbox_name);
            &&& !tool.supports_exec ==> missing.contains("non-interactive `codex exec`"@)
            &&& !tool.supports_json ==> missing.contains("structured `--json` events"@)
            &&& !tool.supports_output_schema ==> missing.contains("`--output-schema`"@)
            &&& !tool.supports_output_last_message ==> missing.contains("`--output-last-message`"@)
            &&& !sandbox ==> missing.contains(sandbox_name)
            &&& !tool.supports_approval_never ==> missing.contains("`--ask-for-approval never`"@)
            &&& !tool.supports_working_directory ==> missing.contains("workspace selection with `--cd`"@)
        }),
{
    let one = lacking(tool.supports_exec, "non-interactive `codex exec`"@);
    let two = lacking(tool.supports_json, "structured `--json` events"@);
    let three = lacking(tool.supports_output_schema, "`--output-schema`"@);
    let four = lacking(tool.supports_output_last_message, "`--output-last-message`"@);
    let five = lacking(sandbox, sandbox_name);
    let six = lacking(tool.supports_approval_never, "`--ask-for-approval never`"@);
    let seven = lacking(tool.supports_working_directory, "workspace selection with `--cd`"@);
    assert forall|name: Seq<char>|
        one.contains(name) || two.contains(name) || three.contains(name) || four.contains(name) || five.contains(name)
            || six.contains(name) || seven.contains(name) implies #[trigger] tool.lacks_basics(sandbox, sandbox_name).contains(
        name,
    ) by {
        sums_contain(one, two, name);
        sums_contain(one + two, three, name);
        sums_contain(one + two + three, four, name);
        sums_contain(one + two + three + four, five, name);
        sums_contain(one + two + three + four + five, six, name);
        sums_contain(one + two + three + four + five + six, seven, name);
    }
    assert(one.len() > 0 ==> one[0] == "non-interactive `codex exec`"@);
    assert(two.len() > 0 ==> two[0] == "structured `--json` events"@);
    assert(three.len() > 0 ==> three[0] == "`--output-schema`"@);
    assert(four.len() > 0 ==> four[0] == "`--output-last-message`"@);
    assert(five.len() > 0 ==> five[0] == sandbox_name);
    assert(six.len() > 0 ==> six[0] == "`--ask-for-approval never`"@);
    assert(seven.len() > 0 ==> seven[0] == "workspace selection with `--cd`"@);
}

} // verus!
