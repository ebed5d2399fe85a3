//! The examination of a workspace: what is installed, configured and confined.

use vstd::prelude::*;

use crate::codex::CodexCapabilities;
use crate::command_runner;
use crate::config;
use crate::config::Config;
use crate::model;
use crate::paths;
use crate::project_config;
use crate::project_config::ProjectConfig;
use crate::redaction;
use crate::text;
use crate::text_map;
use crate::text_map::Entry;
use crate::workspace::{PathFact, Workspace};

verus! {

/// One finding of the examination.
#[derive(Debug)]
pub struct DoctorCheck {
    pub name: String,
    pub ok: bool,
    pub detail: String,
    pub required: bool,
}

/// The content of a finding.
pub struct CheckView {
    pub name: Seq<char>,
    pub ok: bool,
    pub detail: Seq<char>,
    pub required: bool,
}

impl View for DoctorCheck {
    type V = CheckView;

    open spec fn view(&self) -> CheckView {
        CheckView { name: self.name@, ok: self.ok, detail: self.detail@, required: self.required }
    }
}

/// What a command printed, or why it failed.
#[derive(Debug)]
pub enum Probe {
    Printed(String),
    Failed(String),
}

/// What was found of the coding tool that is installed.
#[derive(Debug)]
pub struct CodexProbe {
    pub version: String,
    /// What it can do, or why that could not be found out.
    pub capabilities: Result<CodexCapabilities, String>,
    /// What it says of its authentication, where it says that it is authenticated.
    pub authentication: Option<String>,
    /// What came of the smoke test, where it was asked for.
    pub smoke: Option<Probe>,
}

/// What was found in a workspace.
#[derive(Debug)]
pub struct Findings {
    pub state_dir_exists: bool,
    pub config: Result<Config, String>,
    pub codex: Option<CodexProbe>,
    pub git: Probe,
    pub project: Result<ProjectConfig, String>,
    pub programs: Vec<Probe>,
    pub facts: Vec<PathFact>,
}

// ---------------------------------------------------------------------------
// Commands
// ---------------------------------------------------------------------------

/// A text without white space around it and without what looks like a credential.
pub open spec fn sanitized(value: Seq<char>) -> Seq<char> {
    redaction::redacted(text::trimmed(value))
}

/// The text without white space around it and without what looks like a credential.
pub fn sanitize(value: &str) -> (result: String)
    ensures
        result@ == sanitized(value@),
{
    redaction::redact(text::trim(value).as_str())
}

/// What a command printed, or why it failed.
pub fn output(stdout: &Vec<u8>, stderr: &Vec<u8>, succeeded: bool) -> (probe: Probe)
    ensures
        ({
            let printed = command_runner::lossy_text(stdout@) + command_runner::lossy_text(stderr@);
            if succeeded {
                probe matches Probe::Printed(shown) && shown@ == printed
            } else {
                probe matches Probe::Failed(shown) && shown@ == sanitized(printed)
            }
        }),
{
    let printed = command_runner::text_of_bytes(stdout).concat(command_runner::text_of_bytes(stderr).as_str());
    if succeeded {
        Probe::Printed(printed)
    } else {
        Probe::Failed(sanitize(printed.as_str()))
    }
}

/// The finding about a program.
pub open spec fn program_finding(name: Seq<char>, probe: Probe) -> CheckView {
    match probe {
        Probe::Printed(detail) => CheckView { name, ok: true, detail: text::trimmed(detail@), required: true },
        Probe::Failed(detail) => CheckView { name, ok: false, detail: detail@, required: true },
    }
}

fn program_check(name: &str, probe: &Probe) -> (check: DoctorCheck)
    ensures
        check@ == program_finding(name@, *probe),
{
    match probe {
        Probe::Printed(detail) => DoctorCheck {
            name: name.to_string(),
            ok: true,
            detail: text::trim(detail.as_str()),
            required: true,
        },
        Probe::Failed(detail) => DoctorCheck {
            name: name.to_string(),
            ok: false,
            detail: detail.clone(),
            required: true,
        },
    }
}

fn check(name: &str, ok: bool, detail: &str, required: bool) -> (check: DoctorCheck)
    ensures
        check@ == (CheckView { name: name@, ok, detail: detail@, required }),
{
    DoctorCheck { name: name.to_string(), ok, detail: detail.to_string(), required }
}

fn add_check(checks: &mut Vec<DoctorCheck>, check: DoctorCheck)
    ensures
        model::views(final(checks)@) == model::views(old(checks)@).push(check@),
{
    let ghost before = checks@;
    checks.push(check);
    assert(model::views(checks@) =~= model::views(before).push(check@));
}

// ---------------------------------------------------------------------------
// Workspace and configuration
// ---------------------------------------------------------------------------

/// Whether a controller is configured.
pub open spec fn controller_set(config: Result<Config, String>) -> bool {
    config is Ok && config::set_value(config->Ok_0.controller_npub) is Some
}

/// The findings about the workspace and its configuration.
pub open spec fn workspace_findings(workspace: Workspace, findings: Findings) -> Seq<CheckView> {
    seq![
        CheckView {
            name: "workspace canonicalization"@,
            ok: paths::absolute(workspace.root@),
            detail: workspace.root@,
            required: true,
        },
        CheckView {
            name: "writable project .bender directory"@,
            ok: findings.state_dir_exists,
            detail: paths::joined_path(workspace.root@, ".bender"@),
            required: true,
        },
        CheckView {
            name: "Bender configuration"@,
            ok: findings.config is Ok,
            detail: match findings.config {
                Ok(_) => paths::joined_path(paths::joined_path(workspace.root@, ".bender"@), "config.toml"@),
                Err(error) => error@,
            },
            required: true,
        },
        CheckView {
            name: "Nostr controller configuration"@,
            ok: controller_set(findings.config),
            detail: if controller_set(findings.config) {
                "configured"@
            } else {
                "optional: not configured"@
            },
            required: false,
        },
    ]
}

fn check_workspace(workspace: &Workspace, findings: &Findings) -> (checks: Vec<DoctorCheck>)
    ensures
        model::views(checks@) == workspace_findings(*workspace, *findings),
{
    let mut checks: Vec<DoctorCheck> = Vec::new();
    checks.push(
        check("workspace canonicalization", paths::is_absolute(workspace.root()), workspace.root(), true),
    );
    checks.push(
        check(
            "writable project .bender directory",
            findings.state_dir_exists,
            workspace.state_dir().as_str(),
            true,
        ),
    );
    let configured = match &findings.config {
        Ok(_) => Config::path(workspace.root()),
        Err(error) => error.clone(),
    };
    checks.push(check("Bender configuration", findings.config.is_ok(), configured.as_str(), true));
    let controlled = match &findings.config {
        Ok(config) => config::has_value(&config.controller_npub),
        Err(_) => false,
    };
    let detail = if controlled {
        "configured"
    } else {
        "optional: not configured"
    };
    checks.push(check("Nostr controller configuration", controlled, detail, false));
    assert(model::views(checks@) =~= workspace_findings(*workspace, *findings));
    checks
}

// ---------------------------------------------------------------------------
// The coding tool
// ---------------------------------------------------------------------------

/// The finding about a capability.
pub open spec fn capability_finding(name: Seq<char>, ok: bool, version: Seq<char>, detail: Seq<char>) -> CheckView {
    CheckView {
        name,
        ok,
        detail: if ok {
            "supported by "@ + version
        } else {
            "incompatible "@ + version + ": unsupported capability "@ + detail
        },
        required: true,
    }
}

/// The findings about the capabilities of the coding tool.
pub open spec fn capability_findings(capabilities: Result<CodexCapabilities, String>) -> Seq<CheckView> {
    match capabilities {
        Err(error) => seq![CheckView { name: "Codex CLI compatibility"@, ok: false, detail: error@, required: true }],
        Ok(found) => seq![
            capability_finding(
                "Codex non-interactive invocation"@,
                found.supports_exec,
                found.version@,
                "`codex exec`"@,
            ),
            capability_finding(
                "Codex workspace-directory support"@,
                found.supports_working_directory,
                found.version@,
                "`--cd`"@,
            ),
            capability_finding(
                "Codex structured output"@,
                found.supports_json && found.supports_output_schema && found.supports_output_last_message,
                found.version@,
                "`--json`, `--output-schema`, and `--output-last-message`"@,
            ),
            capability_finding(
                "Codex workspace-write sandbox"@,
                found.supports_workspace_write && found.supports_approval_never,
                found.version@,
                "`--sandbox workspace-write --ask-for-approval never`"@,
            ),
            capability_finding(
                "Codex session resumption"@,
                found.supports_resume,
                found.version@,
                "`codex exec resume`"@,
            ),
        ],
    }
}

/// The finding about the authentication of the coding tool.
pub open spec fn authentication_finding(authentication: Option<String>) -> CheckView {
    CheckView {
        name: "Codex authenticated"@,
        ok: authentication is Some,
        detail: match authentication {
            Some(status) => sanitized(status@),
            None => "Codex CLI is not authenticated\n\nRun:\n    codex login"@,
        },
        required: true,
    }
}

/// The finding about the smoke test of the coding tool, where it was run.
pub open spec fn smoke_findings(smoke: Option<Probe>) -> Seq<CheckView> {
    match smoke {
        None => Seq::empty(),
        Some(probe) => seq![
            CheckView {
                name: "Codex harmless smoke test"@,
                ok: probe is Printed,
                detail: match probe {
                    Probe::Printed(_) => "non-interactive read-only invocation succeeded"@,
                    Probe::Failed(error) => error@,
                },
                required: true,
            },
        ],
    }
}

/// The findings about the coding tool. Where it is not installed, nothing more is asked of it.
pub open spec fn codex_findings(codex: Option<CodexProbe>) -> Seq<CheckView> {
    match codex {
        None => seq![
            CheckView {
                name: "Codex CLI installed"@,
                ok: false,
                detail:
                    "Codex CLI not found\n\nInstall Codex CLI, then run:\n    codex login\n    bender doctor"@,
                required: true,
            },
        ],
        Some(probe) => seq![
            CheckView {
                name: "Codex CLI installed"@,
                ok: true,
                detail: text::trimmed(probe.version@),
                required: true,
            },
        ] + capability_findings(probe.capabilities) + seq![authentication_finding(probe.authentication)] + smoke_findings(
            probe.smoke,
        ),
    }
}

fn capability_check(name: &str, ok: bool, version: &str, detail: &str) -> (check: DoctorCheck)
    ensures
        check@ == capability_finding(name@, ok, version@, detail@),
{
    let told = if ok {
        "supported by ".to_string().concat(version)
    } else {
        "incompatible ".to_string().concat(version).concat(": unsupported capability ").concat(detail)
    };
    DoctorCheck { name: name.to_string(), ok, detail: told, required: true }
}

fn check_capabilities(capabilities: &Result<CodexCapabilities, String>) -> (checks: Vec<DoctorCheck>)
    ensures
        model::views(checks@) == capability_findings(*capabilities),
{
    let mut checks: Vec<DoctorCheck> = Vec::new();
    match capabilities {
        Err(error) => {
            checks.push(check("Codex CLI compatibility", false, error.as_str(), true));
        },
        Ok(found) => {
            let version = found.version.as_str();
            checks.push(
                capability_check("Codex non-interactive invocation", found.supports_exec, version, "`codex exec`"),
            );
            checks.push(
                capability_check(
                    "Codex workspace-directory support",
                    found.supports_working_directory,
                    version,
                    "`--cd`",
                ),
            );
            checks.push(
                capability_check(
                    "Codex structured output",
                    found.supports_json && found.supports_output_schema && found.supports_output_last_message,
                    version,
                    "`--json`, `--output-schema`, and `--output-last-message`",
                ),
            );
            checks.push(
                capability_check(
                    "Codex workspace-write sandbox",
                    found.supports_workspace_write && found.supports_approval_never,
                    version,
                    "`--sandbox workspace-write --ask-for-approval never`",
                ),
            );
            checks.push(
                capability_check(
                    "Codex session resumption",
                    found.supports_resume,
                    version,
                    "`codex exec resume`",
                ),
            );
        },
    }
    assert(model::views(checks@) =~= capability_findings(*capabilities));
    checks
}

fn append_checks(checks: &mut Vec<DoctorCheck>, more: Vec<DoctorCheck>)
    ensures
        model::views(final(checks)@) == model::views(old(checks)@) + model::views(more@),
{
    let ghost before = checks@;
    let mut rest = more;
    let ghost added = rest@;
    checks.append(&mut rest);
    assert(model::views(checks@) =~= model::views(before) + model::views(added));
}

fn check_codex(codex: &Option<CodexProbe>) -> (checks: Vec<DoctorCheck>)
    ensures
        model::views(checks@) == codex_findings(*codex),
{
    let mut checks: Vec<DoctorCheck> = Vec::new();
    match codex {
        None => {
            checks.push(
                check(
                    "Codex CLI installed",
                    false,
                    "Codex CLI not found\n\nInstall Codex CLI, then run:\n    codex login\n    bender doctor",
                    true,
                ),
            );
        },
        Some(probe) => {
            checks.push(check("Codex CLI installed", true, text::trim(probe.version.as_str()).as_str(), true));
            append_checks(&mut checks, check_capabilities(&probe.capabilities));
            let told = match &probe.authentication {
                Some(status) => sanitize(status.as_str()),
                None => "Codex CLI is not authenticated\n\nRun:\n    codex login".to_string(),
            };
            add_check(
                &mut checks,
                check("Codex authenticated", probe.authentication.is_some(), told.as_str(), true),
            );
            match &probe.smoke {
                Some(Probe::Printed(_)) => {
                    add_check(
                        &mut checks,
                        check(
                            "Codex harmless smoke test",
                            true,
                            "non-interactive read-only invocation succeeded",
                            true,
                        ),
                    );
                },
                Some(Probe::Failed(error)) => {
                    add_check(&mut checks, check("Codex harmless smoke test", false, error.as_str(), true));
                },
                None => {},
            }
        },
    }
    assert(model::views(checks@) =~= codex_findings(*codex));
    checks
}

/// The command of the smoke test.
pub fn smoke_argv(binary: &str, root: &str) -> (argv: Vec<String>)
    ensures
        text::texts(argv@) == crate::worker::confined(binary@, "read-only"@, root@) + seq![
            "--ephemeral"@,
            "--json"@,
            "Without using tools, reply with the single word OK."@,
        ],
{
    let argv = project_config::argv_of(
        &[
            binary,
            "--ask-for-approval",
            "never",
            "--sandbox",
            "read-only",
            "--cd",
            root,
            "exec",
            "--ephemeral",
            "--json",
            "Without using tools, reply with the single word OK.",
        ],
    );
    assert(text::texts(argv@) =~= crate::worker::confined(binary@, "read-only"@, root@) + seq![
        "--ephemeral"@,
        "--json"@,
        "Without using tools, reply with the single word OK."@,
    ]);
    argv
}

// ---------------------------------------------------------------------------
// The project
// ---------------------------------------------------------------------------

/// Whether a command starts with a program.
pub open spec fn starts(argv: Vec<String>, program: Seq<char>) -> bool {
    argv@.len() > 0 && argv@[0]@ == program
}

/// Whether some approved command starts with a program.
pub open spec fn uses(entries: Seq<Entry<Vec<String>>>, program: Seq<char>) -> bool {
    exists|i: int| 0 <= i < entries.len() && starts((#[trigger] entries[i]).value, program)
}

/// Whether some approved command starts with a program whose name holds a text.
pub open spec fn uses_like(entries: Seq<Entry<Vec<String>>>, part: Seq<char>) -> bool {
    exists|i: int| 0 <= i < entries.len() && (#[trigger] entries[i]).value@.len() > 0 && text::holds(
        entries[i].value@[0]@,
        part,
    )
}

/// A program that a project needs, by the name under which it is reported.
pub open spec fn needed(relevant: bool, label: Seq<char>, program: Seq<char>) -> Seq<(Seq<char>, Seq<char>)> {
    if relevant {
        seq![(label, program)]
    } else {
        Seq::empty()
    }
}

/// The programs that a project needs.
pub open spec fn needed_programs(project: ProjectConfig) -> Seq<(Seq<char>, Seq<char>)> {
    let entries = project.commands.entries@;
    needed(uses(entries, "node"@) || uses(entries, "npm"@) || uses(entries, "npx"@), "Node/npm/npx"@, "node"@) + needed(
        uses(entries, "uv"@),
        "Python/uv"@,
        "uv"@,
    ) + needed(uses(entries, "cargo"@), "Rust/Cargo"@, "cargo"@) + needed(
        project.ui.enabled || uses_like(entries, "playwright"@),
        "Playwright"@,
        "npx"@,
    )
}

/// The labels and programs of a list.
pub open spec fn program_pairs(list: Seq<(String, String)>) -> Seq<(Seq<char>, Seq<char>)> {
    Seq::new(list.len(), |i: int| (list[i].0@, list[i].1@))
}

fn is_used(entries: &Vec<Entry<Vec<String>>>, program: &str) -> (answer: bool)
    ensures
        answer == uses(entries@, program@),
{
    let mut at: usize = 0;
    while at < entries.len()
        invariant
            at <= entries@.len(),
            forall|i: int| 0 <= i < at ==> !starts((#[trigger] entries@[i]).value, program@),
        decreases entries@.len() - at,
    {
        let argv = &entries[at].value;
        if argv.len() > 0 && text::same(argv[0].as_str(), program) {
            assert(starts(entries@[at as int].value, program@));
            return true;
        }
        at = at + 1;
    }
    false
}

fn is_used_like(entries: &Vec<Entry<Vec<String>>>, part: &str) -> (answer: bool)
    ensures
        answer == uses_like(entries@, part@),
{
    let mut at: usize = 0;
    while at < entries.len()
        invariant
            at <= entries@.len(),
            forall|i: int|
                0 <= i < at ==> !((#[trigger] entries@[i]).value@.len() > 0 && text::holds(entries@[i].value@[0]@, part@)),
        decreases entries@.len() - at,
    {
        let argv = &entries[at].value;
        if argv.len() > 0 && text::contains(argv[0].as_str(), part) {
            return true;
        }
        at = at + 1;
    }
    false
}

fn add_needed(list: &mut Vec<(String, String)>, relevant: bool, label: &str, program: &str)
    ensures
        program_pairs(final(list)@) == program_pairs(old(list)@) + needed(relevant, label@, program@),
{
    let ghost before = list@;
    if relevant {
        list.push((label.to_string(), program.to_string()));
    }
    assert(program_pairs(list@) =~= program_pairs(before) + needed(relevant, label@, program@));
}

/// The programs that a project needs, which have to be asked for their version.
pub fn programs_to_probe(project: &ProjectConfig) -> (list: Vec<(String, String)>)
    ensures
        program_pairs(list@) == needed_programs(*project),
{
    let entries = &project.commands.entries;
    let mut list: Vec<(String, String)> = Vec::new();
    assert(program_pairs(list@) =~= Seq::empty());
    let node = is_used(entries, "node") || is_used(entries, "npm") || is_used(entries, "npx");
    add_needed(&mut list, node, "Node/npm/npx", "node");
    add_needed(&mut list, is_used(entries, "uv"), "Python/uv", "uv");
    add_needed(&mut list, is_used(entries, "cargo"), "Rust/Cargo", "cargo");
    let browser = project.ui.enabled || is_used_like(entries, "playwright");
    add_needed(&mut list, browser, "Playwright", "npx");
    assert(program_pairs(list@) =~= needed_programs(*project));
    list
}

/// The finding about the approved commands.
pub open spec fn commands_finding(project: Result<ProjectConfig, String>) -> CheckView {
    CheckView {
        name: "project commands"@,
        ok: project is Ok && project->Ok_0.commands.entries@.len() > 0,
        detail: match project {
            Ok(found) => if found.commands.entries@.len() == 0 {
                "none approved; run `bender setup`"@
            } else {
                text::joined(text_map::keys_of(found.commands.entries@), ", "@)
            },
            Err(error) => error@,
        },
        required: true,
    }
}

/// The finding about the runtime of the project.
pub open spec fn runtime_finding(project: ProjectConfig) -> CheckView {
    CheckView {
        name: "project runtime"@,
        ok: project.runtime is Some || !project.ui.enabled,
        detail: if project.runtime is Some {
            "configured"@
        } else {
            "not configured"@
        },
        required: project.ui.enabled,
    }
}

/// The findings about the programs that a project needs.
pub open spec fn program_findings(needed: Seq<(Seq<char>, Seq<char>)>, probes: Seq<Probe>) -> Seq<CheckView> {
    Seq::new(needed.len(), |i: int| program_finding(needed[i].0, probes[i]))
}

/// The findings about the project.
pub open spec fn project_findings(project: Result<ProjectConfig, String>, probes: Seq<Probe>) -> Seq<CheckView> {
    seq![commands_finding(project)] + match project {
        Ok(found) => program_findings(needed_programs(found), probes) + seq![runtime_finding(found)],
        Err(_) => Seq::empty(),
    }
}

fn check_project(project: &Result<ProjectConfig, String>, probes: &Vec<Probe>) -> (checks: Vec<DoctorCheck>)
    requires
        project matches Ok(found) ==> found.wf() && probes@.len() == needed_programs(*found).len(),
    ensures
        model::views(checks@) == project_findings(*project, probes@),
{
    let mut checks: Vec<DoctorCheck> = Vec::new();
    match project {
        Err(error) => {
            checks.push(check("project commands", false, error.as_str(), true));
        },
        Ok(found) => {
            if found.commands.is_empty() {
                checks.push(check("project commands", false, "none approved; run `bender setup`", true));
            } else {
                let names = found.commands.keys();
                checks.push(check("project commands", true, text::join(&names, ", ").as_str(), true));
            }
            assert(model::views(checks@) =~= seq![commands_finding(*project)]);
            let list = programs_to_probe(found);
            let ghost wanted = needed_programs(*found);
            assert(wanted.len() == list@.len());
            let mut at: usize = 0;
            while at < list.len()
                invariant
                    at <= list@.len(),
                    wanted == program_pairs(list@),
                    list@.len() == probes@.len(),
                    model::views(checks@) == seq![commands_finding(*project)] + program_findings(wanted, probes@).take(
                        at as int,
                    ),
                decreases list@.len() - at,
            {
                assert(wanted[at as int] == (list@[at as int].0@, list@[at as int].1@));
                let ghost before = model::views(checks@);
                add_check(&mut checks, program_check(list[at].0.as_str(), &probes[at]));
                assert(model::views(checks@) =~= seq![commands_finding(*project)] + program_findings(
                    wanted,
                    probes@,
                ).take(at + 1));
                at = at + 1;
            }
            assert(program_findings(wanted, probes@).take(at as int) =~= program_findings(wanted, probes@));
            let detail = if found.runtime.is_some() {
                "configured"
            } else {
                "not configured"
            };
            add_check(
                &mut checks,
                check(
                    "project runtime",
                    found.runtime.is_some() || !found.ui.enabled,
                    detail,
                    found.ui.enabled,
                ),
            );
        },
    }
    assert(model::views(checks@) =~= project_findings(*project, probes@));
    checks
}

// ---------------------------------------------------------------------------
// All findings
// ---------------------------------------------------------------------------

/// The finding about the boundary of the workspace: its state can be written to, its root can be
/// read, and what is above it cannot.
pub open spec fn boundary_finding(workspace: Workspace, facts: Seq<PathFact>) -> CheckView {
    CheckView {
        name: "paths remain within workspace"@,
        ok: workspace.write_target(".bender/doctor-probe"@, facts) is Ok && workspace.read_target(workspace.root@, facts) is Ok
            && workspace.read_target(paths::joined_path(workspace.root@, "../"@), facts) is Err,
        detail: "canonical path guard active"@,
        required: true,
    }
}

/// The findings of the examination.
pub open spec fn examined(workspace: Workspace, findings: Findings) -> Seq<CheckView> {
    workspace_findings(workspace, findings) + codex_findings(findings.codex) + seq![
        program_finding("Git"@, findings.git),
    ] + project_findings(findings.project, findings.programs@) + seq![boundary_finding(workspace, findings.facts@)]
}

/// Examines a workspace by what was found in it.
pub fn run(workspace: &Workspace, findings: &Findings) -> (checks: Vec<DoctorCheck>)
    requires
        findings.project matches Ok(project) ==> project.wf() && findings.programs@.len() == needed_programs(project).len(),
    ensures
        model::views(checks@) == examined(*workspace, *findings),
{
    let mut checks = check_workspace(workspace, findings);
    append_checks(&mut checks, check_codex(&findings.codex));
    add_check(&mut checks, program_check("Git", &findings.git));
    append_checks(&mut checks, check_project(&findings.project, &findings.programs));
    let above = paths::join(workspace.root(), "../");
    let confined = workspace.resolve_write(".bender/doctor-probe", &findings.facts).is_ok() && workspace.resolve_read(
        workspace.root(),
        &findings.facts,
    ).is_ok() && workspace.resolve_read(above.as_str(), &findings.facts).is_err();
    add_check(&mut checks, check("paths remain within workspace", confined, "canonical path guard active", true));
    assert(model::views(checks@) =~= examined(*workspace, *findings));
    checks
}

/// Whether every required finding is good.
pub open spec fn healthy(checks: Seq<CheckView>) -> bool {
    forall|i: int| 0 <= i < checks.len() && (#[trigger] checks[i]).required ==> checks[i].ok
}

/// Whether every required finding is good.
pub fn all_required_ok(checks: &Vec<DoctorCheck>) -> (answer: bool)
    ensures
        answer == healthy(model::views(checks@)),
{
    let ghost all = model::views(checks@);
    let mut at: usize = 0;
    while at < checks.len()
        invariant
            at <= checks@.len(),
            all == model::views(checks@),
            forall|i: int| 0 <= i < at && (#[trigger] all[i]).required ==> all[i].ok,
        decreases checks@.len() - at,
    {
        assert(all[at as int] == checks@[at as int]@);
        if checks[at].required && !checks[at].ok {
            return false;
        }
        at = at + 1;
    }
    true
}

/// A workspace without the coding tool, or with one that is not authenticated or lacks a
/// capability, is not healthy.
pub proof fn healthy_workspaces_have_the_tool(workspace: Workspace, findings: Findings)
    requires
        healthy(examined(workspace, findings)),
    ensures
        findings.codex is Some,
        findings.codex->0.authentication is Some,
        findings.codex->0.capabilities is Ok,
        findings.codex->0.capabilities->Ok_0.lacks(true).len() == 0,
{
    let all = examined(workspace, findings);
    let first = workspace_findings(workspace, findings);
    let tool = codex_findings(findings.codex);
    assert forall|i: int| 0 <= i < tool.len() && tool[i].required implies (#[trigger] tool[i]).ok by {
        assert(all[first.len() + i] == tool[i]);
    }
    assert(tool[0].ok);
    let probe = findings.codex->0;
    let able = capability_findings(probe.capabilities);
    assert forall|i: int| 0 <= i < able.len() implies (#[trigger] able[i]).ok by {
        assert(tool[1 + i] == able[i]);
        assert(able[i].required);
    }
    assert(able[0].ok);
    let found = probe.capabilities->Ok_0;
    assert(able[1].ok && able[2].ok && able[3].ok && able[4].ok);
    assert(tool[1 + able.len() as int] == authentication_finding(probe.authentication));
    assert(found.lacks(true) =~= Seq::empty());
}

/// Where the workspace is found to be healthy, its configuration could be read and its own directory is
/// there, Git runs, the project has an approved command and every program that its commands start runs,
/// and paths stay in the workspace.
pub proof fn healthy_workspaces_can_run_jobs(workspace: Workspace, findings: Findings, i: int)
    requires
        healthy(examined(workspace, findings)),
    ensures
        paths::absolute(workspace.root@),
        findings.state_dir_exists,
        findings.config is Ok,
        findings.git is Printed,
        findings.project is Ok,
        findings.project->Ok_0.commands.entries@.len() > 0,
        0 <= i < needed_programs(findings.project->Ok_0).len() ==> findings.programs@[i] is Printed,
        findings.project->Ok_0.ui.enabled ==> findings.project->Ok_0.runtime is Some,
        boundary_finding(workspace, findings.facts@).ok,
{
    let all = examined(workspace, findings);
    let first = workspace_findings(workspace, findings);
    let tool = codex_findings(findings.codex);
    let git = program_finding("Git"@, findings.git);
    let project = project_findings(findings.project, findings.programs@);
    let bound = boundary_finding(workspace, findings.facts@);
    assert(all[0] == first[0] && all[1] == first[1] && all[2] == first[2]);
    assert(all[(first.len() + tool.len()) as int] == git);
    assert forall|k: int| 0 <= k < project.len() && project[k].required implies (#[trigger] project[k]).ok by {
        assert(all[first.len() + tool.len() + 1 + k] == project[k]);
    }
    assert(project[0] == commands_finding(findings.project));
    assert(project[0].ok);
    assert(all[all.len() - 1] == bound);
    let found = findings.project->Ok_0;
    let programs = program_findings(needed_programs(found), findings.programs@);
    if 0 <= i < programs.len() {
        assert(project[1 + i] == programs[i]);
        assert(programs[i].required);
    }
    assert(project[1 + programs.len() as int] == runtime_finding(found));
}

/// The programs that are looked for are those that the commands of the project start: Node for node, npm
/// and npx, uv for uv, Cargo for cargo, and Playwright where the interface is enabled.
pub proof fn programs_are_looked_for_where_they_are_used(project: ProjectConfig, i: int)
    requires
        0 <= i < project.commands.entries@.len(),
        project.commands.entries@[i].value@.len() > 0,
    ensures
        ({
            let program = project.commands.entries@[i].value@[0]@;
            let needed = needed_programs(project);
            &&& program == "node"@ || program == "npm"@ || program == "npx"@ ==> needed.contains(("Node/npm/npx"@, "node"@))
            &&& program == "uv"@ ==> needed.contains(("Python/uv"@, "uv"@))
            &&& program == "cargo"@ ==> needed.contains(("Rust/Cargo"@, "cargo"@))
            &&& project.ui.enabled ==> needed.contains(("Playwright"@, "npx"@))
        }),
{
    let entries = project.commands.entries@;
    let program = entries[i].value@[0]@;
    assert(starts(entries[i].value, program));
    assert(uses(entries, program));
    let one = needed(
        uses(entries, "node"@) || uses(entries, "npm"@) || uses(entries, "npx"@),
        "Node/npm/npx"@,
        "node"@,
    );
    let two = needed(uses(entries, "uv"@), "Python/uv"@, "uv"@);
    let three = needed(uses(entries, "cargo"@), "Rust/Cargo"@, "cargo"@);
    let four = needed(project.ui.enabled || uses_like(entries, "playwright"@), "Playwright"@, "npx"@);
    let all = needed_programs(project);
    assert(all =~= one + two + three + four);
    if one.len() > 0 {
        assert(all[0] == one[0]);
    }
    if two.len() > 0 {
        assert(all[one.len() as int] == two[0]);
    }
    if three.len() > 0 {
        assert(all[(one.len() + two.len()) as int] == three[0]);
    }
    if four.len() > 0 {
        assert(all[(one.len() + two.len() + three.len()) as int] == four[0]);
    }
}

/// The required findings decide, and no other: one that is not required does not make a workspace sick.
pub proof fn only_required_findings_count(checks: Seq<CheckView>, i: int)
    requires
        0 <= i < checks.len(),
    ensures
        checks[i].required && !checks[i].ok ==> !healthy(checks),
        (forall|k: int| 0 <= k < checks.len() ==> (#[trigger] checks[k]).ok || !checks[k].required) ==> healthy(checks),
{
}

} // verus!
