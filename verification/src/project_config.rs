//! The project policy: approved commands, runtime, browser checks, workers and completion rules.

use vstd::prelude::*;

use crate::paths;
use crate::text;
use crate::text_map::TextMap;

verus! {

/// The `project` section.
#[derive(Debug)]
pub struct ProjectSection {
    pub name: String,
}

/// How the application under test is started and found.
#[derive(Debug)]
pub struct RuntimeConfig {
    pub start_command: String,
    pub base_url: String,
    pub healthcheck_url: Option<String>,
    pub startup_timeout_seconds: u64,
}

/// The browser check.
#[derive(Debug)]
pub struct UiConfig {
    pub enabled: bool,
    pub test_command: String,
    pub browser: String,
    pub fail_on_console_error: bool,
    pub ignored_console_patterns: Vec<String>,
}

/// A model that works or reviews.
#[derive(Debug)]
pub struct WorkerSettings {
    pub enabled: bool,
    pub provider: String,
    pub base_url: String,
    pub model: String,
    pub timeout_seconds: u64,
}

/// What a job needs to be complete.
#[derive(Debug)]
pub struct CompletionPolicy {
    pub required_checks: Vec<String>,
    pub max_attempts: u32,
    pub require_approval: bool,
    pub require_review: bool,
}

/// How requirements are drafted.
#[derive(Debug)]
pub struct RequirementsPolicy {
    pub use_primary_model: bool,
}

/// The project policy.
#[derive(Debug)]
pub struct ProjectConfig {
    pub project: ProjectSection,
    pub commands: TextMap<Vec<String>>,
    pub runtime: Option<RuntimeConfig>,
    pub ui: UiConfig,
    pub workers: TextMap<WorkerSettings>,
    pub reviewers: TextMap<WorkerSettings>,
    pub completion: CompletionPolicy,
    pub requirements: RequirementsPolicy,
}

/// Why a command is refused.
#[derive(Debug, Clone, Copy, PartialEq, Eq, Structural)]
pub enum ArgvError {
    Empty,
    PrivilegeEscalation,
    GitPush,
    Docker,
}

impl ArgvError {
    /// The message of the error.
    pub open spec fn text(self) -> Seq<char> {
        match self {
            ArgvError::Empty => "approved command must be a non-empty argv array"@,
            ArgvError::PrivilegeEscalation => "privilege escalation is not allowed"@,
            ArgvError::GitPush => "git push requires a separate explicit action approval"@,
            ArgvError::Docker => "Docker access requires a separate explicit action approval"@,
        }
    }

    /// The message of the error.
    pub fn message(&self) -> (message: String)
        ensures
            message@ == self.text(),
    {
        match self {
            ArgvError::Empty => "approved command must be a non-empty argv array".to_string(),
            ArgvError::PrivilegeEscalation => "privilege escalation is not allowed".to_string(),
            ArgvError::GitPush => "git push requires a separate explicit action approval".to_string(),
            ArgvError::Docker => "Docker access requires a separate explicit action approval".to_string(),
        }
    }
}

/// Why a list of arguments is no acceptable command, where it is none.
pub open spec fn argv_fault(argv: Seq<Seq<char>>) -> Option<ArgvError> {
    if argv.len() == 0 || text::blank(argv[0]) {
        Some(ArgvError::Empty)
    } else if argv[0] == "sudo"@ || argv[0] == "su"@ {
        Some(ArgvError::PrivilegeEscalation)
    } else if argv[0] == "git"@ && argv.len() > 1 && argv[1] == "push"@ {
        Some(ArgvError::GitPush)
    } else if argv[0] == "docker"@ {
        Some(ArgvError::Docker)
    } else {
        None
    }
}

/// Accepts a list of arguments that is a command, escalates no privileges, pushes nothing and does
/// not start containers.
pub fn validate_argv(argv: &[String]) -> (result: Result<(), ArgvError>)
    ensures
        match argv_fault(text::texts(argv@)) {
            None => result is Ok,
            Some(fault) => result == Err::<(), ArgvError>(fault),
        },
{
    let ghost all = text::texts(argv@);
    assert(all.len() == argv@.len());
    if argv.len() == 0 {
        return Err(ArgvError::Empty);
    }
    assert(all[0] == argv@[0]@);
    if text::is_blank(argv[0].as_str()) {
        return Err(ArgvError::Empty);
    }
    if text::same(argv[0].as_str(), "sudo") || text::same(argv[0].as_str(), "su") {
        return Err(ArgvError::PrivilegeEscalation);
    }
    if text::same(argv[0].as_str(), "git") && argv.len() > 1 {
        assert(all[1] == argv@[1]@);
        if text::same(argv[1].as_str(), "push") {
            return Err(ArgvError::GitPush);
        }
    }
    if text::same(argv[0].as_str(), "docker") {
        return Err(ArgvError::Docker);
    }
    Ok(())
}

/// Why a category has no command to run.
#[derive(Debug)]
pub enum CommandError {
    NotApproved(String),
    Refused(ArgvError),
}

impl CommandError {
    /// The message of the error.
    pub open spec fn text(self) -> Seq<char> {
        match self {
            CommandError::NotApproved(category) => "no approved `"@ + category@ + "` command in .bender/project.toml"@,
            CommandError::Refused(fault) => fault.text(),
        }
    }

    /// The message of the error.
    pub fn message(&self) -> (message: String)
        ensures
            message@ == self.text(),
    {
        match self {
            CommandError::NotApproved(category) => "no approved `".to_string().concat(category.as_str()).concat(
                "` command in .bender/project.toml",
            ),
            CommandError::Refused(fault) => fault.message(),
        }
    }
}

/// The default of a switch that is on.
pub fn default_true() -> (value: bool)
    ensures
        value,
{
    true
}

/// How many seconds an application has to become ready.
pub fn default_startup_timeout() -> (value: u64)
    ensures
        value == 90,
{
    90
}

/// How many seconds a worker has for one run.
pub fn default_worker_timeout() -> (value: u64)
    ensures
        value == 1800,
{
    1800
}

/// How many attempts a job has.
pub fn default_attempts() -> (value: u32)
    ensures
        value == 4,
{
    4
}

/// The category of the browser check.
pub fn default_ui_command() -> (value: String)
    ensures
        value@ == "ui"@,
{
    "ui".to_string()
}

/// The browser of the browser check.
pub fn default_browser() -> (value: String)
    ensures
        value@ == "chromium"@,
{
    "chromium".to_string()
}

/// The checks that a job needs.
pub fn default_required_checks() -> (value: Vec<String>)
    ensures
        text::texts(value@) == seq!["unit"@],
{
    let value = vec!["unit".to_string()];
    assert(text::texts(value@) =~= seq!["unit"@]);
    value
}

/// A list of arguments from its parts.
pub fn argv_of(parts: &[&str]) -> (argv: Vec<String>)
    ensures
        text::texts(argv@) == Seq::new(parts@.len(), |i: int| parts@[i]@),
{
    let mut argv: Vec<String> = Vec::new();
    let mut at: usize = 0;
    while at < parts.len()
        invariant
            at <= parts@.len(),
            argv@.len() == at,
            forall|i: int| 0 <= i < at ==> (#[trigger] argv@[i])@ == parts@[i]@,
        decreases parts@.len() - at,
    {
        argv.push(parts[at].to_string());
        at = at + 1;
    }
    assert(text::texts(argv@) =~= Seq::new(parts@.len(), |i: int| parts@[i]@));
    argv
}

impl UiConfig {
    /// Whether this is the policy of a project that says nothing of browser checks.
    pub open spec fn is_default(self) -> bool {
        &&& !self.enabled
        &&& self.test_command@ == "ui"@
        &&& self.browser@ == "chromium"@
        &&& self.fail_on_console_error
        &&& self.ignored_console_patterns@.len() == 0
    }
}

impl Default for UiConfig {
    fn default() -> (config: Self)
        ensures
            config.is_default(),
    {
        UiConfig {
            enabled: false,
            test_command: default_ui_command(),
            browser: default_browser(),
            fail_on_console_error: true,
            ignored_console_patterns: Vec::new(),
        }
    }
}

impl CompletionPolicy {
    /// Whether this is the policy of a project that says nothing of completion.
    pub open spec fn is_default(self) -> bool {
        &&& text::texts(self.required_checks@) == seq!["unit"@]
        &&& self.max_attempts == 4
        &&& self.require_approval
        &&& !self.require_review
    }
}

impl Default for CompletionPolicy {
    fn default() -> (policy: Self)
        ensures
            policy.is_default(),
    {
        CompletionPolicy {
            required_checks: default_required_checks(),
            max_attempts: default_attempts(),
            require_approval: true,
            require_review: false,
        }
    }
}

/// The files by which the tools of a project are known.
#[derive(Debug, Clone, Copy)]
pub struct ProjectFiles {
    pub cargo_manifest: bool,
    pub package_json: bool,
    pub pyproject: bool,
}

/// The command that is proposed for a category. Where a project holds several of the files, the
/// later of them in this order decides: Cargo manifest, package.json, pyproject.
pub open spec fn proposed_command(category: Seq<char>, files: ProjectFiles) -> Option<Seq<Seq<char>>> {
    if category == "build"@ {
        if files.package_json {
            Some(seq!["npm"@, "run"@, "build"@])
        } else if files.cargo_manifest {
            Some(seq!["cargo"@, "build"@, "--locked"@])
        } else {
            None
        }
    } else if category == "unit"@ {
        if files.pyproject {
            Some(seq!["uv"@, "run"@, "pytest"@, "-q"@])
        } else if files.package_json {
            Some(seq!["npm"@, "test"@])
        } else if files.cargo_manifest {
            Some(seq!["cargo"@, "test"@, "--locked"@])
        } else {
            None
        }
    } else {
        None
    }
}

impl ProjectConfig {
    /// Whether the maps of the policy keep their order.
    pub open spec fn wf(self) -> bool {
        self.commands.wf() && self.workers.wf() && self.reviewers.wf()
    }

    /// The command of a category, where one is approved.
    pub open spec fn approved(self, category: Seq<char>) -> Option<Seq<Seq<char>>> {
        if self.commands@.contains_key(category) {
            Some(text::texts(self.commands@[category]@))
        } else {
            None
        }
    }

    /// Whether the policy is the default one in all but its name and commands.
    pub open spec fn is_default_but_commands(self) -> bool {
        &&& self.runtime is None
        &&& self.ui.is_default()
        &&& self.workers@ == Map::<Seq<char>, WorkerSettings>::empty()
        &&& self.reviewers@ == Map::<Seq<char>, WorkerSettings>::empty()
        &&& self.completion.is_default()
        &&& !self.requirements.use_primary_model
    }

    /// Where the policy of the project at `root` is stored.
    pub fn path(root: &str) -> (path: String)
        ensures
            path@ == paths::joined_path(root@, ".bender/project.toml"@),
    {
        paths::join(root, ".bender/project.toml")
    }

    /// The approved command of a category.
    pub fn command(&self, category: &str) -> (result: Result<&Vec<String>, CommandError>)
        requires
            self.wf(),
        ensures
            match self.approved(category@) {
                None => result is Err && result->Err_0.text() == "no approved `"@ + category@
                    + "` command in .bender/project.toml"@,
                Some(argv) => match argv_fault(argv) {
                    Some(fault) => result == Err::<&Vec<String>, CommandError>(CommandError::Refused(fault)),
                    None => result is Ok && *result->Ok_0 == self.commands@[category@],
                },
            },
    {
        match self.commands.get(category) {
            None => Err(CommandError::NotApproved(category.to_string())),
            Some(argv) => match validate_argv(argv.as_slice()) {
                Ok(_) => Ok(argv),
                Err(fault) => Err(CommandError::Refused(fault)),
            },
        }
    }

    /// The policy that is proposed for the project at `root`, from the files that it holds.
    pub fn detected(root: &str, files: ProjectFiles) -> (config: Self)
        ensures
            config.wf(),
            config.is_default_but_commands(),
            config.project.name@ == match paths::name_of(root@) {
                Some(name) => name,
                None => "project"@,
            },
            forall|category: Seq<char>| #[trigger] config.approved(category) == proposed_command(category, files),
    {
        let mut config = ProjectConfig::default();
        config.project.name = match paths::file_name(root) {
            Some(name) => name,
            None => "project".to_string(),
        };
        proof {
            reveal_strlit("build");
            reveal_strlit("unit");
            assert("build"@.len() != "unit"@.len());
        }
        let ghost start = config;
        if files.cargo_manifest {
            let build = argv_of(&["cargo", "build", "--locked"]);
            let unit = argv_of(&["cargo", "test", "--locked"]);
            assert(text::texts(build@) =~= seq!["cargo"@, "build"@, "--locked"@]);
            assert(text::texts(unit@) =~= seq!["cargo"@, "test"@, "--locked"@]);
            config.commands.insert("build".to_string(), build);
            config.commands.insert("unit".to_string(), unit);
        }
        if files.package_json {
            let build = argv_of(&["npm", "run", "build"]);
            let unit = argv_of(&["npm", "test"]);
            assert(text::texts(build@) =~= seq!["npm"@, "run"@, "build"@]);
            assert(text::texts(unit@) =~= seq!["npm"@, "test"@]);
            config.commands.insert("build".to_string(), build);
            config.commands.insert("unit".to_string(), unit);
        }
        if files.pyproject {
            let unit = argv_of(&["uv", "run", "pytest", "-q"]);
            assert(text::texts(unit@) =~= seq!["uv"@, "run"@, "pytest"@, "-q"@]);
            config.commands.insert("unit".to_string(), unit);
        }
        config
    }
}

impl Default for ProjectConfig {
    fn default() -> (config: Self)
        ensures
            config.wf(),
            config.is_default_but_commands(),
            config.project.name@ == Seq::<char>::empty(),
            config.commands@ == Map::<Seq<char>, Vec<String>>::empty(),
            config.commands.entries@.len() == 0,
    {
        ProjectConfig {
            project: ProjectSection { name: String::new() },
            commands: TextMap::new(),
            runtime: None,
            ui: UiConfig::default(),
            workers: TextMap::new(),
            reviewers: TextMap::new(),
            completion: CompletionPolicy::default(),
            requirements: RequirementsPolicy { use_primary_model: false },
        }
    }
}

/// Every command that is proposed for a project is acceptable.
pub proof fn proposed_commands_are_acceptable(category: Seq<char>, files: ProjectFiles)
    requires
        proposed_command(category, files) is Some,
    ensures
        argv_fault(proposed_command(category, files)->0) is None,
{
    reveal_strlit("npm");
    reveal_strlit("cargo");
    reveal_strlit("uv");
    reveal_strlit("sudo");
    reveal_strlit("su");
    reveal_strlit("git");
    reveal_strlit("docker");
    let program = proposed_command(category, files)->0[0];
    assert(program == "npm"@ || program == "cargo"@ || program == "uv"@);
    text::lemma_blank(program);
    assert(!text::white(program[0]));
    assert("npm"@[0] == 'n');
    assert("git"@[0] == 'g');
    assert("su"@[0] == 's');
    assert("uv"@[0] == 'u');
}

/// What is proposed, in words: Python projects are tested with pytest, npm projects built and tested
/// with npm, Cargo projects built and tested with Cargo, and where several of the files are there the
/// later of these does not count. Nothing is proposed without one of the files, nor for another category.
pub proof fn proposals_fit_the_files(category: Seq<char>, files: ProjectFiles)
    ensures
        files.pyproject ==> proposed_command("unit"@, files) == Some(seq!["uv"@, "run"@, "pytest"@, "-q"@]),
        files.package_json && !files.pyproject ==> proposed_command("unit"@, files) == Some(seq!["npm"@, "test"@]),
        files.package_json ==> proposed_command("build"@, files) == Some(seq!["npm"@, "run"@, "build"@]),
        files.cargo_manifest && !files.package_json && !files.pyproject ==> proposed_command("unit"@, files) == Some(
            seq!["cargo"@, "test"@, "--locked"@],
        ),
        files.cargo_manifest && !files.package_json ==> proposed_command("build"@, files) == Some(
            seq!["cargo"@, "build"@, "--locked"@],
        ),
        !files.cargo_manifest && !files.package_json ==> proposed_command("build"@, files) is None,
        !files.cargo_manifest && !files.package_json && !files.pyproject ==> proposed_command("unit"@, files) is None,
        category != "build"@ && category != "unit"@ ==> proposed_command(category, files) is None,
{
    reveal_strlit("build");
    reveal_strlit("unit");
    assert("build"@.len() != "unit"@.len());
}

/// No command is proposed both to build a project and to test it; and what is proposed for the units
/// runs tests, what is proposed for the build builds.
pub proof fn builds_are_no_tests(files: ProjectFiles)
    ensures
        proposed_command("unit"@, files) is Some ==> proposed_command("unit"@, files) != proposed_command("build"@, files),
        proposed_command("build"@, files) is Some ==> proposed_command("build"@, files)->0.contains("build"@),
        proposed_command("unit"@, files) is Some ==> !proposed_command("unit"@, files)->0.contains("build"@) && (
        proposed_command("unit"@, files)->0.contains("test"@) || proposed_command("unit"@, files)->0.contains("pytest"@)),
{
    reveal_strlit("build");
    reveal_strlit("unit");
    reveal_strlit("test");
    reveal_strlit("pytest");
    reveal_strlit("cargo");
    reveal_strlit("npm");
    reveal_strlit("uv");
    reveal_strlit("run");
    reveal_strlit("-q");
    reveal_strlit("--locked");
    assert("build"@.len() != "unit"@.len());
    assert("cargo"@[0] == 'c');
    assert("build"@[0] == 'b');
    let python = seq!["uv"@, "run"@, "pytest"@, "-q"@];
    assert(python[2] == "pytest"@);
    let node = seq!["npm"@, "test"@];
    assert(node[1] == "test"@);
    let cargo = seq!["cargo"@, "test"@, "--locked"@];
    assert(cargo[1] == "test"@);
    let built = seq!["npm"@, "run"@, "build"@];
    assert(built[2] == "build"@);
    let compiled = seq!["cargo"@, "build"@, "--locked"@];
    assert(compiled[1] == "build"@);
}

/// A command is refused that has no program, that takes on the rights of somebody else, that pushes, or
/// that uses Docker; every other command is accepted, whatever its arguments are.
pub proof fn dangerous_commands_are_refused(argv: Seq<Seq<char>>)
    ensures
        argv.len() == 0 ==> argv_fault(argv) == Some(ArgvError::Empty),
        argv.len() > 0 && argv[0] == "sudo"@ ==> argv_fault(argv) == Some(ArgvError::PrivilegeEscalation),
        argv.len() > 0 && argv[0] == "su"@ ==> argv_fault(argv) == Some(ArgvError::PrivilegeEscalation),
        argv.len() > 1 && argv[0] == "git"@ && argv[1] == "push"@ ==> argv_fault(argv) == Some(ArgvError::GitPush),
        argv.len() > 0 && argv[0] == "docker"@ ==> argv_fault(argv) == Some(ArgvError::Docker),
        argv.len() > 1 && argv[0] == "git"@ && argv[1] != "push"@ ==> argv_fault(argv) is None,
        argv.len() > 0 && !text::blank(argv[0]) && argv[0] != "sudo"@ && argv[0] != "su"@ && argv[0] != "git"@ && argv[0]
            != "docker"@ ==> argv_fault(argv) is None,
        argv.len() > 0 && text::blank(argv[0]) ==> argv_fault(argv) == Some(ArgvError::Empty),
{
    reveal_strlit("sudo");
    reveal_strlit("su");
    reveal_strlit("git");
    reveal_strlit("docker");
    assert("sudo"@.len() == 4 && "su"@.len() == 2 && "git"@.len() == 3 && "docker"@.len() == 6);
    text::lemma_blank("sudo"@);
    text::lemma_blank("su"@);
    text::lemma_blank("git"@);
    text::lemma_blank("docker"@);
    assert(!text::white("sudo"@[0]));
    assert(!text::white("su"@[0]));
    assert(!text::white("git"@[0]));
    assert(!text::white("docker"@[0]));
}

/// A policy that nobody changed requires the unit tests, allows four attempts and asks for the approval of
/// the specification but for no review; it starts no application, tests no interface and plans without a
/// model.
pub proof fn unchanged_policies_require_the_unit_tests(policy: ProjectConfig)
    requires
        policy.is_default_but_commands(),
    ensures
        text::texts(policy.completion.required_checks@) == seq!["unit"@],
        policy.completion.max_attempts == 4,
        policy.completion.require_approval,
        !policy.completion.require_review,
        policy.runtime is None,
        !policy.ui.enabled,
        policy.ui.test_command@ == "ui"@,
        policy.ui.browser@ == "chromium"@,
        policy.ui.fail_on_console_error,
        policy.ui.ignored_console_patterns@.len() == 0,
        !policy.requirements.use_primary_model,
{
}

} // verus!
