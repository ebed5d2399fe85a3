//! The web interface: what its requests do to the configuration, the jobs and the chats.

use vstd::prelude::*;
use vstd::utf8::*;

use crate::chats;
use crate::chats::{ChatError, ChatStore, ChatsView, MessageView};
use crate::command_runner;
use crate::config;
use crate::config::{Config, ConfigError, ModelFamily, Provider, ToolPathConfig};
use crate::identity;
use crate::identity::{Identity, IdentityView};
use crate::job_store;
use crate::job_store::{JobStore, StoreView};
use crate::jobs;
use crate::jobs::{AcceptanceCriterion, CriterionView, Job, JobError, JobState};
use crate::json;
use crate::lists;
use crate::model;
use crate::paths;
use crate::replies;
use crate::text;
use crate::tools;
use crate::tools::{PendingToolCall, Tool, ToolResult};
use crate::workspace::{PathFact, Workspace};

verus! {

// ---------------------------------------------------------------------------
// Settings
// ---------------------------------------------------------------------------

/// The settings of a form. What is missing or blank stays as it is, but for the controller.
#[derive(Debug)]
pub struct SaveConfigRequest {
    pub controller_npub: Option<String>,
    pub openai_api_key: Option<String>,
    pub anthropic_api_key: Option<String>,
    pub deepseek_api_key: Option<String>,
    pub provider: Provider,
    pub model: String,
    pub ollama_base_url: Option<String>,
    pub llama_cpp_base_url: Option<String>,
    pub llama_cpp_api_key: Option<String>,
}

/// Why settings are refused.
#[derive(Debug, Clone, Copy, PartialEq, Eq, Structural)]
pub enum SettingsError {
    UnsupportedModel,
    InvalidController,
}

impl SettingsError {
    /// The message of the error.
    pub open spec fn text(self) -> Seq<char> {
        match self {
            SettingsError::UnsupportedModel => "unsupported model"@,
            SettingsError::InvalidController => "invalid controller_npub"@,
        }
    }

    /// The message of the error.
    pub fn message(&self) -> (message: String)
        ensures
            message@ == self.text(),
    {
        match self {
            SettingsError::UnsupportedModel => "unsupported model".to_string(),
            SettingsError::InvalidController => "invalid controller_npub".to_string(),
        }
    }
}

/// What a field of a form gives, where it is filled in.
pub open spec fn filled(value: Option<String>) -> Option<Seq<char>> {
    match value {
        Some(inner) => if text::blank(inner@) {
            None
        } else {
            Some(text::trimmed(inner@))
        },
        None => None,
    }
}

fn filled_in(value: &Option<String>) -> (result: Option<String>)
    ensures
        model::view_of(result) == filled(*value),
{
    match value {
        Some(inner) => {
            let trimmed = text::trim(inner.as_str());
            if trimmed.as_str().is_empty() {
                None
            } else {
                Some(trimmed)
            }
        },
        None => None,
    }
}

/// A setting after a form: what was filled in, else what it was.
pub open spec fn set_or_kept(before: Option<String>, given: Option<String>) -> Option<Seq<char>> {
    match filled(given) {
        Some(value) => Some(value),
        None => model::view_of(before),
    }
}

/// A setting that always has a value, after a form.
pub open spec fn text_or_kept(before: Seq<char>, given: Option<String>) -> Seq<char> {
    match filled(given) {
        Some(value) => value,
        None => before,
    }
}

/// Whether a configuration is another one after a form was saved.
pub open spec fn configured(before: Config, request: SaveConfigRequest, after: Config) -> bool {
    &&& after.name@ == "Bender"@
    &&& after.provider == request.provider
    &&& after.model@ == request.model@
    &&& model::view_of(after.controller_npub) == filled(request.controller_npub)
    &&& model::view_of(after.openai_api_key) == set_or_kept(before.openai_api_key, request.openai_api_key)
    &&& model::view_of(after.anthropic_api_key) == set_or_kept(before.anthropic_api_key, request.anthropic_api_key)
    &&& model::view_of(after.deepseek_api_key) == set_or_kept(before.deepseek_api_key, request.deepseek_api_key)
    &&& model::view_of(after.llama_cpp_api_key) == set_or_kept(before.llama_cpp_api_key, request.llama_cpp_api_key)
    &&& after.ollama_base_url@ == text_or_kept(before.ollama_base_url@, request.ollama_base_url)
    &&& after.llama_cpp_base_url@ == text_or_kept(before.llama_cpp_base_url@, request.llama_cpp_base_url)
    &&& after == (Config {
        name: after.name,
        provider: after.provider,
        model: after.model,
        controller_npub: after.controller_npub,
        openai_api_key: after.openai_api_key,
        anthropic_api_key: after.anthropic_api_key,
        deepseek_api_key: after.deepseek_api_key,
        llama_cpp_api_key: after.llama_cpp_api_key,
        ollama_base_url: after.ollama_base_url,
        llama_cpp_base_url: after.llama_cpp_base_url,
        ..before
    })
}

/// Takes the settings of a form. Where the model is not one of the provider nothing changes. Where the
/// controller is no key the settings are taken and the error says that they must not be stored.
pub fn save_config(config: &mut Config, family: &ModelFamily, request: SaveConfigRequest) -> (result: Result<
    (),
    SettingsError,
>)
    ensures
        if !config::model_allowed(request.provider, *family, request.model@) {
            result == Err::<(), SettingsError>(SettingsError::UnsupportedModel) && *final(config) == *old(config)
        } else {
            &&& configured(*old(config), request, *final(config))
            &&& result == match filled(request.controller_npub) {
                Some(npub) => if identity::key_of_npub(npub) is Some {
                    Ok::<(), SettingsError>(())
                } else {
                    Err::<(), SettingsError>(SettingsError::InvalidController)
                },
                None => Ok::<(), SettingsError>(()),
            }
        },
{
    if !config::is_allowed_model_id(request.provider, family, request.model.as_str()) {
        return Err(SettingsError::UnsupportedModel);
    }
    config.settle_name();
    config.provider = request.provider;
    config.model = request.model;
    config.controller_npub = filled_in(&request.controller_npub);
    if let Some(value) = filled_in(&request.openai_api_key) {
        config.openai_api_key = Some(value);
    }
    if let Some(value) = filled_in(&request.anthropic_api_key) {
        config.anthropic_api_key = Some(value);
    }
    if let Some(value) = filled_in(&request.deepseek_api_key) {
        config.deepseek_api_key = Some(value);
    }
    if let Some(value) = filled_in(&request.ollama_base_url) {
        config.ollama_base_url = value;
    }
    if let Some(value) = filled_in(&request.llama_cpp_base_url) {
        config.llama_cpp_base_url = value;
    }
    if let Some(value) = filled_in(&request.llama_cpp_api_key) {
        config.llama_cpp_api_key = Some(value);
    }
    proof {
        if let Some(npub) = filled(request.controller_npub) {
            text::trimmed_twice(request.controller_npub->0@);
        }
    }
    match config.controller() {
        Ok(_) => Ok(()),
        Err(_) => Err(SettingsError::InvalidController),
    }
}

/// Whether a configuration is another one after it was reset for a pair of keys: nothing is set, but
/// where it listens, its relays and its password with the session stay.
pub open spec fn was_reset(before: Config, keys: IdentityView, after: Config) -> bool {
    &&& after.is_unset(keys)
    &&& after.bind == before.bind
    &&& text::texts(after.relays@) == text::texts(before.relays@)
    &&& after.auth_salt == before.auth_salt
    &&& after.auth_password_hash == before.auth_password_hash
    &&& after.auth_session_hash == before.auth_session_hash
}

fn reset(config: &Config, keys: Identity) -> (fresh: Config)
    ensures
        was_reset(*config, keys@, fresh),
{
    let mut fresh = Config::for_keys(keys);
    fresh.bind = config.bind.clone();
    fresh.relays = model::copy_texts(&config.relays);
    fresh.auth_salt = config.auth_salt.clone();
    fresh.auth_password_hash = config.auth_password_hash.clone();
    fresh.auth_session_hash = config.auth_session_hash.clone();
    fresh
}

/// Clears the settings. The orchestrator keeps its keys, and no tool waits for approval any more.
pub fn clear_config(config: &mut Config, pending: &mut Option<PendingToolCall>) -> (result: Result<(), ConfigError>)
    ensures
        match identity::identity_of(old(config).secret_key@) {
            Some(keys) => result is Ok && was_reset(*old(config), keys, *final(config)) && *final(pending) is None,
            None => result == Err::<(), ConfigError>(ConfigError::InvalidSecretKey) && *final(config) == *old(config)
                && *final(pending) == *old(pending),
        },
{
    match config.keys() {
        Ok(keys) => {
            let fresh = reset(config, keys);
            *config = fresh;
            *pending = None;
            Ok(())
        },
        Err(error) => Err(error),
    }
}

/// Retires the orchestrator: its keys are replaced by new ones and its settings and chats are gone.
pub fn retire_bender(config: &mut Config, pending: &mut Option<PendingToolCall>, chats: &mut ChatStore, keys: Identity)
    ensures
        was_reset(*old(config), keys@, *final(config)),
        *final(pending) is None,
        final(chats)@ == (ChatsView { active_web: None, active_nostr: None, chats: Seq::empty() }),
{
    let fresh = reset(config, keys);
    *config = fresh;
    *pending = None;
    *chats = ChatStore::default();
}

/// The models that can be chosen: those of the provider that are known and those that it lists.
pub fn model_list(provider: Provider, family: &ModelFamily, listed: &Vec<String>) -> (models: Vec<String>)
    ensures
        text::texts(models@) == lists::sorted(config::known_models(provider, *family) + text::texts(listed@)),
{
    let mut all = config::available_models(provider, family);
    let ghost known = all@;
    let mut more = model::copy_texts(listed);
    let ghost added = more@;
    all.append(&mut more);
    assert(text::texts(all@) =~= text::texts(known) + text::texts(added));
    lists::sort_unique(&all)
}

// ---------------------------------------------------------------------------
// Directories of tools
// ---------------------------------------------------------------------------

/// What was found at the path of a directory of tools: where the path leads or why it leads nowhere,
/// whether that is a directory, whether it is that of a tool, and whether it holds those of tools or
/// why that could not be read.
#[derive(Debug)]
pub struct ToolFolder {
    pub canonical: Result<String, String>,
    pub is_directory: bool,
    pub has_manifest: bool,
    pub holds_tools: Result<bool, String>,
}

/// Why a directory of tools is refused.
#[derive(Debug)]
pub enum ToolPathError {
    Missing,
    Unreadable { path: String, error: String },
    Outside,
    NotADirectory,
    Unlisted(String),
    NoTools,
}

impl ToolPathError {
    /// The message of the error.
    pub open spec fn text(self) -> Seq<char> {
        match self {
            ToolPathError::Missing => "tool path is required"@,
            ToolPathError::Unreadable { path, error } => "could not read tool path: "@ + path@ + ": "@ + error@,
            ToolPathError::Outside => "tool folders must be inside this workspace at .bender/tools"@,
            ToolPathError::NotADirectory => "tool path must be a folder"@,
            ToolPathError::Unlisted(error) => error@,
            ToolPathError::NoTools => "tool path must contain bender-tool.toml or tool folders"@,
        }
    }

    /// The message of the error.
    pub fn message(&self) -> (message: String)
        ensures
            message@ == self.text(),
    {
        match self {
            ToolPathError::Missing => "tool path is required".to_string(),
            ToolPathError::Unreadable { path, error } => "could not read tool path: ".to_string().concat(path.as_str()).concat(
                ": ",
            ).concat(error.as_str()),
            ToolPathError::Outside => "tool folders must be inside this workspace at .bender/tools".to_string(),
            ToolPathError::NotADirectory => "tool path must be a folder".to_string(),
            ToolPathError::Unlisted(error) => error.clone(),
            ToolPathError::NoTools => "tool path must contain bender-tool.toml or tool folders".to_string(),
        }
    }

    /// Whether the configuration, which has lost its directories of tools, is stored nevertheless.
    pub fn is_stored(&self) -> (answer: bool)
        ensures
            answer == !(*self is Unlisted),
    {
        match self {
            ToolPathError::Unlisted(_) => false,
            _ => true,
        }
    }
}

/// Whether a place may hold tools: reading it stays in the workspace, and it is where tools have to be.
pub open spec fn holds_workspace_tools(workspace: Workspace, place: Seq<char>, facts: Seq<PathFact>) -> bool {
    &&& workspace.read_target(place, facts) is Ok
    &&& paths::inside(place, tools::tools_root(workspace.root@))
}

/// The message with which a directory of tools is refused, where it is.
pub open spec fn folder_fault(workspace: Workspace, path: Seq<char>, folder: ToolFolder, facts: Seq<PathFact>) -> Option<
    Seq<char>,
> {
    let wanted = text::trimmed(path);
    if wanted.len() == 0 {
        Some(ToolPathError::Missing.text())
    } else {
        match folder.canonical {
            Err(error) => Some("could not read tool path: "@ + wanted + ": "@ + error@),
            Ok(place) => if !holds_workspace_tools(workspace, place@, facts) {
                Some(ToolPathError::Outside.text())
            } else if !folder.is_directory {
                Some(ToolPathError::NotADirectory.text())
            } else if folder.has_manifest {
                None
            } else {
                match folder.holds_tools {
                    Err(error) => Some(error@),
                    Ok(true) => None,
                    Ok(false) => Some(ToolPathError::NoTools.text()),
                }
            },
        }
    }
}

/// Makes a directory the one that holds the tools. Directories that held them before are dropped, also
/// where the new one is refused.
pub fn add_tool_path(
    config: &mut Config,
    workspace: &Workspace,
    path: &str,
    folder: &ToolFolder,
    facts: &Vec<PathFact>,
) -> (result: Result<(), ToolPathError>)
    ensures
        *final(config) == (Config { tool_paths: final(config).tool_paths, ..*old(config) }),
        match folder_fault(*workspace, path@, *folder, facts@) {
            Some(message) => result is Err && result->Err_0.text() == message && final(config).tool_paths@.len() == 0,
            None => {
                &&& result is Ok
                &&& final(config).tool_paths@.len() == 1
                &&& final(config).tool_paths@[0].enabled
                &&& Ok::<Seq<char>, String>(final(config).tool_paths@[0].path@) == match folder.canonical {
                    Ok(place) => Ok::<Seq<char>, String>(place@),
                    Err(error) => Err::<Seq<char>, String>(error),
                }
            },
        },
        result matches Err(error) ==> (error is Unlisted <==> {
            &&& text::trimmed(path@).len() > 0
            &&& folder.canonical is Ok
            &&& holds_workspace_tools(*workspace, folder.canonical->Ok_0@, facts@)
            &&& folder.is_directory
            &&& !folder.has_manifest
            &&& folder.holds_tools is Err
        }),
{
    config.tool_paths = Vec::new();
    let wanted = text::trim(path);
    if wanted.as_str().is_empty() {
        return Err(ToolPathError::Missing);
    }
    let place = match &folder.canonical {
        Ok(place) => place,
        Err(error) => {
            return Err(ToolPathError::Unreadable { path: wanted, error: error.clone() });
        },
    };
    let readable = workspace.resolve_read(place.as_str(), facts).is_ok();
    if !readable || !tools::may_hold_tools(place.as_str(), workspace.root()) {
        return Err(ToolPathError::Outside);
    }
    if !folder.is_directory {
        return Err(ToolPathError::NotADirectory);
    }
    if !folder.has_manifest {
        match &folder.holds_tools {
            Ok(holds) => {
                if !*holds {
                    return Err(ToolPathError::NoTools);
                }
            },
            Err(error) => {
                return Err(ToolPathError::Unlisted(error.clone()));
            },
        }
    }
    let mut tool_paths: Vec<ToolPathConfig> = Vec::new();
    tool_paths.push(ToolPathConfig { path: place.clone(), enabled: true });
    config.tool_paths = tool_paths;
    Ok(())
}

/// Why no directory was picked.
#[derive(Debug, Clone, Copy, PartialEq, Eq, Structural)]
pub enum PickError {
    NoPicker,
    NothingSelected,
}

impl PickError {
    /// The message of the error.
    pub fn message(&self) -> (message: String)
        ensures
            message@ == match *self {
                PickError::NoPicker => "folder picker is not available; paste the folder path instead"@,
                PickError::NothingSelected => "no folder selected"@,
            },
    {
        match self {
            PickError::NoPicker => "folder picker is not available; paste the folder path instead".to_string(),
            PickError::NothingSelected => "no folder selected".to_string(),
        }
    }
}

/// The directory that was picked, from what the program that picks it printed.
pub fn picked_folder(succeeded: bool, stdout: &Vec<u8>) -> (result: Result<String, PickError>)
    ensures
        ({
            let path = text::trimmed(command_runner::lossy_text(stdout@));
            if !succeeded {
                result matches Err(PickError::NoPicker)
            } else if path.len() == 0 {
                result matches Err(PickError::NothingSelected)
            } else {
                result is Ok && result->Ok_0@ == path
            }
        }),
{
    if !succeeded {
        return Err(PickError::NoPicker);
    }
    let path = text::trim(command_runner::text_of_bytes(stdout).as_str());
    if path.as_str().is_empty() {
        return Err(PickError::NothingSelected);
    }
    Ok(path)
}

/// Whether a directory looks like one in which a build puts its results.
pub open spec fn is_build_output(root: Seq<char>) -> bool {
    let parts = paths::parts_of(root);
    exists|i: int|
        0 <= i < parts.len() - 1 && #[trigger] parts[i] == "target"@ && (parts[i + 1] == "release"@ || parts[i + 1]
            == "debug"@)
}

/// What the user is warned of, where the project looks like a directory in which a build puts its
/// results.
pub fn project_warning(project_root: &str) -> (warning: Option<String>)
    ensures
        model::view_of(warning) == if is_build_output(project_root@) {
            Some(
                "This looks like a Cargo build-output folder. Bender controls its launch directory; cd to the intended project and run the globally installed bender binary there."@,
            )
        } else {
            None
        },
{
    let parts = paths::parts(project_root);
    let ghost all = text::texts(parts@);
    let mut at: usize = 1;
    while at < parts.len()
        invariant
            1 <= at,
            at <= parts@.len() || at == 1,
            all == text::texts(parts@),
            all == paths::parts_of(project_root@),
            forall|i: int|
                0 <= i < at - 1 && i < all.len() - 1 ==> !(#[trigger] all[i] == "target"@ && (all[i + 1] == "release"@ || all[i
                    + 1] == "debug"@)),
        decreases parts@.len() - at,
    {
        assert(all[at - 1] == parts@[at - 1]@);
        assert(all[at as int] == parts@[at as int]@);
        if text::same(parts[at - 1].as_str(), "target") && (text::same(parts[at].as_str(), "release") || text::same(
            parts[at].as_str(),
            "debug",
        )) {
            assert(is_build_output(project_root@));
            return Some(
                "This looks like a Cargo build-output folder. Bender controls its launch directory; cd to the intended project and run the globally installed bender binary there.".to_string(),
            );
        }
        at = at + 1;
    }
    None
}

// ---------------------------------------------------------------------------
// Tasks
// ---------------------------------------------------------------------------

/// An image that comes with a task.
#[derive(Debug)]
pub struct AskImage {
    pub name: String,
    pub media_type: String,
    pub data_url: String,
}

/// A task, answers to questions about one, or an approval.
#[derive(Debug)]
pub struct AskRequest {
    pub instruction: String,
    pub chat_id: Option<String>,
    pub images: Vec<AskImage>,
}

/// Why a task is refused.
#[derive(Debug)]
pub enum AskError {
    NothingToApprove,
    EmptyTask,
    Job(JobError),
}

impl AskError {
    /// The message of the error.
    pub fn message(&self) -> (message: String)
        ensures
            message@ == match *self {
                AskError::NothingToApprove => "no web job is awaiting approval"@,
                AskError::EmptyTask => "task cannot be empty"@,
                AskError::Job(error) => error.text(),
            },
    {
        match self {
            AskError::NothingToApprove => "no web job is awaiting approval".to_string(),
            AskError::EmptyTask => "task cannot be empty".to_string(),
            AskError::Job(error) => error.message(),
        }
    }
}

/// What comes of a task: a reply, or a job that has to be run before there is one.
#[derive(Debug)]
pub enum Asked {
    Reply { chat_id: String, message: String },
    Run { chat_id: String, job: usize },
}

/// The criteria of a job that was asked for in the web interface.
pub open spec fn task_criteria() -> Seq<CriterionView> {
    seq![
        jobs::fresh_criterion(
            "implementation"@,
            "The clarified request is implemented within this workspace."@,
            seq!["required_check"@],
        ),
        jobs::fresh_criterion("checks"@, "All configured required checks pass."@, seq!["required_check"@]),
    ]
}

/// The criteria of a job that was asked for in the web interface.
pub fn standard_criteria() -> (criteria: Vec<AcceptanceCriterion>)
    ensures
        model::views(criteria@) == task_criteria(),
{
    let criteria = vec![
        replies::checked_criterion(
            "implementation",
            "The clarified request is implemented within this workspace.",
        ),
        replies::checked_criterion("checks", "All configured required checks pass."),
    ];
    assert(model::views(criteria@) =~= task_criteria());
    criteria
}

/// What is said of the images that come with a task.
pub open spec fn attachment_note(count: nat) -> Seq<char> {
    if count == 0 {
        ""@
    } else {
        "\n"@ + text::digits(count) + " image attachment(s) were recorded but are not forwarded to Codex CLI yet."@
    }
}

fn note_on_attachments(count: usize) -> (note: String)
    ensures
        note@ == attachment_note(count as nat),
{
    if count == 0 {
        "".to_string()
    } else {
        "\n".to_string().concat(text::decimal(count as u64).as_str()).concat(
            " image attachment(s) were recorded but are not forwarded to Codex CLI yet.",
        )
    }
}

/// How an image is shown in a chat.
pub open spec fn image_line(image: AskImage) -> Seq<char> {
    image.name@ + " ("@ + image.media_type@ + ", "@ + text::digits(encode_utf8(image.data_url@).len()) + " bytes)"@
}

/// A task as it is shown in a chat.
pub open spec fn shown_task(request: AskRequest) -> Seq<char> {
    if request.images@.len() == 0 {
        request.instruction@
    } else {
        request.instruction@ + "\n\n["@ + text::digits(request.images@.len()) + " image attachment(s): "@ + text::joined(
            Seq::new(request.images@.len(), |i: int| image_line(request.images@[i])),
            ", "@,
        ) + "]"@
    }
}

/// The task as it is shown in a chat.
pub fn user_message(request: &AskRequest) -> (message: String)
    ensures
        message@ == shown_task(*request),
{
    if request.images.len() == 0 {
        return request.instruction.clone();
    }
    let ghost shown = Seq::new(request.images@.len(), |i: int| image_line(request.images@[i]));
    let mut lines: Vec<String> = Vec::new();
    let mut at: usize = 0;
    while at < request.images.len()
        invariant
            at <= request.images@.len(),
            lines@.len() == at,
            forall|i: int| 0 <= i < at ==> (#[trigger] lines@[i])@ == image_line(request.images@[i]),
        decreases request.images@.len() - at,
    {
        let image = &request.images[at];
        let size: usize = image.data_url.as_str().as_bytes().len();
        lines.push(
            image.name.clone().concat(" (").concat(image.media_type.as_str()).concat(", ").concat(
                text::decimal(size as u64).as_str(),
            ).concat(" bytes)"),
        );
        at = at + 1;
    }
    assert(text::texts(lines@) =~= shown);
    request.instruction.clone().concat("\n\n[").concat(text::decimal(request.images.len() as u64).as_str()).concat(
        " image attachment(s): ",
    ).concat(text::join(&lines, ", ").as_str()).concat("]")
}

/// Whether a chat is the one that a task goes to: the one that it names, where there is such a chat,
/// else the active one.
pub open spec fn task_chat(before: ChatsView, wanted: Option<Seq<char>>, now: u64, after: ChatsView, id: Seq<char>) -> bool {
    if chats::known(before, wanted) {
        id == wanted->0 && after == before
    } else {
        chats::web_chat(before, now, after, id)
    }
}

fn choose_chat(chats: &mut ChatStore, wanted: &Option<String>, now: u64) -> (id: String)
    ensures
        task_chat(old(chats)@, model::view_of(*wanted), now, final(chats)@, id@),
        chats::ids(final(chats)@.chats).contains(id@),
{
    let ghost before = chats@;
    if let Some(id) = wanted {
        if chats::is_known(chats, id.as_str()) {
            return id.clone();
        }
    }
    let id = chats::ensure_web_chat(chats, now);
    proof {
        if !chats::known(before, before.active_web) {
            chats::new_chats_have_ids_of_their_own(before, now, id@, "New chat"@);
        }
    }
    id
}

/// Whether a store and a reply, or the message of what went wrong, are what comes of a task that
/// approves no job: a job that waits for answers gets them, else a job is opened.
pub open spec fn task_taken(
    before: StoreView,
    task: Seq<char>,
    images: nat,
    chat_id: Seq<char>,
    now: u64,
    id: Seq<char>,
    after: StoreView,
    reply: Result<Seq<char>, Seq<char>>,
) -> bool {
    if exists|k: int| #[trigger] before.wanted(k, Some("web"@), JobState::Clarifying) {
        replies::clarification_taken(
            before,
            chat_id,
            "web"@,
            task,
            task_criteria(),
            "\n\nReply APPROVE to begin."@,
            false,
            now,
            after,
            match reply {
                Ok(message) => Ok(Some(message)),
                Err(message) => Err(message),
            },
        )
    } else {
        &&& reply == Ok::<Seq<char>, Seq<char>>(replies::questions_for(id) + attachment_note(images))
        &&& after == (StoreView {
            jobs: job_store::with_job(
                before.jobs,
                replies::opened(before.jobs_root, id, chat_id, "web"@, task, attachment_note(images), now),
            ),
            ..before
        })
    }
}

/// The position of the job that a task approved, or the message of what went wrong.
pub open spec fn approval_outcome(result: Result<Asked, AskError>) -> Result<Option<int>, Seq<char>> {
    match result {
        Ok(Asked::Run { chat_id, job }) => Ok(Some(job as int)),
        Err(AskError::Job(error)) => Err(error.text()),
        _ => Ok(None),
    }
}

/// Whether the task is an approval.
pub open spec fn approves(instruction: Seq<char>) -> bool {
    text::lowered(text::trimmed(instruction)) == text::lowered("APPROVE"@)
}

/// Takes a task, answers to questions about one, or an approval.
pub fn ask(
    store: &mut JobStore,
    chats: &mut ChatStore,
    request: &AskRequest,
    now: u64,
    pid: u32,
    sequence: u64,
) -> (result: Result<Asked, AskError>)
    requires
        old(store)@.wf(),
    ensures
        final(store)@.wf(),
        if approves(request.instruction@) {
            exists|id: Seq<char>| #[trigger]
                task_chat(old(chats)@, model::view_of(request.chat_id), now, final(chats)@, id) && replies::approval_taken(
                    old(store)@,
                    id,
                    "web"@,
                    true,
                    now,
                    final(store)@,
                    approval_outcome(result),
                ) && match result {
                    Ok(Asked::Run { chat_id, job }) => chat_id@ == id && job < final(store).jobs@.len(),
                    Ok(Asked::Reply { .. }) => false,
                    Err(error) => !(error is EmptyTask),
                }
        } else if text::blank(request.instruction@) {
            &&& result matches Err(AskError::EmptyTask)
            &&& *final(store) == *old(store)
        } else {
            match result {
                Ok(Asked::Reply { chat_id, message }) => {
                    &&& exists|chosen: ChatsView| #[trigger]
                        task_chat(old(chats)@, model::view_of(request.chat_id), now, chosen, chat_id@) && final(chats)@
                            == replies::with_exchange(
                            chosen,
                            chat_id@,
                            shown_task(*request),
                            request.instruction@,
                            message@,
                            now,
                        )
                    &&& task_taken(
                        old(store)@,
                        text::trimmed(request.instruction@),
                        request.images@.len(),
                        chat_id@,
                        now,
                        job_store::fresh_id(now, pid, sequence),
                        final(store)@,
                        Ok(message@),
                    )
                },
                Err(AskError::Job(error)) => exists|id: Seq<char>| #[trigger]
                    task_chat(old(chats)@, model::view_of(request.chat_id), now, final(chats)@, id) && task_taken(
                        old(store)@,
                        text::trimmed(request.instruction@),
                        request.images@.len(),
                        id,
                        now,
                        job_store::fresh_id(now, pid, sequence),
                        final(store)@,
                        Err(error.text()),
                    ),
                _ => false,
            }
        },
        result is Err ==> exists|id: Seq<char>| #[trigger]
            task_chat(old(chats)@, model::view_of(request.chat_id), now, final(chats)@, id),
{
    let ghost talks = chats@;
    let chat_id = choose_chat(chats, &request.chat_id, now);
    let ghost chosen = chats@;
    assert(task_chat(talks, model::view_of(request.chat_id), now, chosen, chat_id@));
    let instruction = text::trim(request.instruction.as_str());
    if text::same_ignoring_case(instruction.as_str(), "APPROVE") {
        return match replies::approve_newest(store, chat_id.as_str(), "web", true, now) {
            Ok(Some(job)) => Ok(Asked::Run { chat_id, job }),
            Ok(None) => Err(AskError::NothingToApprove),
            Err(error) => Err(AskError::Job(error)),
        };
    }
    if instruction.as_str().is_empty() {
        return Err(AskError::EmptyTask);
    }
    let criteria = standard_criteria();
    let clarified = replies::clarify_newest(
        store,
        chat_id.as_str(),
        "web",
        instruction.as_str(),
        &criteria,
        "\n\nReply APPROVE to begin.",
        false,
        now,
    );
    let message = match clarified {
        Err(error) => {
            return Err(AskError::Job(error));
        },
        Ok(Some(message)) => message,
        Ok(None) => {
            let note = note_on_attachments(request.images.len());
            replies::open_job(store, chat_id.as_str(), "web", instruction.as_str(), note.as_str(), now, pid, sequence)
        },
    };
    let shown = user_message(request);
    let _ = replies::record_exchange(
        chats,
        chat_id.as_str(),
        shown.as_str(),
        request.instruction.as_str(),
        message.as_str(),
        now,
    );
    Ok(Asked::Reply { chat_id, message })
}

/// Tells the user how the run of a job ended, and whether it completed.
pub fn finish_ask(job: &mut Job, chats: &mut ChatStore, request: &AskRequest, chat_id: &str, now: u64) -> (result: Result<
    (String, bool),
    ChatError,
>)
    ensures
        final(job)@ == replies::answered(old(job)@, chat_id@, replies::outcome_of(old(job)@), now),
        if chats::ids(old(chats)@.chats).contains(chat_id@) {
            &&& result is Ok
            &&& result->Ok_0.0@ == replies::outcome_of(old(job)@)
            &&& result->Ok_0.1 == (old(job)@.record.state is Complete)
            &&& final(chats)@ == replies::with_exchange(
                old(chats)@,
                chat_id@,
                shown_task(*request),
                request.instruction@,
                replies::outcome_of(old(job)@),
                now,
            )
        } else {
            result is Err && *final(chats) == *old(chats)
        },
{
    let changed = job.record.state == JobState::Complete;
    let message = replies::outcome(job);
    replies::append_job_reply(job, chat_id, message.as_str(), now);
    let shown = user_message(request);
    match replies::record_exchange(
        chats,
        chat_id,
        shown.as_str(),
        request.instruction.as_str(),
        message.as_str(),
        now,
    ) {
        Ok(_) => Ok((message, changed)),
        Err(error) => Err(error),
    }
}

// ---------------------------------------------------------------------------
// Jobs
// ---------------------------------------------------------------------------

/// The job came to its end already.
#[derive(Debug, Clone, Copy, PartialEq, Eq, Structural)]
pub enum CancelError {
    AlreadyTerminal,
}

impl CancelError {
    /// The message of the error.
    pub fn message(&self) -> (message: String)
        ensures
            message@ == "job is already terminal"@,
    {
        "job is already terminal".to_string()
    }
}

/// The invocation of a job's worker that has to be cancelled with the job.
pub fn invocation_to_cancel(job: &Job) -> (result: Result<String, CancelError>)
    ensures
        if job@.record.state.terminal() {
            result is Err
        } else {
            result is Ok && result->Ok_0@ == job@.record.id + "-attempt-"@ + text::digits(job@.record.attempt as nat)
        },
{
    if job.record.state.is_terminal() {
        return Err(CancelError::AlreadyTerminal);
    }
    Ok(job.record.id.clone().concat("-attempt-").concat(text::decimal(job.record.attempt as u64).as_str()))
}

/// Cancels a job.
pub fn cancel_job(job: &mut Job, now: u64) -> (result: Result<(), JobError>)
    ensures
        result is Ok <==> old(job)@.record.state.may_become(JobState::Cancelled),
        final(job)@ == old(job)@.attempted(JobState::Cancelled, "Cancelled by local controller"@, now),
        result matches Err(error) ==> error.text() == jobs::terminal_text(old(job)@.record.id),
{
    job.transition(JobState::Cancelled, "Cancelled by local controller", now)
}

// ---------------------------------------------------------------------------
// Approvals of tools
// ---------------------------------------------------------------------------

/// Why a tool is not run.
#[derive(Debug)]
pub enum ApprovalError {
    NothingPending,
    Mismatch,
    UnknownTool(String),
}

impl ApprovalError {
    /// The message of the error.
    pub open spec fn text(self) -> Seq<char> {
        match self {
            ApprovalError::NothingPending => "no pending tool approval"@,
            ApprovalError::Mismatch => "pending tool approval did not match"@,
            ApprovalError::UnknownTool(name) => "unknown tool: "@ + name@,
        }
    }

    /// The message of the error.
    pub fn message(&self) -> (message: String)
        ensures
            message@ == self.text(),
    {
        match self {
            ApprovalError::NothingPending => "no pending tool approval".to_string(),
            ApprovalError::Mismatch => "pending tool approval did not match".to_string(),
            ApprovalError::UnknownTool(name) => "unknown tool: ".to_string().concat(name.as_str()),
        }
    }
}

/// Takes the call that waits for approval, where it is the one that is approved.
pub fn take_pending(pending: &mut Option<PendingToolCall>, id: &str) -> (result: Result<PendingToolCall, ApprovalError>)
    ensures
        match *old(pending) {
            None => result matches Err(ApprovalError::NothingPending) && *final(pending) is None,
            Some(call) => if call.id@ == id@ {
                result == Ok::<PendingToolCall, ApprovalError>(call) && *final(pending) is None
            } else {
                result matches Err(ApprovalError::Mismatch) && *final(pending) == *old(pending)
            },
        },
{
    match pending.take() {
        None => Err(ApprovalError::NothingPending),
        Some(call) => {
            if text::same(call.id.as_str(), id) {
                Ok(call)
            } else {
                *pending = Some(call);
                Err(ApprovalError::Mismatch)
            }
        },
    }
}

/// The tool of an approved call.
pub fn approved_tool(available: &Vec<Tool>, call: &PendingToolCall) -> (result: Result<Tool, ApprovalError>)
    ensures
        ({
            let i = tools::tool_index(model::views(available@), call.name@);
            if i < available@.len() {
                result is Ok && result->Ok_0@ == available@[i]@
            } else {
                result is Err && result->Err_0.text() == "unknown tool: "@ + call.name@
            }
        }),
{
    match tools::find_tool(available, call.name.as_str()) {
        Some(tool) => Ok(tool),
        None => Err(ApprovalError::UnknownTool(call.name.clone())),
    }
}

/// What is said of a tool that was run.
pub open spec fn completion_of(name: Seq<char>) -> Seq<char> {
    "Tool "@ + name + " completed."@
}

/// The chat that what a tool gave back goes to: the one of the call, else the active one.
pub fn tool_chat(chats: &mut ChatStore, call: &PendingToolCall, now: u64) -> (id: String)
    ensures
        match call.chat_id {
            Some(named) => id@ == named@ && *final(chats) == *old(chats),
            None => chats::web_chat(old(chats)@, now, final(chats)@, id@),
        },
{
    match &call.chat_id {
        Some(named) => named.clone(),
        None => chats::ensure_web_chat(chats, now),
    }
}

/// Why what a tool gave back is not kept.
#[derive(Debug, Clone, Copy, PartialEq, Eq, Structural)]
pub enum ToolRecordError {
    Unprintable,
    Chat(ChatError),
}

impl ToolRecordError {
    /// The message of the error.
    pub fn message(&self) -> (message: String)
        ensures
            message@ == match *self {
                ToolRecordError::Unprintable => "tool output is no JSON"@,
                ToolRecordError::Chat(_) => "chat not found"@,
            },
    {
        match self {
            ToolRecordError::Unprintable => "tool output is no JSON".to_string(),
            ToolRecordError::Chat(error) => error.message(),
        }
    }
}

/// Keeps what a tool gave back in a chat, in the indented form in which it is printed. Gives what is said
/// of the tool.
pub fn record_tool_result(chats: &mut ChatStore, chat_id: &str, tool: &ToolResult, now: u64) -> (result: Result<
    String,
    ToolRecordError,
>)
    ensures
        if json::json_document(tool.output@) is None {
            result == Err::<String, ToolRecordError>(ToolRecordError::Unprintable) && *final(chats) == *old(chats)
        } else if chats::ids(old(chats)@.chats).contains(chat_id@) {
            &&& result is Ok
            &&& result->Ok_0@ == completion_of(tool.name@)
            &&& final(chats)@ == chats::with_message(
                old(chats)@,
                chat_id@,
                MessageView {
                    role: "assistant"@,
                    content: completion_of(tool.name@) + "\n"@ + json::pretty_document(tool.output@)->0,
                    created_at: now,
                },
            )
        } else {
            result == Err::<String, ToolRecordError>(ToolRecordError::Chat(ChatError::NotFound)) && *final(chats)
                == *old(chats)
        },
{
    let output = match json::pretty(tool.output.as_str()) {
        Some(output) => output,
        None => {
            return Err(ToolRecordError::Unprintable);
        },
    };
    let message = "Tool ".to_string().concat(tool.name.as_str()).concat(" completed.");
    let content = message.clone().concat("\n").concat(output.as_str());
    match chats::append(chats, chat_id, "assistant", content.as_str(), now) {
        Ok(_) => Ok(message),
        Err(error) => Err(ToolRecordError::Chat(error)),
    }
}

// ---------------------------------------------------------------------------
// What always holds
// ---------------------------------------------------------------------------

/// An empty form, but for the provider and the model, changes nothing else: every key, every address,
/// the keys of the orchestrator and who may sign in stay. The controller is the one exception: it has
/// to be given each time.
pub proof fn empty_forms_keep_the_settings(before: Config, request: SaveConfigRequest, after: Config)
    requires
        configured(before, request, after),
        filled(request.openai_api_key) is None,
        filled(request.anthropic_api_key) is None,
        filled(request.deepseek_api_key) is None,
        filled(request.llama_cpp_api_key) is None,
        filled(request.ollama_base_url) is None,
        filled(request.llama_cpp_base_url) is None,
    ensures
        model::view_of(after.openai_api_key) == model::view_of(before.openai_api_key),
        model::view_of(after.anthropic_api_key) == model::view_of(before.anthropic_api_key),
        model::view_of(after.deepseek_api_key) == model::view_of(before.deepseek_api_key),
        model::view_of(after.llama_cpp_api_key) == model::view_of(before.llama_cpp_api_key),
        after.ollama_base_url@ == before.ollama_base_url@,
        after.llama_cpp_base_url@ == before.llama_cpp_base_url@,
        after.secret_key == before.secret_key,
        after.public_key == before.public_key,
        after.auth_salt == before.auth_salt,
        after.auth_password_hash == before.auth_password_hash,
        after.auth_session_hash == before.auth_session_hash,
{
}

/// A form changes neither who the orchestrator is nor who may sign in, nor where it listens, its
/// relays and its directories of tools.
pub proof fn forms_change_settings_only(before: Config, request: SaveConfigRequest, after: Config)
    requires
        configured(before, request, after),
    ensures
        after.secret_key == before.secret_key,
        after.public_key == before.public_key,
        after.bind == before.bind,
        after.relays == before.relays,
        after.tool_paths == before.tool_paths,
        after.auth_salt == before.auth_salt,
        after.auth_password_hash == before.auth_password_hash,
        after.auth_session_hash == before.auth_session_hash,
{
}

/// Whoever is signed in stays signed in when the settings are cleared or the orchestrator is retired.
pub proof fn resets_keep_sessions(before: Config, keys: IdentityView, after: Config, cookies: Option<Seq<char>>)
    requires
        was_reset(before, keys, after),
    ensures
        crate::auth::authenticated(after, cookies) == crate::auth::authenticated(before, cookies),
{
}

/// An accepted directory of tools is in the workspace, where tools have to be.
pub proof fn accepted_folders_are_in_the_workspace(
    workspace: Workspace,
    path: Seq<char>,
    folder: ToolFolder,
    facts: Seq<PathFact>,
)
    requires
        folder_fault(workspace, path, folder, facts) is None,
    ensures
        folder.canonical is Ok,
        paths::inside(folder.canonical->Ok_0@, tools::tools_root(workspace.root@)),
        folder.is_directory,
{
}

/// The word approve approves, in whichever case and with white space around it.
pub proof fn approvals_are_one_word(instruction: Seq<char>)
    ensures
        text::trimmed(instruction) == "approve"@ ==> approves(instruction),
        text::trimmed(instruction) == "APPROVE"@ ==> approves(instruction),
        approves(instruction) ==> text::lowered(text::trimmed(instruction)) == "approve"@,
{
    reveal_strlit("approve");
    reveal_strlit("APPROVE");
    assert(text::lowered("APPROVE"@) =~= "approve"@);
    assert(text::lowered("approve"@) =~= "approve"@);
}

/// A job that is asked for in the web interface has two criteria, each of which a required check has to
/// back.
pub proof fn tasks_ask_for_checked_work(i: int)
    requires
        0 <= i < task_criteria().len(),
    ensures
        task_criteria().len() == 2,
        task_criteria()[i].required_evidence == seq!["required_check"@],
        task_criteria()[i].status is Unverified,
        task_criteria()[0].id == "implementation"@,
        task_criteria()[1].id == "checks"@,
{
}

/// A task is shown with what was asked, and with the name of each image that came with it.
pub proof fn tasks_are_shown_with_their_images(request: AskRequest, i: int)
    ensures
        request.instruction@.is_prefix_of(shown_task(request)),
        request.images@.len() == 0 ==> shown_task(request) == request.instruction@,
        0 <= i < request.images@.len() ==> text::holds(shown_task(request), request.images@[i].name@ + " ("@),
{
    let shown = shown_task(request);
    assert(request.instruction@ =~= shown.subrange(0, request.instruction@.len() as int));
    if 0 <= i < request.images@.len() {
        let lines = Seq::new(request.images@.len(), |k: int| image_line(request.images@[k]));
        let list = text::joined(lines, ", "@);
        let a = request.instruction@ + "\n\n["@ + text::digits(request.images@.len());
        let b = a + " image attachment(s): "@ + list;
        text::joined_texts_are_held(lines, ", "@, i);
        assert(lines[i] == image_line(request.images@[i]));
        let image = request.images@[i];
        let rest = image.media_type@ + ", "@ + text::digits(encode_utf8(image.data_url@).len()) + " bytes)"@;
        text::parts_are_held(Seq::empty(), image.name@ + " ("@, rest);
        assert(Seq::<char>::empty() + (image.name@ + " ("@) + rest =~= lines[i]);
        text::additions_are_held(a, " image attachment(s): "@, list, a);
        text::parts_are_held(Seq::empty(), b, "]"@);
        assert(Seq::<char>::empty() + b + "]"@ =~= shown);
        text::holding_is_transitive(shown, b, list);
        text::holding_is_transitive(shown, list, lines[i]);
        text::holding_is_transitive(shown, lines[i], image.name@ + " ("@);
    }
}

} // verus!
