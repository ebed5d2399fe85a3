use bender::chats::{messages, new_web_chat, ChatStore};
use bender::config::{Config, ModelFamily, Provider};
use bender::identity::generate;
use bender::jobs::{JobState, JobStore};
use bender::project_config::{ProjectConfig, WorkerSettings};
use bender::replies::configured_reviewer;
use bender::tools::{PendingToolCall, Tool, ToolResult};
use bender::web::{
    add_tool_path, approved_tool, ask, cancel_job, clear_config, finish_ask, invocation_to_cancel, model_list, picked_folder,
    project_warning, record_tool_result, retire_bender, save_config, take_pending, tool_chat, user_message, AskError, AskImage,
    AskRequest, Asked, SaveConfigRequest, SettingsError, ToolFolder,
};
use bender::workspace::{PathFact, Workspace};

fn form(provider: Provider, model: &str) -> SaveConfigRequest {
    SaveConfigRequest {
        controller_npub: None,
        openai_api_key: None,
        anthropic_api_key: None,
        deepseek_api_key: None,
        provider,
        model: model.into(),
        ollama_base_url: None,
        llama_cpp_base_url: None,
        llama_cpp_api_key: None,
    }
}

fn task(instruction: &str) -> AskRequest {
    AskRequest { instruction: instruction.into(), chat_id: None, images: vec![] }
}

fn call(id: &str, chat_id: Option<&str>) -> PendingToolCall {
    PendingToolCall {
        id: id.into(),
        name: "hello".into(),
        description: "says hello".into(),
        permissions: vec![],
        input: "{}".into(),
        chat_id: chat_id.map(|id| id.to_string()),
    }
}

#[test]
fn the_web_interface_listens_on_loopback_by_default() {
    let config = Config::for_keys(generate());
    assert_eq!(config.bind, "127.0.0.1:7331");
    assert!(config.bind.starts_with("127."));
}

#[test]
fn empty_fields_keep_what_was_set() {
    let mut config = Config::for_keys(generate());
    let mut request = form(Provider::Ollama, "qwen2.5-coder:7b");
    request.openai_api_key = Some(" sk-one ".into());
    request.ollama_base_url = Some(" http://host:1 ".into());
    save_config(&mut config, &ModelFamily::default(), request).unwrap();
    assert_eq!(config.openai_api_key.as_deref(), Some("sk-one"));
    assert_eq!(config.ollama_base_url, "http://host:1");
    assert_eq!(config.provider, Provider::Ollama);
    let mut again = form(Provider::Openai, "gpt-5.1");
    again.openai_api_key = Some("   ".into());
    save_config(&mut config, &ModelFamily::default(), again).unwrap();
    assert_eq!(config.openai_api_key.as_deref(), Some("sk-one"));
    assert_eq!(config.ollama_base_url, "http://host:1");
    assert_eq!(config.model, "gpt-5.1");
}

#[test]
fn controllers_are_replaced_and_checked() {
    let mut config = Config::for_keys(generate());
    let controller = generate();
    let mut request = form(Provider::Openai, "gpt-5.1");
    request.controller_npub = Some(format!(" {} ", controller.public_key));
    save_config(&mut config, &ModelFamily::default(), request).unwrap();
    assert_eq!(config.controller().unwrap(), Some(controller.public_hex));
    let mut broken = form(Provider::Openai, "gpt-5.1");
    broken.controller_npub = Some("npub-broken".into());
    let refused = save_config(&mut config, &ModelFamily::default(), broken).unwrap_err();
    assert_eq!(refused.message(), "invalid controller_npub");
    assert_eq!(config.controller_npub.as_deref(), Some("npub-broken"));
    save_config(&mut config, &ModelFamily::default(), form(Provider::Openai, "gpt-5.1")).unwrap();
    assert!(config.controller_npub.is_none());
}

#[test]
fn unsupported_models_are_refused() {
    let mut config = Config::for_keys(generate());
    let refused = save_config(&mut config, &ModelFamily::default(), form(Provider::Openai, "llama")).unwrap_err();
    assert_eq!(refused, SettingsError::UnsupportedModel);
    assert_eq!(refused.message(), "unsupported model");
    assert_eq!(config.model, "gpt-5.1-codex-mini");
}

#[test]
fn resets_keep_the_session_and_the_relays() {
    let mut config = Config::for_keys(generate());
    bender::auth::login(&mut config, "longenough", "salt", "t").unwrap();
    config.openai_api_key = Some("sk-x".into());
    config.relays = vec!["wss://one".into()];
    config.bind = "127.0.0.1:9".into();
    let before = config.public_key.clone();
    let mut pending = Some(call("c1", None));
    clear_config(&mut config, &mut pending).unwrap();
    assert!(pending.is_none());
    assert!(config.openai_api_key.is_none());
    assert_eq!(config.public_key, before);
    assert_eq!(config.relays, vec!["wss://one"]);
    assert_eq!(config.bind, "127.0.0.1:9");
    assert!(bender::auth::is_authenticated(&config, Some("bender_auth=t")));
    let mut chats = ChatStore::default();
    new_web_chat(&mut chats, 5);
    retire_bender(&mut config, &mut pending, &mut chats, generate());
    assert_ne!(config.public_key, before);
    assert!(chats.chats.is_empty());
    assert!(bender::auth::is_authenticated(&config, Some("bender_auth=t")));
    config.secret_key = "broken".into();
    assert_eq!(clear_config(&mut config, &mut pending).unwrap_err().message(), "invalid Bender secret_key");
}

#[test]
fn models_are_listed_once_and_in_order() {
    let listed = vec!["zeta".to_string(), "deepseek-chat".to_string(), "alpha".to_string()];
    assert_eq!(
        model_list(Provider::Deepseek, &ModelFamily::default(), &listed),
        vec!["alpha", "deepseek-chat", "deepseek-reasoner", "zeta"]
    );
}

fn folder(canonical: Result<&str, &str>) -> ToolFolder {
    ToolFolder {
        canonical: match canonical {
            Ok(path) => Ok(path.to_string()),
            Err(error) => Err(error.to_string()),
        },
        is_directory: true,
        has_manifest: true,
        holds_tools: Ok(false),
    }
}

#[test]
fn tool_folders_stay_in_the_workspace() {
    let workspace = Workspace::new("/w", Some("/w".into()), true).unwrap();
    let facts = vec![PathFact {
        path: "/w/.bender/tools/x".into(),
        exists: true,
        canonical: Some("/w/.bender/tools/x".into()),
        link: None,
    }];
    let mut config = Config::for_keys(generate());
    let inside = folder(Ok("/w/.bender/tools/x"));
    add_tool_path(&mut config, &workspace, " /w/.bender/tools/x ", &inside, &facts).unwrap();
    assert_eq!(config.tool_paths.len(), 1);
    assert_eq!(config.tool_paths[0].path, "/w/.bender/tools/x");
    assert!(config.tool_paths[0].enabled);
    let refused = |config: &mut Config, path: &str, folder: &ToolFolder| {
        add_tool_path(config, &workspace, path, folder, &facts).unwrap_err().message()
    };
    assert_eq!(refused(&mut config, " ", &inside), "tool path is required");
    assert!(config.tool_paths.is_empty());
    assert_eq!(
        refused(&mut config, "/gone", &folder(Err("not found"))),
        "could not read tool path: /gone: not found"
    );
    let outside = "tool folders must be inside this workspace at .bender/tools";
    assert_eq!(refused(&mut config, "/etc", &folder(Ok("/etc"))), outside);
    assert_eq!(refused(&mut config, "/w/src", &folder(Ok("/w/src"))), outside);
    let mut file = folder(Ok("/w/.bender/tools/x"));
    file.is_directory = false;
    assert_eq!(refused(&mut config, "x", &file), "tool path must be a folder");
    let mut empty = folder(Ok("/w/.bender/tools/x"));
    empty.has_manifest = false;
    assert_eq!(refused(&mut config, "x", &empty), "tool path must contain bender-tool.toml or tool folders");
    empty.holds_tools = Err("denied".into());
    let unlisted = add_tool_path(&mut config, &workspace, "x", &empty, &facts).unwrap_err();
    assert_eq!(unlisted.message(), "denied");
    assert!(!unlisted.is_stored());
    empty.holds_tools = Ok(true);
    assert!(add_tool_path(&mut config, &workspace, "x", &empty, &facts).is_ok());
}

#[test]
fn picked_folders_are_trimmed() {
    assert_eq!(picked_folder(true, &b"/w/x\n".to_vec()).unwrap(), "/w/x");
    assert_eq!(picked_folder(true, &b" \n".to_vec()).unwrap_err().message(), "no folder selected");
    assert_eq!(
        picked_folder(false, &b"/w".to_vec()).unwrap_err().message(),
        "folder picker is not available; paste the folder path instead"
    );
}

#[test]
fn build_outputs_are_warned_of() {
    assert!(project_warning("/home/me/bender/target/release").unwrap().starts_with("This looks like a Cargo"));
    assert!(project_warning("/x/target/debug/deps").is_some());
    assert!(project_warning("/x/target/other/release").is_none());
    assert!(project_warning("/").is_none());
    assert!(project_warning("target").is_none());
}

#[test]
fn a_web_job_goes_from_task_to_approval() {
    let mut store = JobStore::new("/w");
    let mut chats = ChatStore::default();
    let mut request = task(" Add a button ");
    request.images.push(AskImage { name: "a.png".into(), media_type: "image/png".into(), data_url: "data:é".into() });
    let (chat_id, said) = match ask(&mut store, &mut chats, &request, 100, 1, 1).unwrap() {
        Asked::Reply { chat_id, message } => (chat_id, message),
        Asked::Run { .. } => panic!("a reply was expected"),
    };
    assert!(said.starts_with("Before I begin job-100-1-1:\n"));
    assert!(said.ends_with("\n1 image attachment(s) were recorded but are not forwarded to Codex CLI yet."));
    assert_eq!(user_message(&request), " Add a button \n\n[1 image attachment(s): a.png (image/png, 7 bytes)]");
    let kept = messages(&chats, &chat_id);
    assert_eq!(kept[0].content, user_message(&request));
    assert_eq!(kept[1].content, said);
    assert_eq!(kept[1].role, "assistant");
    assert_eq!(chats.chats[0].title, "Add a button");
    assert_eq!(store.jobs[0].record.state, JobState::Clarifying);
    let offered = match ask(&mut store, &mut chats, &task("It is blue"), 101, 1, 2).unwrap() {
        Asked::Reply { message, .. } => message,
        Asked::Run { .. } => panic!("a reply was expected"),
    };
    assert_eq!(
        offered,
        "Proposed acceptance criteria for job-100-1-1:\n1. The clarified request is implemented within this workspace.\n2. All configured required checks pass.\n\nReply APPROVE to begin."
    );
    let approval = task("Approve");
    match ask(&mut store, &mut chats, &approval, 102, 1, 3).unwrap() {
        Asked::Run { job, .. } => assert_eq!(job, 0),
        Asked::Reply { message, .. } => panic!("{message}"),
    }
    assert_eq!(store.jobs[0].record.state, JobState::Approved);
    assert_eq!(store.jobs[0].conversation.len(), 5);
    store.jobs[0].transition(JobState::Complete, "done", 103).unwrap();
    store.jobs[0].final_report = "# Report".into();
    let (message, changed) = finish_ask(&mut store.jobs[0], &mut chats, &approval, &chat_id, 104).unwrap();
    assert_eq!(message, "✓ Job complete\n\n# Report");
    assert!(changed);
    assert!(finish_ask(&mut store.jobs[0], &mut chats, &approval, "chat-none", 104).is_err());
}

#[test]
fn empty_tasks_and_stray_approvals_are_refused() {
    let mut store = JobStore::new("/w");
    let mut chats = ChatStore::default();
    assert!(matches!(ask(&mut store, &mut chats, &task("  "), 1, 1, 1), Err(AskError::EmptyTask)));
    assert_eq!(AskError::EmptyTask.message(), "task cannot be empty");
    let refused = ask(&mut store, &mut chats, &task("APPROVE"), 1, 1, 1).unwrap_err();
    assert_eq!(refused.message(), "no web job is awaiting approval");
    assert!(store.jobs.is_empty());
}

#[test]
fn tasks_about_records_that_are_stored_elsewhere_are_refused() {
    let mut store = JobStore::new("/w");
    let mut chats = ChatStore::default();
    store.create("task", "web", None, 10, 1, 1);
    store.jobs[0].record.state = JobState::Complete;
    store.create("task", "web", None, 20, 1, 2);
    store.jobs[1].record.id = "job-10-1-1".into();
    store.jobs[1].record.state = JobState::AwaitingApproval;
    let refused = ask(&mut store, &mut chats, &task("APPROVE"), 30, 1, 3).unwrap_err();
    assert_eq!(refused.message(), "job is not awaiting approval");
    assert_eq!(store.jobs[0].conversation.len(), 1);
    store.jobs[1].record.state = JobState::Clarifying;
    let refused = ask(&mut store, &mut chats, &task("It is blue"), 31, 1, 4).unwrap_err();
    assert_eq!(refused.message(), "cannot transition terminal job job-10-1-1");
    assert_eq!(store.jobs[0].conversation.len(), 1);
    assert_eq!(store.jobs[0].criteria.len(), 2);
    store.jobs[1].record.id = "elsewhere".into();
    let refused = ask(&mut store, &mut chats, &task("It is blue"), 32, 1, 5).unwrap_err();
    assert_eq!(refused.message(), "invalid job id");
    assert_eq!(store.jobs.len(), 2);
}

#[test]
fn tasks_go_to_the_chat_that_they_name() {
    let mut store = JobStore::new("/w");
    let mut chats = ChatStore::default();
    let first = new_web_chat(&mut chats, 5);
    let second = new_web_chat(&mut chats, 5);
    assert_eq!(second, "chat-5-2");
    let mut request = task("work");
    request.chat_id = Some(first.clone());
    ask(&mut store, &mut chats, &request, 6, 1, 1).unwrap();
    assert_eq!(messages(&chats, &first).len(), 2);
    assert!(messages(&chats, &second).is_empty());
    request.chat_id = Some("unknown".into());
    ask(&mut store, &mut chats, &request, 7, 1, 2).unwrap();
    assert_eq!(messages(&chats, &second).len(), 2);
}

#[test]
fn running_jobs_can_be_cancelled() {
    let mut store = JobStore::new("/w");
    let job = store.create("task", "web", None, 10, 1, 1);
    job.record.attempt = 3;
    assert_eq!(invocation_to_cancel(job).unwrap(), "job-10-1-1-attempt-3");
    cancel_job(job, 11).unwrap();
    assert_eq!(job.record.state, JobState::Cancelled);
    assert_eq!(job.record.message, "Cancelled by local controller");
    assert_eq!(invocation_to_cancel(job).unwrap_err().message(), "job is already terminal");
}

#[test]
fn tool_calls_wait_for_their_own_approval() {
    let mut pending = None;
    assert_eq!(take_pending(&mut pending, "c1").unwrap_err().message(), "no pending tool approval");
    pending = Some(call("c1", None));
    assert_eq!(take_pending(&mut pending, "c2").unwrap_err().message(), "pending tool approval did not match");
    assert!(pending.is_some());
    let taken = take_pending(&mut pending, "c1").unwrap();
    assert!(pending.is_none());
    let tool = Tool {
        name: "hello".into(),
        version: None,
        description: String::new(),
        requires_confirmation: true,
        permissions: vec![],
        path: "/w/.bender/tools/hello/bender-tool.toml".into(),
        root: "/w/.bender/tools/hello".into(),
        command: "run.sh".into(),
    };
    assert_eq!(approved_tool(&vec![tool], &taken).unwrap().name, "hello");
    assert_eq!(approved_tool(&vec![], &taken).unwrap_err().message(), "unknown tool: hello");
}

#[test]
fn tool_results_are_kept_in_a_chat() {
    let mut chats = ChatStore::default();
    let id = tool_chat(&mut chats, &call("c1", None), 5);
    assert_eq!(id, "chat-5");
    let done = ToolResult { name: "hello".into(), output: r#"{"a":1}"#.into() };
    assert_eq!(record_tool_result(&mut chats, &id, &done, 6).unwrap(), "Tool hello completed.");
    assert_eq!(messages(&chats, &id)[0].content, "Tool hello completed.\n{\n  \"a\": 1\n}");
    assert_eq!(tool_chat(&mut chats, &call("c2", Some("chat-gone")), 7), "chat-gone");
    assert_eq!(record_tool_result(&mut chats, "chat-gone", &done, 7).unwrap_err().message(), "chat not found");
    let broken = ToolResult { name: "hello".into(), output: "{".into() };
    assert_eq!(record_tool_result(&mut chats, &id, &broken, 8).unwrap_err().message(), "tool output is no JSON");
    assert_eq!(messages(&chats, &id).len(), 1);
}

#[test]
fn models_review_only_where_they_are_enabled() {
    let mut project = ProjectConfig::default();
    assert!(configured_reviewer(&project).is_none());
    let settings = |enabled: bool| WorkerSettings {
        enabled,
        provider: "ollama".into(),
        base_url: "http://127.0.0.1:11434".into(),
        model: "gemma3:12b".into(),
        timeout_seconds: 600,
    };
    project.reviewers.insert("gemma".into(), settings(false));
    assert!(configured_reviewer(&project).is_none());
    project.reviewers.insert("gemma".into(), settings(true));
    let found = configured_reviewer(&project).unwrap();
    assert_eq!(found.model, "gemma3:12b");
    assert_eq!(found.url(), "http://127.0.0.1:11434/api/chat");
}
