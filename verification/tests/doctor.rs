use bender::codex::CodexCapabilities;
use bender::config::Config;
use bender::doctor::{all_required_ok, output, run, sanitize, smoke_argv, CodexProbe, Findings, Probe};
use bender::project_config::ProjectConfig;
use bender::workspace::Workspace;

fn workspace() -> Workspace {
    Workspace::new("/w", Some("/w".into()), true).unwrap()
}

fn findings(codex: Option<CodexProbe>) -> Findings {
    Findings {
        state_dir_exists: true,
        config: Err("no configuration".into()),
        codex,
        git: Probe::Printed("git version 2".into()),
        project: Ok(ProjectConfig::default()),
        programs: vec![],
        facts: vec![],
    }
}

#[test]
fn doctor_reports_missing_auth_and_exact_incompatible_capability() {
    let capabilities = CodexCapabilities::detect(
        "codex-cli fixture",
        "exec --ask-for-approval never --sandbox read-only workspace-write --cd",
        "Run Codex non-interactively --json --output-last-message",
        Some("SESSION_ID --json"),
    );
    let checks = run(
        &workspace(),
        &findings(Some(CodexProbe {
            version: "codex-cli fixture\n".into(),
            capabilities: Ok(capabilities),
            authentication: None,
            smoke: None,
        })),
    );
    let schema = checks.iter().find(|check| check.name == "Codex structured output").unwrap();
    assert!(!schema.ok);
    assert!(schema.detail.contains("--output-schema"));
    let auth = checks.iter().find(|check| check.name == "Codex authenticated").unwrap();
    assert!(!auth.ok);
    assert!(auth.detail.contains("codex login"));
    assert!(!all_required_ok(&checks));

    let missing = run(&workspace(), &findings(None));
    assert!(missing
        .iter()
        .find(|check| check.name == "Codex CLI installed")
        .unwrap()
        .detail
        .contains("Codex CLI not found"));
}

#[test]
fn broken_configurations_are_reported() {
    let mut found = findings(None);
    found.config = Err("bad toml".into());
    found.project = Err("bad project".into());
    let checks = run(&workspace(), &found);
    assert!(checks.iter().any(|check| !check.ok && check.detail.contains("bad toml")));
    assert!(checks.iter().any(|check| !check.ok && check.detail.contains("bad project")));
}

#[test]
fn controllers_are_reported() {
    let mut found = findings(None);
    let mut config = Config::for_keys(bender::identity::generate());
    config.controller_npub = Some("npub14f8usejl26twx0dhuxjh9cas7keav9vr0v8nvtwtrjqx3vycc76qqh9nsy".into());
    found.config = Ok(config);
    let checks = run(&workspace(), &found);
    let check = checks.iter().find(|check| check.name == "Nostr controller configuration").unwrap();
    assert!(check.ok);
    assert_eq!(check.detail, "configured");
}

#[test]
fn credentials_are_not_shown() {
    assert_eq!(sanitize("token sk-abc"), "token [REDACTED]");
    assert!(matches!(output(&b"fine\n".to_vec(), &vec![], true), Probe::Printed(_)));
    assert!(matches!(output(&vec![], &b"bad".to_vec(), false), Probe::Failed(_)));
}

#[test]
fn the_smoke_test_cannot_write() {
    let argv = smoke_argv("codex", "/w");
    assert_eq!(argv[0], "codex");
    assert!(argv.windows(2).any(|pair| pair == ["--sandbox", "read-only"]));
    assert!(argv.windows(2).any(|pair| pair == ["--cd", "/w"]));
}
