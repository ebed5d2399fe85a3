use bender::project_config::{validate_argv, ArgvError, ProjectConfig, ProjectFiles};

#[test]
fn commands_are_argv_and_reject_dangerous_programs() {
    assert!(validate_argv(&["cargo".into(), "test".into()]).is_ok());
    assert!(validate_argv(&["sudo".into(), "cargo".into(), "test".into()]).is_err());
    assert!(validate_argv(&["git".into(), "push".into()]).is_err());
    assert!(validate_argv(&[]).is_err());
}

#[test]
fn refused_commands_say_why() {
    assert_eq!(validate_argv(&[]).unwrap_err(), ArgvError::Empty);
    assert_eq!(validate_argv(&["".into()]).unwrap_err().message(), "approved command must be a non-empty argv array");
    assert_eq!(validate_argv(&["docker".into(), "ps".into()]).unwrap_err(), ArgvError::Docker);
    assert_eq!(
        validate_argv(&["git".into(), "push".into()]).unwrap_err().message(),
        "git push requires a separate explicit action approval"
    );
    assert!(validate_argv(&["git".into(), "status".into()]).is_ok());
}

#[test]
fn commands_need_approval() {
    let mut config = ProjectConfig::default();
    assert_eq!(
        config.command("unit").unwrap_err().message(),
        "no approved `unit` command in .bender/project.toml"
    );
    config.commands.insert("unit".into(), vec!["cargo".into(), "test".into()]);
    assert_eq!(*config.command("unit").unwrap(), vec!["cargo", "test"]);
    config.commands.insert("bad".into(), vec!["sudo".into()]);
    assert_eq!(config.command("bad").unwrap_err().message(), "privilege escalation is not allowed");
}

#[test]
fn proposals_follow_the_files_of_the_project() {
    let nothing = ProjectConfig::detected(
        "/srv/example",
        ProjectFiles { cargo_manifest: false, package_json: false, pyproject: false },
    );
    assert_eq!(nothing.project.name, "example");
    assert!(nothing.commands.is_empty());
    let cargo = ProjectConfig::detected(
        "/srv/example",
        ProjectFiles { cargo_manifest: true, package_json: false, pyproject: false },
    );
    for category in cargo.commands.keys() {
        assert_eq!(cargo.command(&category).unwrap()[0], "cargo");
    }
    assert!(!cargo.commands.is_empty());
    assert_eq!(ProjectConfig::path("/srv/example"), "/srv/example/.bender/project.toml");
}

#[test]
fn policies_have_their_defaults() {
    let config = ProjectConfig::default();
    assert_eq!(config.completion.required_checks, vec!["unit"]);
    assert_eq!(config.completion.max_attempts, 4);
    assert!(config.completion.require_approval);
    assert!(!config.completion.require_review);
    assert_eq!(config.ui.test_command, "ui");
    assert_eq!(config.ui.browser, "chromium");
    assert!(!config.ui.enabled);
    assert!(config.runtime.is_none());
}
