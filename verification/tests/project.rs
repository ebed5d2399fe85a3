use bender::project::{collect_context, is_ignored, is_shown, sort_files, MAX_FILE_BYTES};
use bender::tools::{
    discover, find_tool, may_hold_tools, prompt_section, result_of, validate_command, Tool,
};

#[test]
fn internal_state_is_not_shown() {
    assert!(is_ignored("/w/.bender"));
    assert!(is_ignored("/w/.git"));
    assert!(is_ignored("node_modules"));
    assert!(!is_ignored("/w/visible.txt"));
    assert!(!is_ignored("/w/.bender/secret"));
    assert!(is_shown(true, 1));
    assert!(!is_shown(false, 1));
    assert!(!is_shown(true, 0));
    assert!(is_shown(true, MAX_FILE_BYTES));
    assert!(!is_shown(true, MAX_FILE_BYTES + 1));
}

#[test]
fn contexts_list_the_files_and_show_their_contents() {
    let files = sort_files(&vec!["b/c.txt".into(), "a.txt".into(), "b-x".into()]);
    assert_eq!(files, vec!["a.txt", "b/c.txt", "b-x"]);
    let context = collect_context(&vec!["visible.txt".into(), "big.bin".into()], &vec![Some("yes".into()), None]);
    assert!(context.contains("visible.txt"));
    assert!(context.contains("yes"));
    assert!(context.contains("big.bin"));
    assert!(!context.contains("sentinel"));
}

fn tool(name: &str, command: &str) -> Tool {
    Tool {
        name: name.into(),
        version: None,
        description: "does it".into(),
        requires_confirmation: true,
        permissions: vec!["net".into(), "disk".into()],
        path: "/w/.bender/tools/x/bender-tool.toml".into(),
        root: "/w/.bender/tools/x".into(),
        command: command.into(),
    }
}

#[test]
fn tools_are_found_once_and_in_order() {
    let found = discover(&vec![tool("b", "first"), tool("a", "run"), tool("b", "second")]);
    let names: Vec<&str> = found.iter().map(|tool| tool.name.as_str()).collect();
    assert_eq!(names, vec!["a", "b"]);
    assert_eq!(found[1].command, "first");
    assert_eq!(find_tool(&found, "a").unwrap().command, "run");
    assert!(find_tool(&found, "c").is_none());
}

#[test]
fn models_are_told_of_the_tools() {
    assert_eq!(prompt_section(&vec![]), "Available tools: none.\n");
    let section = prompt_section(&vec![tool("a", "run")]);
    assert!(section.starts_with(
        "Available tools:\n- a: does it Requires confirmation: true. Permissions: net, disk.\n\nTo request a tool,"
    ));
}

#[test]
fn tool_programs_stay_in_their_folder() {
    assert_eq!(validate_command(&tool("a", "bin/run")).unwrap(), "/w/.bender/tools/x/bin/run");
    assert_eq!(validate_command(&tool("a", "/bin/sh")).unwrap_err().message(), "tool command must be relative");
    assert_eq!(
        validate_command(&tool("a", "../run")).unwrap_err().message(),
        "tool command cannot escape its tool folder"
    );
    assert!(may_hold_tools("/w/.bender/tools/x", "/w"));
    assert!(!may_hold_tools("/w/.bender/toolsx", "/w"));
}

#[test]
fn tools_answer_in_json() {
    let done = result_of("a", &b" {\"ok\":true}\n".to_vec(), &vec![], true).unwrap();
    assert_eq!(done.output, "{\"ok\":true}");
    assert_eq!(done.name, "a");
    assert_eq!(
        result_of("a", &b"nope".to_vec(), &vec![], true).unwrap_err().message(),
        "tool a returned invalid JSON: nope"
    );
    assert_eq!(result_of("a", &b"out".to_vec(), &b" err ".to_vec(), false).unwrap_err().message(), "tool a failed: err");
    assert_eq!(result_of("a", &b"out".to_vec(), &vec![], false).unwrap_err().message(), "tool a failed: out");
}
