use bender::paths::{extension, file_name, is_inside, join, parent};
use bender::workspace::{ancestors, PathFact, Workspace};

fn fact(path: &str, canonical: &str) -> PathFact {
    PathFact { path: path.to_string(), exists: true, canonical: Some(canonical.to_string()), link: None }
}

fn missing(path: &str) -> PathFact {
    PathFact { path: path.to_string(), exists: false, canonical: None, link: None }
}

#[test]
fn confines_reads_and_writes() {
    let root = "/tmp/parent/project";
    let workspace = Workspace::new(root, Some(root.to_string()), true).unwrap();
    let facts = vec![
        fact("/tmp/parent/project", "/tmp/parent/project"),
        fact("/tmp/parent/project/nested", "/tmp/parent/project/nested"),
        fact("/tmp/parent/project/nested/file", "/tmp/parent/project/nested/file"),
        fact("/tmp/parent/sibling/secret", "/tmp/parent/sibling/secret"),
    ];
    assert_eq!(workspace.resolve_read("nested/file", &facts).unwrap(), "/tmp/parent/project/nested/file");
    assert!(workspace.resolve_write("nested/new/deep/file", &facts).is_ok());
    assert!(workspace.resolve_read("../sibling/secret", &facts).is_err());
    assert!(workspace.resolve_read("/tmp/parent/sibling/secret", &facts).is_err());
    assert!(workspace.resolve_worker_write(".git/config", &facts).is_err());
    assert!(workspace.resolve_worker_write(".bender/state.json", &facts).is_err());
}

#[test]
fn rejects_direct_and_nested_symlink_escapes() {
    let root = "/tmp/parent/project";
    let workspace = Workspace::new(root, Some(root.to_string()), true).unwrap();
    let facts = vec![
        fact("/tmp/parent/project", "/tmp/parent/project"),
        fact("/tmp/parent/project/nested", "/tmp/parent/project/nested"),
        fact("/tmp/parent/project/escape", "/tmp/parent/sibling"),
        fact("/tmp/parent/project/nested/escape", "/tmp/parent/sibling"),
        fact("/tmp/parent/project/escape/secret", "/tmp/parent/sibling/secret"),
        fact("/tmp/parent/project/nested/escape/secret", "/tmp/parent/sibling/secret"),
        missing("/tmp/parent/project/escape/new"),
        missing("/tmp/parent/project/nested/escape/new"),
    ];
    assert!(workspace.resolve_read("escape/secret", &facts).is_err());
    assert!(workspace.resolve_write("escape/new", &facts).is_err());
    assert!(workspace.resolve_read("nested/escape/secret", &facts).is_err());
    assert!(workspace.resolve_write("nested/escape/new", &facts).is_err());
}

fn lost(path: &str, target: &str) -> PathFact {
    PathFact { path: path.to_string(), exists: false, canonical: None, link: Some(target.to_string()) }
}

#[test]
fn links_without_a_target_are_written_through_inside_only() {
    let workspace = Workspace::new("/w", Some("/w".to_string()), true).unwrap();
    let facts = vec![
        fact("/w", "/w"),
        lost("/w/out", "/etc/lost"),
        lost("/w/in", "/w/lost"),
        missing("/w/out/below"),
        missing("/w/in/below"),
        missing("/w/new"),
    ];
    let refused = "resolved path /etc/lost is outside workspace /w";
    assert_eq!(workspace.resolve_write("out", &facts).unwrap_err().message(), refused);
    assert_eq!(workspace.resolve_write("out/below", &facts).unwrap_err().message(), refused);
    assert!(workspace.resolve_worker_write("out", &facts).is_err());
    assert!(workspace.resolve_read("in", &facts).is_err());
    assert_eq!(workspace.resolve_write("in", &facts).unwrap(), "/w/in");
    assert_eq!(workspace.resolve_write("in/below", &facts).unwrap(), "/w/in/below");
    assert_eq!(workspace.resolve_worker_write("in", &facts).unwrap(), "/w/in");
    assert_eq!(workspace.resolve_write("new", &facts).unwrap(), "/w/new");
}

#[test]
fn refusals_say_why() {
    let workspace = Workspace::new("/w", Some("/w".to_string()), true).unwrap();
    let facts = vec![fact("/w", "/w"), fact("/w/link", "/etc")];
    assert_eq!(workspace.resolve_read("", &facts).unwrap_err().message(), "empty path is not allowed");
    assert_eq!(workspace.resolve_read("a/../b", &facts).unwrap_err().message(), "parent traversal is not allowed");
    assert_eq!(workspace.resolve_read("/etc", &facts).unwrap_err().message(), "path is outside workspace");
    assert_eq!(workspace.resolve_read("gone", &facts).unwrap_err().message(), "could not resolve /w/gone");
    assert_eq!(
        workspace.resolve_read("link", &facts).unwrap_err().message(),
        "resolved path /etc is outside workspace /w"
    );
    assert_eq!(
        workspace.resolve_worker_write(".git/config", &facts).unwrap_err().message(),
        "worker path targets protected Bender or Git state"
    );
    assert_eq!(workspace.resolve_write("x", &vec![]).unwrap_err().message(), "write path has no existing ancestor");
    assert_eq!(
        Workspace::new("rel", None, false).unwrap_err().message(),
        "could not canonicalize workspace rel"
    );
    assert_eq!(
        Workspace::new("f", Some("/f".to_string()), false).unwrap_err().message(),
        "workspace is not a directory: /f"
    );
    assert_eq!(workspace.state_dir(), "/w/.bender");
    assert_eq!(workspace.root(), "/w");
}

#[test]
fn paths_are_read_part_by_part() {
    assert_eq!(join("/a", "b"), "/a/b");
    assert_eq!(join("/a/", "b"), "/a/b");
    assert_eq!(join("/a", "/b"), "/b");
    assert_eq!(parent("/a/b").as_deref(), Some("/a"));
    assert_eq!(parent("/"), None);
    assert_eq!(file_name("/a/b.txt").as_deref(), Some("b.txt"));
    assert_eq!(file_name(".."), None);
    assert_eq!(extension("/a/b.tar.gz").as_deref(), Some("gz"));
    assert_eq!(extension("/a/.hidden"), None);
    assert!(is_inside("/a/b", "/a"));
    assert!(!is_inside("/ab", "/a"));
    assert_eq!(ancestors("/a/b"), vec!["/a/b", "/a", "/"]);
}
