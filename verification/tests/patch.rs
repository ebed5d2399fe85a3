use bender::patch::{
    diff_paths, git_failure, is_patch, last_patch_path, patch_paths, validate_patch, validate_relative_patch_path,
    PatchError, UnsafePath,
};
use bender::workspace::PathFact;

fn facts() -> Vec<PathFact> {
    vec![
        PathFact { path: "/w".into(), exists: true, canonical: Some("/w".into()), link: None },
        PathFact { path: "/w/src".into(), exists: true, canonical: Some("/w/src".into()), link: None },
        PathFact { path: "/w/src/a.rs".into(), exists: true, canonical: Some("/w/src/a.rs".into()), link: None },
        PathFact { path: "/w/link".into(), exists: true, canonical: Some("/etc".into()), link: None },
    ]
}

const DIFF: &str = "diff --git a/src/a.rs b/src/a.rs\n--- a/src/a.rs\n+++ b/src/a.rs\n@@ -1 +1 @@\n-a\n+b\n";

#[test]
fn patches_name_their_files() {
    assert!(is_patch(DIFF));
    assert!(!is_patch("hello"));
    assert_eq!(diff_paths(DIFF), vec!["src/a.rs", "src/a.rs", "src/a.rs", "src/a.rs"]);
    assert_eq!(patch_paths(DIFF), vec!["src/a.rs"]);
    assert_eq!(diff_paths("--- /dev/null\n+++ b/new.rs\t2024\n"), vec!["new.rs"]);
    assert_eq!(last_patch_path("/w"), "/w/.bender/last.patch");
}

#[test]
fn patches_stay_in_the_project() {
    assert!(validate_patch(Some("/w"), DIFF, &facts()).is_ok());
    assert_eq!(validate_patch(Some("/w"), "  ", &facts()).unwrap_err().message(), "empty patch");
    assert_eq!(
        validate_patch(Some("/w"), "hello", &facts()).unwrap_err().message(),
        "diff did not contain a valid patch header"
    );
    assert_eq!(
        validate_patch(None, DIFF, &facts()).unwrap_err().message(),
        "could not canonicalize project root"
    );
    for path in ["/etc/passwd", "../x", ".git/config", ".bender/config.toml", "link/x"] {
        let diff = format!("--- {path}\n+++ {path}\n");
        assert_eq!(
            validate_patch(Some("/w"), &diff, &facts()).unwrap_err().message(),
            format!("unsafe patch path: {path}")
        );
        assert!(validate_relative_patch_path("/w", path, &facts()).is_err());
    }
    assert!(validate_relative_patch_path("/w", "src/new.rs", &facts()).is_ok());
}

#[test]
fn failures_of_git_show_what_it_printed() {
    let message = git_failure(&vec!["apply".into(), "--check".into()], "out", "err");
    assert!(message.contains("apply --check"));
    assert!(message.contains("err"));
}

#[test]
fn links_without_a_target_are_patched_inside_the_project_only() {
    let mut known = facts();
    known.push(PathFact { path: "/w/src/lost".into(), exists: false, canonical: None, link: Some("/etc/lost".into()) });
    known.push(PathFact { path: "/w/src/gone".into(), exists: false, canonical: None, link: Some("/w/gone".into()) });
    assert_eq!(
        validate_relative_patch_path("/w", "src/lost", &known).unwrap_err(),
        UnsafePath::LeadsOutside
    );
    assert!(validate_relative_patch_path("/w", "src/gone", &known).is_ok());
    assert!(validate_relative_patch_path("/w", "src/new.rs", &known).is_ok());
}

#[test]
fn refused_patches_say_which_path_and_why() {
    for (path, why) in [
        ("/etc/passwd", UnsafePath::Absolute),
        ("../x", UnsafePath::Climbs),
        (".git/config", UnsafePath::Protected),
        ("link", UnsafePath::LeadsOutside),
        ("link/x", UnsafePath::ParentOutside),
        ("gone/x", UnsafePath::ParentMissing),
    ] {
        let diff = format!("--- src/a.rs\n+++ {path}\n--- /usr\n+++ /usr\n");
        match validate_patch(Some("/w"), &diff, &facts()) {
            Err(PatchError::UnsafePath { path: refused, reason }) => {
                assert_eq!(refused, path);
                assert_eq!(reason, why);
            }
            other => panic!("{other:?}"),
        }
    }
}
