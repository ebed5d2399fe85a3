//! Patches: which are accepted and which files they touch.

use vstd::prelude::*;

use crate::lists;
use crate::paths;
use crate::text;
use crate::workspace;
use crate::workspace::PathFact;

verus! {

/// Why a patch is refused.
#[derive(Debug)]
pub enum PatchError {
    Empty,
    NoHeader,
    RootNotCanonical,
    UnsafePath { path: String, reason: UnsafePath },
}

/// Why a path in a patch is refused.
#[derive(Debug, Clone, Copy, PartialEq, Eq, Structural)]
pub enum UnsafePath {
    Absolute,
    Climbs,
    Protected,
    LeadsOutside,
    Unresolved,
    NoParent,
    ParentMissing,
    ParentOutside,
}

impl PatchError {
    /// The message of the error.
    pub open spec fn text(self) -> Seq<char> {
        match self {
            PatchError::Empty => "empty patch"@,
            PatchError::NoHeader => "diff did not contain a valid patch header"@,
            PatchError::RootNotCanonical => "could not canonicalize project root"@,
            PatchError::UnsafePath { path, reason } => "unsafe patch path: "@ + path@,
        }
    }

    /// The message of the error.
    pub fn message(&self) -> (message: String)
        ensures
            message@ == self.text(),
    {
        match self {
            PatchError::Empty => "empty patch".to_string(),
            PatchError::NoHeader => "diff did not contain a valid patch header".to_string(),
            PatchError::RootNotCanonical => "could not canonicalize project root".to_string(),
            PatchError::UnsafePath { path, reason } => "unsafe patch path: ".to_string().concat(path.as_str()),
        }
    }
}

/// Where the last patch is kept.
pub fn last_patch_path(project_root: &str) -> (path: String)
    ensures
        path@ == paths::joined_path(paths::joined_path(project_root@, ".bender"@), "last.patch"@),
{
    paths::join(paths::join(project_root, ".bender").as_str(), "last.patch")
}

/// Whether a line is one of the header of a patch.
pub open spec fn header_line(line: Seq<char>) -> bool {
    "diff --git "@.is_prefix_of(line) || "--- "@.is_prefix_of(line) || "+++ "@.is_prefix_of(line) || "@@ "@.is_prefix_of(
        line,
    )
}

/// Whether a text has a line that only a patch has.
pub open spec fn looks_like_patch(diff: Seq<char>) -> bool {
    exists|i: int| 0 <= i < text::lines_of(diff).len() && header_line(#[trigger] text::lines_of(diff)[i])
}

/// Whether a text has a line that only a patch has.
pub fn is_patch(diff: &str) -> (answer: bool)
    ensures
        answer == looks_like_patch(diff@),
{
    let lines = text::lines(diff);
    let ghost all = text::texts(lines@);
    let mut at: usize = 0;
    while at < lines.len()
        invariant
            at <= lines@.len(),
            all == text::texts(lines@),
            all == text::lines_of(diff@),
            forall|i: int| 0 <= i < at ==> !header_line(#[trigger] all[i]),
        decreases lines@.len() - at,
    {
        assert(all[at as int] == lines@[at as int]@);
        let line = lines[at].as_str();
        if text::starts_with(line, "diff --git ") || text::starts_with(line, "--- ") || text::starts_with(line, "+++ ")
            || text::starts_with(line, "@@ ") {
            return true;
        }
        at = at + 1;
    }
    false
}

/// The path that a header names, without a tab and what follows it and without the side it is on.
/// Nothing for the name that stands for no file.
pub open spec fn named_path(raw: Seq<char>) -> Option<Seq<char>> {
    let path = match text::split_at_first(raw, '\t') {
        Some(parts) => parts.0,
        None => raw,
    };
    if path == "/dev/null"@ {
        None
    } else {
        match text::after_prefix(path, "a/"@) {
            Some(rest) => Some(rest),
            None => match text::after_prefix(path, "b/"@) {
                Some(rest) => Some(rest),
                None => Some(path),
            },
        }
    }
}

/// The paths that a header names, as a list.
pub open spec fn named(raw: Seq<char>) -> Seq<Seq<char>> {
    match named_path(raw) {
        Some(path) => seq![path],
        None => Seq::empty(),
    }
}

/// The paths that a line of a patch names.
pub open spec fn line_paths(line: Seq<char>) -> Seq<Seq<char>> {
    match text::after_prefix(line, "diff --git "@) {
        Some(rest) => {
            let words = text::words_of(rest);
            if words.len() == 0 {
                Seq::empty()
            } else if words.len() == 1 {
                named(words[0])
            } else {
                named(words[0]) + named(words[1])
            }
        },
        None => match text::after_prefix(line, "--- "@) {
            Some(rest) => named(rest),
            None => match text::after_prefix(line, "+++ "@) {
                Some(rest) => named(rest),
                None => Seq::empty(),
            },
        },
    }
}

/// The paths that lines of a patch name.
pub open spec fn lines_paths(lines: Seq<Seq<char>>) -> Seq<Seq<char>>
    decreases lines.len(),
{
    if lines.len() == 0 {
        Seq::empty()
    } else {
        lines_paths(lines.drop_last()) + line_paths(lines.last())
    }
}

fn push_git_path(list: &mut Vec<String>, raw: &str)
    ensures
        text::texts(final(list)@) == text::texts(old(list)@) + named(raw@),
{
    let ghost before = list@;
    let path = match text::split_once(raw, '\t') {
        Some(parts) => parts.0,
        None => raw.to_string(),
    };
    if text::same(path.as_str(), "/dev/null") {
        assert(text::texts(list@) =~= text::texts(before) + named(raw@));
        return;
    }
    let stripped = match text::strip_prefix(path.as_str(), "a/") {
        Some(rest) => rest,
        None => match text::strip_prefix(path.as_str(), "b/") {
            Some(rest) => rest,
            None => path,
        },
    };
    list.push(stripped);
    assert(text::texts(list@) =~= text::texts(before) + named(raw@));
}

fn push_line_paths(list: &mut Vec<String>, line: &str)
    ensures
        text::texts(final(list)@) == text::texts(old(list)@) + line_paths(line@),
{
    let ghost before = text::texts(list@);
    if let Some(rest) = text::strip_prefix(line, "diff --git ") {
        let words = text::words(rest.as_str());
        assert(text::texts(words@).len() == words@.len());
        if words.len() > 0 {
            assert(text::texts(words@)[0] == words@[0]@);
            push_git_path(list, words[0].as_str());
        }
        if words.len() > 1 {
            assert(text::texts(words@)[1] == words@[1]@);
            push_git_path(list, words[1].as_str());
        }
    } else if let Some(rest) = text::strip_prefix(line, "--- ") {
        push_git_path(list, rest.as_str());
    } else if let Some(rest) = text::strip_prefix(line, "+++ ") {
        push_git_path(list, rest.as_str());
    }
    assert(text::texts(list@) =~= before + line_paths(line@));
}

/// The paths that a patch names, in the order of its lines.
pub fn diff_paths(diff: &str) -> (list: Vec<String>)
    ensures
        text::texts(list@) == lines_paths(text::lines_of(diff@)),
{
    let lines = text::lines(diff);
    let ghost all = text::texts(lines@);
    let mut list: Vec<String> = Vec::new();
    let mut at: usize = 0;
    assert(all.take(0) =~= Seq::<Seq<char>>::empty());
    assert(text::texts(list@) =~= lines_paths(all.take(0)));
    while at < lines.len()
        invariant
            at <= lines@.len(),
            all == text::texts(lines@),
            text::texts(list@) == lines_paths(all.take(at as int)),
        decreases lines@.len() - at,
    {
        proof {
            let next = all.take(at + 1);
            assert(next.drop_last() =~= all.take(at as int));
            assert(next.last() == lines@[at as int]@);
        }
        push_line_paths(&mut list, lines[at].as_str());
        at = at + 1;
    }
    assert(all.take(at as int) =~= all);
    list
}

/// Whether a path starts in a directory that no patch may touch.
pub open spec fn protected(path: Seq<char>) -> bool {
    paths::parts_of(path).len() > 0 && (paths::parts_of(path)[0] == ".git"@ || paths::parts_of(path)[0] == ".bender"@
        || paths::parts_of(path)[0] == "target"@ || paths::parts_of(path)[0] == "node_modules"@)
}

/// Why a path of a patch is refused, where it is, by what the file system says of it and of the
/// directory that holds it.
pub open spec fn path_fault(root: Seq<char>, path: Seq<char>, facts: Seq<PathFact>) -> Option<UnsafePath> {
    let absolute = paths::joined_path(root, path);
    if paths::absolute(path) {
        Some(UnsafePath::Absolute)
    } else if paths::climbs(path) {
        Some(UnsafePath::Climbs)
    } else if protected(path) {
        Some(UnsafePath::Protected)
    } else if workspace::known_to_exist(facts, absolute) {
        match workspace::known_canonical(facts, absolute) {
            None => Some(UnsafePath::Unresolved),
            Some(canonical) => if paths::inside(canonical, root) {
                None
            } else {
                Some(UnsafePath::LeadsOutside)
            },
        }
    } else if workspace::leads_out(facts, absolute, root) {
        Some(UnsafePath::LeadsOutside)
    } else {
        match paths::parent_of(absolute) {
            None => Some(UnsafePath::NoParent),
            Some(parent) => match workspace::known_canonical(facts, parent) {
                None => Some(UnsafePath::ParentMissing),
                Some(canonical) => if paths::inside(canonical, root) {
                    None
                } else {
                    Some(UnsafePath::ParentOutside)
                },
            },
        }
    }
}

/// Accepts a path that lies in the project, outside what is protected.
pub fn validate_relative_patch_path(root: &str, path: &str, facts: &Vec<PathFact>) -> (result: Result<(), UnsafePath>)
    ensures
        match path_fault(root@, path@, facts@) {
            None => result is Ok,
            Some(fault) => result == Err::<(), UnsafePath>(fault),
        },
{
    if paths::is_absolute(path) {
        return Err(UnsafePath::Absolute);
    }
    if paths::has_parent_part(path) {
        return Err(UnsafePath::Climbs);
    }
    let parts = paths::parts(path);
    assert(text::texts(parts@).len() == parts@.len());
    if parts.len() > 0 {
        assert(text::texts(parts@)[0] == parts@[0]@);
        let first = parts[0].as_str();
        if text::same(first, ".git") || text::same(first, ".bender") || text::same(first, "target") || text::same(
            first,
            "node_modules",
        ) {
            return Err(UnsafePath::Protected);
        }
    }
    let absolute = paths::join(root, path);
    if workspace::path_exists(facts, absolute.as_str()) {
        return match workspace::canonical_path(facts, absolute.as_str()) {
            None => Err(UnsafePath::Unresolved),
            Some(canonical) => if paths::is_inside(canonical.as_str(), root) {
                Ok(())
            } else {
                Err(UnsafePath::LeadsOutside)
            },
        };
    }
    if let Some(target) = workspace::link_target(facts, absolute.as_str()) {
        if !paths::is_inside(target.as_str(), root) {
            return Err(UnsafePath::LeadsOutside);
        }
    }
    match paths::parent(absolute.as_str()) {
        None => Err(UnsafePath::NoParent),
        Some(parent) => match workspace::canonical_path(facts, parent.as_str()) {
            None => Err(UnsafePath::ParentMissing),
            Some(canonical) => if paths::is_inside(canonical.as_str(), root) {
                Ok(())
            } else {
                Err(UnsafePath::ParentOutside)
            },
        },
    }
}

/// The first path of a list that is refused, where one is.
pub open spec fn first_unsafe(root: Seq<char>, list: Seq<Seq<char>>, facts: Seq<PathFact>) -> Option<Seq<char>>
    decreases list.len(),
{
    if list.len() == 0 {
        None
    } else if path_fault(root, list.first(), facts) is Some {
        Some(list.first())
    } else {
        first_unsafe(root, list.drop_first(), facts)
    }
}

/// The message with which a patch is refused, where it is.
pub open spec fn patch_fault(root: Option<Seq<char>>, diff: Seq<char>, facts: Seq<PathFact>) -> Option<Seq<char>> {
    if text::blank(diff) {
        Some("empty patch"@)
    } else if !looks_like_patch(diff) {
        Some("diff did not contain a valid patch header"@)
    } else if root is None {
        Some("could not canonicalize project root"@)
    } else {
        match first_unsafe(root->0, lines_paths(text::lines_of(diff)), facts) {
            Some(path) => Some("unsafe patch path: "@ + path),
            None => None,
        }
    }
}

/// Accepts a patch that touches only files of the project, outside what is protected. `root` is
/// where the project's path leads.
pub fn validate_patch(root: Option<&str>, diff: &str, facts: &Vec<PathFact>) -> (result: Result<(), PatchError>)
    ensures
        match patch_fault(crate::model::view_of(root), diff@, facts@) {
            None => result is Ok,
            Some(message) => result is Err && result->Err_0.text() == message,
        },
        result matches Err(PatchError::UnsafePath { path, reason }) ==> root is Some && path_fault(
            root->0@,
            path@,
            facts@,
        ) == Some(reason) && first_unsafe(root->0@, lines_paths(text::lines_of(diff@)), facts@) == Some(path@),
        result is Err && root is Some && !text::blank(diff@) && looks_like_patch(diff@) ==> result->Err_0 is UnsafePath,
{
    if text::is_blank(diff) {
        return Err(PatchError::Empty);
    }
    if !is_patch(diff) {
        return Err(PatchError::NoHeader);
    }
    let base = match root {
        Some(base) => base,
        None => {
            return Err(PatchError::RootNotCanonical);
        },
    };
    let list = diff_paths(diff);
    let ghost all = text::texts(list@);
    let mut at: usize = 0;
    assert(all.skip(0) =~= all);
    while at < list.len()
        invariant
            at <= list@.len(),
            all == text::texts(list@),
            all == lines_paths(text::lines_of(diff@)),
            root == Some(base),
            !text::blank(diff@),
            looks_like_patch(diff@),
            first_unsafe(base@, all, facts@) == first_unsafe(base@, all.skip(at as int), facts@),
        decreases list@.len() - at,
    {
        assert(all.skip(at as int).first() == list@[at as int]@);
        assert(all.skip(at as int).drop_first() =~= all.skip(at + 1));
        if let Err(reason) = validate_relative_patch_path(base, list[at].as_str(), facts) {
            return Err(PatchError::UnsafePath { path: list[at].clone(), reason });
        }
        at = at + 1;
    }
    Ok(())
}

/// The files that a patch writes, in the order of its lines.
pub open spec fn written(lines: Seq<Seq<char>>) -> Seq<Seq<char>>
    decreases lines.len(),
{
    if lines.len() == 0 {
        Seq::empty()
    } else {
        match text::after_prefix(lines.last(), "+++ b/"@) {
            Some(path) => written(lines.drop_last()).push(path),
            None => written(lines.drop_last()),
        }
    }
}

/// The files that a patch writes, each once, in ascending order.
pub fn patch_paths(patch: &str) -> (list: Vec<String>)
    ensures
        text::texts(list@) == lists::sorted(written(text::lines_of(patch@))),
{
    let lines = text::lines(patch);
    let ghost all = text::texts(lines@);
    let mut list: Vec<String> = Vec::new();
    let mut at: usize = 0;
    assert(all.take(0) =~= Seq::<Seq<char>>::empty());
    assert(text::texts(list@) =~= written(all.take(0)));
    while at < lines.len()
        invariant
            at <= lines@.len(),
            all == text::texts(lines@),
            text::texts(list@) == written(all.take(at as int)),
        decreases lines@.len() - at,
    {
        proof {
            let next = all.take(at + 1);
            assert(next.drop_last() =~= all.take(at as int));
            assert(next.last() == lines@[at as int]@);
        }
        let ghost before = list@;
        if let Some(path) = text::strip_prefix(lines[at].as_str(), "+++ b/") {
            let ghost shown = path@;
            list.push(path);
            assert(text::texts(list@) =~= text::texts(before).push(shown));
        }
        at = at + 1;
    }
    assert(all.take(at as int) =~= all);
    lists::sort_unique(&list)
}

/// How a failed Git command is reported.
pub fn git_failure(arguments: &Vec<String>, stdout: &str, stderr: &str) -> (message: String)
    ensures
        message@ == "git "@ + text::joined(text::texts(arguments@), " "@) + " failed:\n"@ + stdout@ + stderr@,
{
    "git ".to_string().concat(text::join(arguments, " ").as_str()).concat(" failed:\n").concat(stdout).concat(stderr)
}

/// Every path that an accepted patch names is relative, climbs to no parent directory, touches
/// nothing that is protected, and does not lead out of the project.
pub proof fn accepted_patches_stay_inside(root: Seq<char>, diff: Seq<char>, facts: Seq<PathFact>, i: int)
    requires
        patch_fault(Some(root), diff, facts) is None,
        0 <= i < lines_paths(text::lines_of(diff)).len(),
    ensures
        ({
            let path = lines_paths(text::lines_of(diff))[i];
            &&& !paths::absolute(path)
            &&& !paths::climbs(path)
            &&& !protected(path)
            &&& workspace::known_to_exist(facts, paths::joined_path(root, path)) ==> paths::inside(
                workspace::known_canonical(facts, paths::joined_path(root, path))->0,
                root,
            )
            &&& !workspace::known_to_exist(facts, paths::joined_path(root, path)) ==> !workspace::leads_out(
                facts,
                paths::joined_path(root, path),
                root,
            ) && paths::inside(
                workspace::known_canonical(facts, paths::parent_of(paths::joined_path(root, path))->0)->0,
                root,
            )
        }),
{
    let list = lines_paths(text::lines_of(diff));
    no_unsafe_path(root, list, facts, i);
}

proof fn no_unsafe_path(root: Seq<char>, list: Seq<Seq<char>>, facts: Seq<PathFact>, i: int)
    requires
        first_unsafe(root, list, facts) is None,
        0 <= i < list.len(),
    ensures
        path_fault(root, list[i], facts) is None,
    decreases i,
{
    if i > 0 {
        no_unsafe_path(root, list.drop_first(), facts, i - 1);
    }
}

proof fn written_paths_have_a_line(lines: Seq<Seq<char>>, path: Seq<char>)
    ensures
        written(lines).contains(path) <==> lines.contains("+++ b/"@ + path),
    decreases lines.len(),
{
    if lines.len() > 0 {
        let prefix = "+++ b/"@;
        let front = lines.drop_last();
        let before = written(front);
        written_paths_have_a_line(front, path);
        assert(lines[lines.len() - 1] == lines.last());
        assert(lines.contains(prefix + path) <==> front.contains(prefix + path) || lines.last() == prefix + path) by {
            if front.contains(prefix + path) {
                assert(lines[front.index_of(prefix + path)] == prefix + path);
            }
            if lines.contains(prefix + path) && lines.last() != prefix + path {
                assert(front[lines.index_of(prefix + path)] == prefix + path);
            }
        }
        assert(prefix.is_prefix_of(lines.last()) && lines.last().skip(prefix.len() as int) == path <==> lines.last() == prefix
            + path) by {
            let last = lines.last();
            if prefix.is_prefix_of(last) && last.skip(prefix.len() as int) == path {
                assert(last =~= prefix + last.skip(prefix.len() as int));
            }
            if last == prefix + path {
                assert(last.skip(prefix.len() as int) =~= path);
                assert(prefix =~= last.subrange(0, prefix.len() as int));
            }
        }
        if let Some(last) = text::after_prefix(lines.last(), prefix) {
            let all = before.push(last);
            assert(all.contains(path) <==> before.contains(path) || last == path) by {
                assert(all[before.len() as int] == last);
                if before.contains(path) {
                    assert(all[before.index_of(path)] == path);
                }
                if all.contains(path) && last != path {
                    assert(before[all.index_of(path)] == path);
                }
            }
        }
    }
}

/// The files that are read out of a patch are exactly those that it has a line for that consists of
/// three plus signs, a space, `b/` and the path: so a file that the patch adds is among them, and one
/// that it deletes is not. Each is listed once.
pub proof fn patches_write_the_files_that_they_name(patch: Seq<char>, path: Seq<char>)
    ensures
        lists::sorted(written(text::lines_of(patch))).contains(path) <==> text::lines_of(patch).contains("+++ b/"@ + path),
        lists::sorted(written(text::lines_of(patch))).no_duplicates(),
        lists::ascending(lists::sorted(written(text::lines_of(patch)))),
{
    written_paths_have_a_line(text::lines_of(patch), path);
    lists::sorted_lists_hold_the_same(written(text::lines_of(patch)), path);
}

/// Both sides of a change are named: a header line of the old side and one of the new side each add their
/// path, so that a change cannot hide a file from the rules for paths.
pub proof fn headers_name_their_files(lines: Seq<Seq<char>>, path: Seq<char>)
    requires
        !path.contains('\t'),
    ensures
        lines.contains("+++ b/"@ + path) ==> lines_paths(lines).contains(path),
        lines.contains("--- a/"@ + path) ==> lines_paths(lines).contains(path),
    decreases lines.len(),
{
    if lines.len() > 0 {
        let front = lines.drop_last();
        let before = lines_paths(front);
        let last = line_paths(lines.last());
        headers_name_their_files(front, path);
        header_paths(path);
        if before.contains(path) {
            assert((before + last)[before.index_of(path)] == path);
        }
        if last.contains(path) {
            assert((before + last)[before.len() + last.index_of(path)] == path);
        }
        if lines.contains("+++ b/"@ + path) && lines.last() != "+++ b/"@ + path {
            assert(front[lines.index_of("+++ b/"@ + path)] == "+++ b/"@ + path);
        }
        if lines.contains("--- a/"@ + path) && lines.last() != "--- a/"@ + path {
            assert(front[lines.index_of("--- a/"@ + path)] == "--- a/"@ + path);
        }
    }
}

proof fn header_paths(path: Seq<char>)
    requires
        !path.contains('\t'),
    ensures
        line_paths("+++ b/"@ + path).contains(path),
        line_paths("--- a/"@ + path).contains(path),
{
    reveal_strlit("+++ b/");
    reveal_strlit("--- a/");
    reveal_strlit("+++ ");
    reveal_strlit("--- ");
    reveal_strlit("a/");
    reveal_strlit("b/");
    reveal_strlit("diff --git ");
    reveal_strlit("/dev/null");
    let new = "+++ b/"@ + path;
    let old = "--- a/"@ + path;
    assert(new[0] == '+' && old[0] == '-');
    assert("diff --git "@[0] == 'd');
    assert("--- "@[0] == '-');
    assert(!"diff --git "@.is_prefix_of(new)) by {
        if "diff --git "@.is_prefix_of(new) {
            assert(new.subrange(0, "diff --git "@.len() as int)[0] == new[0]);
        }
    }
    assert(!"diff --git "@.is_prefix_of(old)) by {
        if "diff --git "@.is_prefix_of(old) {
            assert(old.subrange(0, "diff --git "@.len() as int)[0] == old[0]);
        }
    }
    assert(!"--- "@.is_prefix_of(new)) by {
        if "--- "@.is_prefix_of(new) {
            assert(new.subrange(0, 4)[0] == new[0]);
        }
    }
    assert("+++ "@ =~= new.subrange(0, 4));
    assert("--- "@ =~= old.subrange(0, 4));
    assert(new.skip(4) =~= "b/"@ + path);
    assert(old.skip(4) =~= "a/"@ + path);
    sided_paths(path);
}

proof fn sided_paths(path: Seq<char>)
    requires
        !path.contains('\t'),
    ensures
        named("b/"@ + path).contains(path),
        named("a/"@ + path).contains(path),
{
    reveal_strlit("a/");
    reveal_strlit("b/");
    reveal_strlit("/dev/null");
    let new = "b/"@ + path;
    let old = "a/"@ + path;
    assert(!new.contains('\t')) by {
        if new.contains('\t') {
            let k = new.index_of('\t');
            assert(path[k - 2] == '\t');
        }
    }
    assert(!old.contains('\t')) by {
        if old.contains('\t') {
            let k = old.index_of('\t');
            assert(path[k - 2] == '\t');
        }
    }
    assert(new[0] == 'b' && old[0] == 'a' && "/dev/null"@[0] == '/');
    assert(!"a/"@.is_prefix_of(new)) by {
        if "a/"@.is_prefix_of(new) {
            assert(new.subrange(0, 2)[0] == new[0]);
        }
    }
    assert("b/"@ =~= new.subrange(0, 2));
    assert("a/"@ =~= old.subrange(0, 2));
    assert(new.skip(2) =~= path);
    assert(old.skip(2) =~= path);
    assert(named(new)[0] == path);
    assert(named(old)[0] == path);
}

/// No patch touches what a version control system, this orchestrator, a build or a package manager keeps.
pub proof fn kept_directories_are_not_patched(root: Seq<char>, path: Seq<char>, facts: Seq<PathFact>)
    requires
        paths::parts_of(path).len() > 0,
        paths::parts_of(path)[0] == ".git"@ || paths::parts_of(path)[0] == ".bender"@ || paths::parts_of(path)[0] == "target"@
            || paths::parts_of(path)[0] == "node_modules"@,
    ensures
        path_fault(root, path, facts) is Some,
{
}

/// A text with a line of any of the four headers counts as a patch; one without counts as none.
pub proof fn patches_have_a_header(diff: Seq<char>, i: int)
    requires
        0 <= i < text::lines_of(diff).len(),
    ensures
        "diff --git "@.is_prefix_of(text::lines_of(diff)[i]) ==> looks_like_patch(diff),
        "--- "@.is_prefix_of(text::lines_of(diff)[i]) ==> looks_like_patch(diff),
        "+++ "@.is_prefix_of(text::lines_of(diff)[i]) ==> looks_like_patch(diff),
        "@@ "@.is_prefix_of(text::lines_of(diff)[i]) ==> looks_like_patch(diff),
        (forall|k: int|
            0 <= k < text::lines_of(diff).len() ==> {
                let line = #[trigger] text::lines_of(diff)[k];
                line.len() == 0 || line[0] != 'd' && line[0] != '-' && line[0] != '+' && line[0] != '@'
            }) ==> !looks_like_patch(diff),
{
    let lines = text::lines_of(diff);
    if header_line(lines[i]) {
        assert(looks_like_patch(diff));
    }
    reveal_strlit("diff --git ");
    reveal_strlit("--- ");
    reveal_strlit("+++ ");
    reveal_strlit("@@ ");
    if forall|k: int|
        0 <= k < lines.len() ==> {
            let line = #[trigger] lines[k];
            line.len() == 0 || line[0] != 'd' && line[0] != '-' && line[0] != '+' && line[0] != '@'
        } {
        assert forall|k: int| 0 <= k < lines.len() implies !header_line(#[trigger] lines[k]) by {
            let line = lines[k];
            if header_line(line) {
                if "diff --git "@.is_prefix_of(line) {
                    assert(line.subrange(0, "diff --git "@.len() as int)[0] == line[0]);
                } else if "--- "@.is_prefix_of(line) {
                    assert(line.subrange(0, 4)[0] == line[0]);
                } else if "+++ "@.is_prefix_of(line) {
                    assert(line.subrange(0, 4)[0] == line[0]);
                } else {
                    assert(line.subrange(0, 3)[0] == line[0]);
                }
            }
        }
    }
}

} // verus!
