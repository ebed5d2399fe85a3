//! The workspace boundary: which paths a job may read and write.

use vstd::prelude::*;

use crate::paths;
use crate::text;

verus! {

/// What the file system says of one path.
#[derive(Debug)]
pub struct PathFact {
    pub path: String,
    /// Whether something is there, with symbolic links followed.
    pub exists: bool,
    /// The path with symbolic links followed, where that succeeds.
    pub canonical: Option<String>,
    /// Where a symbolic link at the path leads to nothing: its target, with links followed as far as
    /// something is there.
    pub link: Option<String>,
}

/// Why a path is refused.
#[derive(Debug)]
pub enum WorkspaceError {
    NotCanonical(String),
    NotADirectory(String),
    EmptyPath,
    ParentTraversal,
    OutsideWorkspace,
    Unresolved(String),
    NoExistingAncestor,
    ResolvedOutside { resolved: String, root: String },
    Protected,
}

impl WorkspaceError {
    /// The message of the error.
    pub open spec fn text(self) -> Seq<char> {
        match self {
            WorkspaceError::NotCanonical(root) => "could not canonicalize workspace "@ + root@,
            WorkspaceError::NotADirectory(root) => "workspace is not a directory: "@ + root@,
            WorkspaceError::EmptyPath => "empty path is not allowed"@,
            WorkspaceError::ParentTraversal => "parent traversal is not allowed"@,
            WorkspaceError::OutsideWorkspace => "path is outside workspace"@,
            WorkspaceError::Unresolved(path) => "could not resolve "@ + path@,
            WorkspaceError::NoExistingAncestor => "write path has no existing ancestor"@,
            WorkspaceError::ResolvedOutside { resolved, root } => "resolved path "@ + resolved@
                + " is outside workspace "@ + root@,
            WorkspaceError::Protected => "worker path targets protected Bender or Git state"@,
        }
    }

    /// The message of the error.
    pub fn message(&self) -> (message: String)
        ensures
            message@ == self.text(),
    {
        match self {
            WorkspaceError::NotCanonical(root) => "could not canonicalize workspace ".to_string().concat(root.as_str()),
            WorkspaceError::NotADirectory(root) => "workspace is not a directory: ".to_string().concat(root.as_str()),
            WorkspaceError::EmptyPath => "empty path is not allowed".to_string(),
            WorkspaceError::ParentTraversal => "parent traversal is not allowed".to_string(),
            WorkspaceError::OutsideWorkspace => "path is outside workspace".to_string(),
            WorkspaceError::Unresolved(path) => "could not resolve ".to_string().concat(path.as_str()),
            WorkspaceError::NoExistingAncestor => "write path has no existing ancestor".to_string(),
            WorkspaceError::ResolvedOutside { resolved, root } => "resolved path ".to_string().concat(resolved.as_str()).concat(
                " is outside workspace ",
            ).concat(root.as_str()),
            WorkspaceError::Protected => "worker path targets protected Bender or Git state".to_string(),
        }
    }
}

/// The position of the first fact about `path`, or the number of facts where there is none.
pub open spec fn fact_index(facts: Seq<PathFact>, path: Seq<char>) -> int
    decreases facts.len(),
{
    if facts.len() == 0 || facts.first().path@ == path {
        0
    } else {
        1 + fact_index(facts.drop_first(), path)
    }
}

/// Whether `path` is known to exist.
pub open spec fn known_to_exist(facts: Seq<PathFact>, path: Seq<char>) -> bool {
    let i = fact_index(facts, path);
    i < facts.len() && facts[i].exists
}

/// Where `path` is known to lead.
pub open spec fn known_canonical(facts: Seq<PathFact>, path: Seq<char>) -> Option<Seq<char>> {
    let i = fact_index(facts, path);
    if i < facts.len() && facts[i].canonical is Some {
        Some(facts[i].canonical->0@)
    } else {
        None
    }
}

/// Where a link at `path` is known to lead to nothing, that place.
pub open spec fn known_link(facts: Seq<PathFact>, path: Seq<char>) -> Option<Seq<char>> {
    let i = fact_index(facts, path);
    if i < facts.len() && facts[i].link is Some {
        Some(facts[i].link->0@)
    } else {
        None
    }
}

/// Whether a link at `path` is known to lead to nothing, outside a directory.
pub open spec fn leads_out(facts: Seq<PathFact>, path: Seq<char>, root: Seq<char>) -> bool {
    known_link(facts, path) is Some && !paths::inside(known_link(facts, path)->0, root)
}

proof fn fact_index_is(facts: Seq<PathFact>, path: Seq<char>, k: int)
    requires
        0 <= k <= facts.len(),
        forall|i: int| 0 <= i < k ==> (#[trigger] facts[i]).path@ != path,
        k < facts.len() ==> facts[k].path@ == path,
    ensures
        fact_index(facts, path) == k,
    decreases k,
{
    if k > 0 {
        assert(facts[0].path@ != path);
        let rest = facts.drop_first();
        assert forall|i: int| 0 <= i < k - 1 implies (#[trigger] rest[i]).path@ != path by {
            assert(rest[i] == facts[i + 1]);
        }
        fact_index_is(rest, path, k - 1);
    }
}

fn find_fact(facts: &Vec<PathFact>, path: &str) -> (at: usize)
    ensures
        at == fact_index(facts@, path@),
        at <= facts@.len(),
{
    let mut at: usize = 0;
    while at < facts.len() && !text::same(facts[at].path.as_str(), path)
        invariant
            at <= facts@.len(),
            forall|i: int| 0 <= i < at ==> (#[trigger] facts@[i]).path@ != path@,
        decreases facts@.len() - at,
    {
        at = at + 1;
    }
    proof {
        fact_index_is(facts@, path@, at as int);
    }
    at
}

/// Whether the path is known to exist.
pub fn path_exists(facts: &Vec<PathFact>, path: &str) -> (answer: bool)
    ensures
        answer == known_to_exist(facts@, path@),
{
    let at = find_fact(facts, path);
    at < facts.len() && facts[at].exists
}

/// Where the path is known to lead.
pub fn canonical_path(facts: &Vec<PathFact>, path: &str) -> (result: Option<String>)
    ensures
        crate::model::view_of(result) == known_canonical(facts@, path@),
{
    let at = find_fact(facts, path);
    if at < facts.len() {
        facts[at].canonical.clone()
    } else {
        None
    }
}

/// Where the link at the path is known to lead to nothing, that place.
pub fn link_target(facts: &Vec<PathFact>, path: &str) -> (result: Option<String>)
    ensures
        crate::model::view_of(result) == known_link(facts@, path@),
{
    let at = find_fact(facts, path);
    if at < facts.len() {
        facts[at].link.clone()
    } else {
        None
    }
}

/// The path that the first `count` parts of `path` name; the path itself for all of them.
pub open spec fn ancestor(path: Seq<char>, count: int) -> Seq<char> {
    if count >= paths::parts_of(path).len() {
        path
    } else {
        paths::path_of(paths::parts_of(path).take(count))
    }
}

/// The path and the directories above it, the nearest first.
pub fn ancestors(path: &str) -> (result: Vec<String>)
    ensures
        text::texts(result@) == Seq::new(
            paths::parts_of(path@).len(),
            |i: int| ancestor(path@, paths::parts_of(path@).len() - i),
        ),
{
    let parts = paths::parts(path);
    let ghost all = text::texts(parts@);
    let mut result: Vec<String> = Vec::new();
    let mut count: usize = parts.len();
    while count > 0
        invariant
            count <= parts@.len(),
            all == text::texts(parts@),
            all == paths::parts_of(path@),
            result@.len() == parts@.len() - count,
            forall|i: int|
                0 <= i < result@.len() ==> (#[trigger] result@[i])@ == ancestor(path@, parts@.len() - i),
        decreases count,
    {
        if count == parts.len() {
            result.push(path.to_string());
        } else {
            result.push(paths::render(&parts, count));
        }
        count = count - 1;
    }
    assert(text::texts(result@) =~= Seq::new(
        paths::parts_of(path@).len(),
        |i: int| ancestor(path@, paths::parts_of(path@).len() - i),
    ));
    result
}

/// The nearest of the first `count` ancestors of `path` that exists.
pub open spec fn nearest_existing(facts: Seq<PathFact>, path: Seq<char>, count: int) -> Option<Seq<char>>
    decreases count,
{
    if count <= 0 {
        None
    } else if known_to_exist(facts, ancestor(path, count)) {
        Some(ancestor(path, count))
    } else {
        nearest_existing(facts, path, count - 1)
    }
}

/// The message with which a place outside a directory is refused.
pub open spec fn outside_text(place: Seq<char>, root: Seq<char>) -> Seq<char> {
    "resolved path "@ + place + " is outside workspace "@ + root
}

/// The nearest of the first `count` ancestors of `path` that exists, or the message with which the path
/// is refused: none exists, or one before it is a link that leads out of `root`.
pub open spec fn landing(facts: Seq<PathFact>, root: Seq<char>, path: Seq<char>, count: int) -> Result<Seq<char>, Seq<char>>
    decreases count,
{
    if count <= 0 {
        Err(WorkspaceError::NoExistingAncestor.text())
    } else if known_to_exist(facts, ancestor(path, count)) {
        Ok(ancestor(path, count))
    } else if leads_out(facts, ancestor(path, count), root) {
        Err(outside_text(known_link(facts, ancestor(path, count))->0, root))
    } else {
        landing(facts, root, path, count - 1)
    }
}

/// The directory that a job is confined to.
#[derive(Debug)]
pub struct Workspace {
    pub root: String,
}

/// The first part of an inner path below its base, where it has one.
pub open spec fn first_below(path: Seq<char>, base: Seq<char>) -> Option<Seq<char>> {
    let n = paths::parts_of(base).len();
    if n < paths::parts_of(path).len() {
        Some(paths::parts_of(path)[n as int])
    } else {
        None
    }
}

impl Workspace {
    /// The workspace at `root`, from where that path leads and whether a directory is there.
    pub fn new(root: &str, canonical: Option<String>, is_directory: bool) -> (result: Result<Workspace, WorkspaceError>)
        ensures
            result is Ok <==> canonical is Some && is_directory,
            result matches Ok(workspace) ==> workspace.root@ == canonical->0@,
            result matches Err(error) ==> error.text() == if canonical is None {
                "could not canonicalize workspace "@ + root@
            } else {
                "workspace is not a directory: "@ + canonical->0@
            },
    {
        match canonical {
            None => Err(WorkspaceError::NotCanonical(root.to_string())),
            Some(path) => {
                if is_directory {
                    Ok(Workspace { root: path })
                } else {
                    Err(WorkspaceError::NotADirectory(path))
                }
            },
        }
    }

    /// The directory that the workspace is.
    pub fn root(&self) -> (root: &str)
        ensures
            root@ == self.root@,
    {
        self.root.as_str()
    }

    /// The directory that holds the orchestrator's own state.
    pub fn state_dir(&self) -> (path: String)
        ensures
            path@ == paths::joined_path(self.root@, ".bender"@),
    {
        paths::join(self.root.as_str(), ".bender")
    }

    /// What `candidate` names, or why it is refused before the file system is asked.
    pub open spec fn lexical(self, candidate: Seq<char>) -> Result<Seq<char>, Seq<char>> {
        if candidate.len() == 0 {
            Err(WorkspaceError::EmptyPath.text())
        } else if paths::climbs(candidate) {
            Err(WorkspaceError::ParentTraversal.text())
        } else if !paths::inside(paths::joined_path(self.root@, candidate), self.root@) {
            Err(WorkspaceError::OutsideWorkspace.text())
        } else {
            Ok(paths::joined_path(self.root@, candidate))
        }
    }

    /// The absolute path that `candidate` names. It is refused where it is empty, climbs to a
    /// parent directory, or does not lie inside the workspace.
    pub fn lexical_absolute(&self, candidate: &str) -> (result: Result<String, WorkspaceError>)
        ensures
            result is Ok <==> self.lexical(candidate@) is Ok,
            result matches Ok(path) ==> Ok::<Seq<char>, Seq<char>>(path@) == self.lexical(candidate@),
            result matches Err(error) ==> Err::<Seq<char>, Seq<char>>(error.text()) == self.lexical(candidate@),
    {
        if candidate.is_empty() {
            return Err(WorkspaceError::EmptyPath);
        }
        if paths::has_parent_part(candidate) {
            return Err(WorkspaceError::ParentTraversal);
        }
        let absolute = paths::join(self.root.as_str(), candidate);
        if !paths::is_inside(absolute.as_str(), self.root.as_str()) {
            return Err(WorkspaceError::OutsideWorkspace);
        }
        Ok(absolute)
    }

    /// Accepts a resolved path that lies inside the workspace.
    pub fn require_inside(&self, resolved: &str) -> (result: Result<(), WorkspaceError>)
        ensures
            result is Ok <==> paths::inside(resolved@, self.root@),
            result matches Err(error) ==> error.text() == "resolved path "@ + resolved@
                + " is outside workspace "@ + self.root@,
    {
        if paths::is_inside(resolved, self.root.as_str()) {
            Ok(())
        } else {
            Err(WorkspaceError::ResolvedOutside { resolved: resolved.to_string(), root: self.root.clone() })
        }
    }

    /// Where reading `candidate` leads, or why it is refused.
    pub open spec fn read_target(self, candidate: Seq<char>, facts: Seq<PathFact>) -> Result<Seq<char>, Seq<char>> {
        match self.lexical(candidate) {
            Err(message) => Err(message),
            Ok(absolute) => match known_canonical(facts, absolute) {
                None => Err("could not resolve "@ + absolute),
                Some(resolved) => if paths::inside(resolved, self.root@) {
                    Ok(resolved)
                } else {
                    Err("resolved path "@ + resolved + " is outside workspace "@ + self.root@)
                },
            },
        }
    }

    /// The file that reading `candidate` leads to. A path that leads out of the workspace is
    /// refused.
    pub fn resolve_read(&self, candidate: &str, facts: &Vec<PathFact>) -> (result: Result<String, WorkspaceError>)
        ensures
            result is Ok <==> self.read_target(candidate@, facts@) is Ok,
            result matches Ok(path) ==> Ok::<Seq<char>, Seq<char>>(path@) == self.read_target(candidate@, facts@),
            result matches Err(error) ==> Err::<Seq<char>, Seq<char>>(error.text()) == self.read_target(candidate@, facts@),
            result matches Ok(path) ==> paths::inside(path@, self.root@),
    {
        let absolute = match self.lexical_absolute(candidate) {
            Ok(path) => path,
            Err(error) => {
                return Err(error);
            },
        };
        let at = find_fact(facts, absolute.as_str());
        if at < facts.len() {
            if let Some(resolved) = &facts[at].canonical {
                return match self.require_inside(resolved.as_str()) {
                    Ok(_) => Ok(resolved.clone()),
                    Err(error) => Err(error),
                };
            }
        }
        Err(WorkspaceError::Unresolved(absolute))
    }

    /// What writing to `candidate` targets, or why it is refused.
    pub open spec fn write_target(self, candidate: Seq<char>, facts: Seq<PathFact>) -> Result<Seq<char>, Seq<char>> {
        match self.lexical(candidate) {
            Err(message) => Err(message),
            Ok(absolute) => match landing(facts, self.root@, absolute, paths::parts_of(absolute).len() as int) {
                Err(message) => Err(message),
                Ok(existing) => match known_canonical(facts, existing) {
                    None => Err("could not resolve "@ + existing),
                    Some(resolved) => if paths::inside(resolved, self.root@) {
                        Ok(absolute)
                    } else {
                        Err("resolved path "@ + resolved + " is outside workspace "@ + self.root@)
                    },
                },
            },
        }
    }

    /// The path that writing to `candidate` targets. It is refused where the nearest of its
    /// ancestors that exists leads out of the workspace, or a link before it does.
    pub fn resolve_write(&self, candidate: &str, facts: &Vec<PathFact>) -> (result: Result<String, WorkspaceError>)
        ensures
            result is Ok <==> self.write_target(candidate@, facts@) is Ok,
            result matches Ok(path) ==> Ok::<Seq<char>, Seq<char>>(path@) == self.write_target(candidate@, facts@),
            result matches Err(error) ==> Err::<Seq<char>, Seq<char>>(error.text()) == self.write_target(candidate@, facts@),
            result matches Ok(path) ==> paths::inside(path@, self.root@),
    {
        let absolute = match self.lexical_absolute(candidate) {
            Ok(path) => path,
            Err(error) => {
                return Err(error);
            },
        };
        let chain = ancestors(absolute.as_str());
        let ghost total = paths::parts_of(absolute@).len() as int;
        let ghost all = text::texts(chain@);
        assert(all.len() == chain@.len());
        let mut at: usize = 0;
        while at < chain.len()
            invariant
                at <= chain@.len(),
                all == text::texts(chain@),
                total == chain@.len(),
                total == paths::parts_of(absolute@).len(),
                all == Seq::new(
                    paths::parts_of(absolute@).len(),
                    |i: int| ancestor(absolute@, paths::parts_of(absolute@).len() - i),
                ),
                self.lexical(candidate@) == Ok::<Seq<char>, Seq<char>>(absolute@),
                landing(facts@, self.root@, absolute@, total) == landing(facts@, self.root@, absolute@, total - at),
            decreases chain@.len() - at,
        {
            let here = &chain[at];
            assert(all[at as int] == here@);
            let found = find_fact(facts, here.as_str());
            if found < facts.len() && facts[found].exists {
                if let Some(resolved) = &facts[found].canonical {
                    return match self.require_inside(resolved.as_str()) {
                        Ok(_) => Ok(absolute),
                        Err(error) => Err(error),
                    };
                }
                return Err(WorkspaceError::Unresolved(here.clone()));
            }
            if let Some(target) = link_target(facts, here.as_str()) {
                if let Err(error) = self.require_inside(target.as_str()) {
                    return Err(error);
                }
            }
            at = at + 1;
        }
        Err(WorkspaceError::NoExistingAncestor)
    }

    /// Whether a path is in the part of the workspace that no worker writes to.
    pub open spec fn protected(self, path: Seq<char>) -> bool {
        first_below(path, self.root@) == Some(".git"@) || first_below(path, self.root@) == Some(".bender"@)
    }

    /// The path that a worker's write to `candidate` targets. Besides what `resolve_write`
    /// refuses, it refuses the Git directory and the orchestrator's own state.
    pub fn resolve_worker_write(&self, candidate: &str, facts: &Vec<PathFact>) -> (result: Result<String, WorkspaceError>)
        ensures
            match self.write_target(candidate@, facts@) {
                Ok(path) => if self.protected(path) {
                    result == Err::<String, WorkspaceError>(WorkspaceError::Protected)
                } else {
                    result is Ok && result->Ok_0@ == path
                },
                Err(message) => result is Err && result->Err_0.text() == message,
            },
    {
        let absolute = match self.resolve_write(candidate, facts) {
            Ok(path) => path,
            Err(error) => {
                return Err(error);
            },
        };
        let whole = paths::parts(absolute.as_str());
        let base = paths::parts(self.root.as_str());
        assert(text::texts(base@).len() == base@.len());
        assert(text::texts(whole@).len() == whole@.len());
        if base.len() < whole.len() {
            let first = &whole[base.len()];
            assert(text::texts(whole@)[base@.len() as int] == first@);
            if text::same(first.as_str(), ".git") || text::same(first.as_str(), ".bender") {
                return Err(WorkspaceError::Protected);
            }
        }
        Ok(absolute)
    }
}

/// A relative path that is not empty and does not climb is never refused before the file system
/// is asked.
pub proof fn relative_paths_stay_inside(workspace: Workspace, candidate: Seq<char>)
    requires
        paths::absolute(workspace.root@),
        candidate.len() > 0,
        !paths::absolute(candidate),
        !paths::climbs(candidate),
    ensures
        workspace.lexical(candidate) == Ok::<Seq<char>, Seq<char>>(paths::joined_path(workspace.root@, candidate)),
{
    paths::joined_path_inside(workspace.root@, candidate);
}

/// A path that may be written lies inside the workspace and does not climb out of it.
pub proof fn write_targets_are_confined(workspace: Workspace, candidate: Seq<char>, facts: Seq<PathFact>)
    requires
        paths::absolute(workspace.root@),
        !paths::climbs(workspace.root@),
        workspace.write_target(candidate, facts) is Ok,
    ensures
        paths::inside(workspace.write_target(candidate, facts)->Ok_0, workspace.root@),
        !paths::climbs(workspace.write_target(candidate, facts)->Ok_0),
{
    let root = workspace.root@;
    let path = paths::joined_path(root, candidate);
    if !paths::absolute(candidate) {
        paths::joined_path_parts(root, candidate);
        let below = paths::names(candidate);
        if paths::climbs(path) {
            let i = paths::parts_of(path).index_of(".."@);
            let n = paths::parts_of(root).len();
            if i < n {
                assert(paths::parts_of(root)[i] == ".."@);
            } else {
                assert(below[i - n] == ".."@);
                let own = paths::parts_of(candidate);
                assert(own[paths::head(candidate).len() + i - n] == ".."@);
            }
        }
    }
}

/// A path that leads out of the workspace is never read, and never written through: reading is refused
/// where the path itself leads outside, writing where the nearest of its ancestors that exists does.
/// What is read lies inside.
pub proof fn symlink_escapes_are_refused(workspace: Workspace, candidate: Seq<char>, facts: Seq<PathFact>)
    ensures
        ({
            let path = paths::joined_path(workspace.root@, candidate);
            let target = known_canonical(facts, path);
            target is Some && !paths::inside(target->0, workspace.root@) ==> workspace.read_target(candidate, facts) is Err
        }),
        ({
            let path = paths::joined_path(workspace.root@, candidate);
            let existing = nearest_existing(facts, path, paths::parts_of(path).len() as int);
            let target = known_canonical(facts, existing->0);
            existing is Some && target is Some && !paths::inside(target->0, workspace.root@)
                ==> workspace.write_target(candidate, facts) is Err
        }),
        workspace.read_target(candidate, facts) matches Ok(found) ==> paths::inside(found, workspace.root@),
{
    let path = paths::joined_path(workspace.root@, candidate);
    landing_is_the_nearest(facts, workspace.root@, path, paths::parts_of(path).len() as int);
}

proof fn landing_is_the_nearest(facts: Seq<PathFact>, root: Seq<char>, path: Seq<char>, count: int)
    ensures
        landing(facts, root, path, count) is Ok ==> Some(landing(facts, root, path, count)->Ok_0) == nearest_existing(
            facts,
            path,
            count,
        ),
        (forall|k: int| 0 < k <= count ==> !leads_out(facts, #[trigger] ancestor(path, k), root)) ==> landing(
            facts,
            root,
            path,
            count,
        ) == match nearest_existing(facts, path, count) {
            Some(existing) => Ok::<Seq<char>, Seq<char>>(existing),
            None => Err(WorkspaceError::NoExistingAncestor.text()),
        },
    decreases count,
{
    if count > 0 {
        landing_is_the_nearest(facts, root, path, count - 1);
        assert(ancestor(path, count) == ancestor(path, count));
    }
}

proof fn landing_is_refused(facts: Seq<PathFact>, root: Seq<char>, path: Seq<char>, count: int, from: int)
    requires
        0 < count <= from,
        leads_out(facts, ancestor(path, count), root),
        forall|k: int| count <= k <= from ==> !known_to_exist(facts, #[trigger] ancestor(path, k)),
    ensures
        landing(facts, root, path, from) is Err,
    decreases from,
{
    assert(!known_to_exist(facts, ancestor(path, from)));
    if count < from {
        landing_is_refused(facts, root, path, count, from - 1);
    }
}

/// A link that leads to nothing outside the workspace is never written through: no path at it, or below
/// it where nothing can be, is a target.
pub proof fn dangling_escapes_are_refused(workspace: Workspace, candidate: Seq<char>, facts: Seq<PathFact>, count: int)
    requires
        ({
            let path = paths::joined_path(workspace.root@, candidate);
            &&& 0 < count <= paths::parts_of(path).len()
            &&& leads_out(facts, ancestor(path, count), workspace.root@)
            &&& forall|k: int|
                count <= k <= paths::parts_of(path).len() ==> !known_to_exist(facts, #[trigger] ancestor(path, k))
        }),
    ensures
        workspace.write_target(candidate, facts) is Err,
{
    let path = paths::joined_path(workspace.root@, candidate);
    landing_is_refused(facts, workspace.root@, path, count, paths::parts_of(path).len() as int);
}

/// A link that leads to nothing inside the workspace is no obstacle: where no link leads out, a path may
/// be written exactly where the nearest of its ancestors that exists leads inside.
pub proof fn dangling_links_inside_are_no_obstacle(workspace: Workspace, candidate: Seq<char>, facts: Seq<PathFact>)
    requires
        workspace.lexical(candidate) is Ok,
        ({
            let path = paths::joined_path(workspace.root@, candidate);
            forall|k: int|
                0 < k <= paths::parts_of(path).len() ==> !leads_out(
                    facts,
                    #[trigger] ancestor(path, k),
                    workspace.root@,
                )
        }),
    ensures
        ({
            let path = paths::joined_path(workspace.root@, candidate);
            let existing = nearest_existing(facts, path, paths::parts_of(path).len() as int);
            workspace.write_target(candidate, facts) is Ok <==> existing is Some && known_canonical(facts, existing->0) is Some
                && paths::inside(known_canonical(facts, existing->0)->0, workspace.root@)
        }),
{
    let path = paths::joined_path(workspace.root@, candidate);
    landing_is_the_nearest(facts, workspace.root@, path, paths::parts_of(path).len() as int);
}

/// A worker writes nowhere below the directories of Git and of this orchestrator, and what lies elsewhere
/// in the workspace is not protected.
pub proof fn workers_do_not_write_state(workspace: Workspace, path: Seq<char>, rest: Seq<Seq<char>>)
    ensures
        paths::parts_of(path) == paths::parts_of(workspace.root@) + seq![".git"@] + rest ==> workspace.protected(path),
        paths::parts_of(path) == paths::parts_of(workspace.root@) + seq![".bender"@] + rest ==> workspace.protected(path),
        workspace.protected(path) ==> paths::parts_of(path).len() > paths::parts_of(workspace.root@).len() && paths::parts_of(
            path,
        )[paths::parts_of(workspace.root@).len() as int][0] == '.',
{
    reveal_strlit(".git");
    reveal_strlit(".bender");
    let n = paths::parts_of(workspace.root@).len() as int;
    assert((paths::parts_of(workspace.root@) + seq![".git"@] + rest)[n] == ".git"@);
    assert((paths::parts_of(workspace.root@) + seq![".bender"@] + rest)[n] == ".bender"@);
}

} // verus!
