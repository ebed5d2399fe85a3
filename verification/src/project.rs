//! The files of a project that a model is shown.

use vstd::prelude::*;

use crate::lists;
use crate::paths;
use crate::text;

verus! {

/// How many bytes a file may have for its contents to be shown.
pub const MAX_FILE_BYTES: u64 = 24000;

/// Of how many files the contents are shown.
pub const MAX_CONTEXT_FILES: usize = 80;

/// Whether a name is that of a file or directory that is not shown.
pub open spec fn ignored_name(name: Seq<char>) -> bool {
    name == ".git"@ || name == ".bender"@ || name == "target"@ || name == "node_modules"@ || name == ".direnv"@ || name
        == ".devenv"@
}

/// Whether a path leads to something that is not shown.
pub open spec fn ignored(path: Seq<char>) -> bool {
    paths::name_of(path) is Some && ignored_name(paths::name_of(path)->0)
}

/// Whether the path leads to something that is not shown.
pub fn is_ignored(path: &str) -> (answer: bool)
    ensures
        answer == ignored(path@),
{
    match paths::file_name(path) {
        Some(name) => {
            let name = name.as_str();
            text::same(name, ".git") || text::same(name, ".bender") || text::same(name, "target") || text::same(
                name,
                "node_modules",
            ) || text::same(name, ".direnv") || text::same(name, ".devenv")
        },
        None => false,
    }
}

/// Whether the contents of a file are shown, by its size.
pub fn is_shown(is_file: bool, bytes: u64) -> (answer: bool)
    ensures
        answer == (is_file && 0 < bytes <= MAX_FILE_BYTES),
{
    is_file && bytes <= MAX_FILE_BYTES && bytes > 0
}

// ---------------------------------------------------------------------------
// Order
// ---------------------------------------------------------------------------

/// Whether a list of parts comes before another: by the first part in which they differ, and a list
/// before one that it is the start of.
pub open spec fn parts_precede(left: Seq<Seq<char>>, right: Seq<Seq<char>>) -> bool
    decreases left.len(),
{
    if right.len() == 0 {
        false
    } else if left.len() == 0 {
        true
    } else if left[0] == right[0] {
        parts_precede(left.drop_first(), right.drop_first())
    } else {
        lists::precedes(left[0], right[0])
    }
}

/// Whether a path comes before another.
pub open spec fn path_precedes(left: Seq<char>, right: Seq<char>) -> bool {
    parts_precede(paths::parts_of(left), paths::parts_of(right))
}

proof fn parts_precede_transitive(a: Seq<Seq<char>>, b: Seq<Seq<char>>, c: Seq<Seq<char>>)
    requires
        !parts_precede(b, a),
        !parts_precede(c, b),
    ensures
        !parts_precede(c, a),
    decreases a.len(),
{
    if a.len() > 0 && c.len() > 0 && b.len() > 0 {
        lists::precedes_total(b[0], a[0]);
        lists::precedes_total(c[0], b[0]);
        if c[0] == a[0] {
            if b[0] != a[0] {
                lists::precedes_transitive(a[0], b[0], c[0]);
                lists::precedes_irreflexive(a[0]);
            }
            parts_precede_transitive(a.drop_first(), b.drop_first(), c.drop_first());
        } else if lists::precedes(c[0], a[0]) {
            if a[0] == b[0] {
                lists::precedes_transitive(b[0], c[0], b[0]);
                lists::precedes_irreflexive(b[0]);
            } else if b[0] == c[0] {
                lists::precedes_transitive(a[0], b[0], a[0]);
                lists::precedes_irreflexive(a[0]);
            } else {
                lists::precedes_transitive(a[0], b[0], c[0]);
                lists::precedes_transitive(a[0], c[0], a[0]);
                lists::precedes_irreflexive(a[0]);
            }
        }
    }
}

proof fn parts_precede_total(left: Seq<Seq<char>>, right: Seq<Seq<char>>)
    ensures
        !(parts_precede(left, right) && parts_precede(right, left)),
    decreases left.len(),
{
    if left.len() > 0 && right.len() > 0 {
        if left[0] == right[0] {
            parts_precede_total(left.drop_first(), right.drop_first());
        } else if lists::precedes(left[0], right[0]) && lists::precedes(right[0], left[0]) {
            lists::precedes_transitive(left[0], right[0], left[0]);
            lists::precedes_irreflexive(left[0]);
        }
    }
}

fn is_before(left: &str, right: &str) -> (answer: bool)
    ensures
        answer == path_precedes(left@, right@),
{
    let first = paths::parts(left);
    let second = paths::parts(right);
    let ghost a = text::texts(first@);
    let ghost b = text::texts(second@);
    let mut at: usize = 0;
    assert(a.skip(0) =~= a);
    assert(b.skip(0) =~= b);
    while at < first.len() && at < second.len()
        invariant
            at <= first@.len(),
            at <= second@.len(),
            a == text::texts(first@),
            b == text::texts(second@),
            a == paths::parts_of(left@),
            b == paths::parts_of(right@),
            parts_precede(a, b) == parts_precede(a.skip(at as int), b.skip(at as int)),
        decreases first@.len() - at,
    {
        assert(a.skip(at as int)[0] == first@[at as int]@);
        assert(b.skip(at as int)[0] == second@[at as int]@);
        assert(a.skip(at as int).drop_first() =~= a.skip(at + 1));
        assert(b.skip(at as int).drop_first() =~= b.skip(at + 1));
        if !text::same(first[at].as_str(), second[at].as_str()) {
            return lists::text_precedes(first[at].as_str(), second[at].as_str());
        }
        at = at + 1;
    }
    at < second.len()
}

/// Whether no path of a list comes after one behind it.
pub open spec fn in_order(files: Seq<Seq<char>>) -> bool {
    forall|i: int, j: int| 0 <= i < j < files.len() ==> !path_precedes(#[trigger] files[j], #[trigger] files[i])
}

/// The paths of the list, in their order.
pub fn sort_files(files: &Vec<String>) -> (sorted: Vec<String>)
    ensures
        in_order(text::texts(sorted@)),
        text::texts(sorted@).to_multiset() == text::texts(files@).to_multiset(),
{
    let mut sorted: Vec<String> = Vec::new();
    let ghost all = text::texts(files@);
    let mut at: usize = 0;
    assert(text::texts(sorted@) =~= all.take(0));
    while at < files.len()
        invariant
            at <= files@.len(),
            all == text::texts(files@),
            in_order(text::texts(sorted@)),
            text::texts(sorted@).to_multiset() == all.take(at as int).to_multiset(),
        decreases files@.len() - at,
    {
        let ghost before = text::texts(sorted@);
        let ghost new = files@[at as int]@;
        let mut place: usize = sorted.len();
        while place > 0 && is_before(files[at].as_str(), sorted[place - 1].as_str())
            invariant
                at < files@.len(),
                place <= sorted@.len(),
                before == text::texts(sorted@),
                new == files@[at as int]@,
                forall|i: int| place <= i < before.len() ==> path_precedes(new, #[trigger] before[i]),
            decreases place,
        {
            place = place - 1;
        }
        sorted.insert(place, files[at].clone());
        proof {
            let after = text::texts(sorted@);
            assert(after =~= before.insert(place as int, new));
            assert forall|i: int, j: int| 0 <= i < j < after.len() implies !path_precedes(#[trigger] after[j], #[trigger] after[i]) by {
                let new_parts = paths::parts_of(new);
                if i == place {
                    assert(after[j] == before[j - 1]);
                    parts_precede_total(new_parts, paths::parts_of(after[j]));
                } else if j == place {
                    assert(after[i] == before[i]);
                    assert(!path_precedes(new, before[place - 1]));
                    if i < place - 1 {
                        assert(!path_precedes(before[place - 1], before[i]));
                        parts_precede_transitive(
                            paths::parts_of(before[i]),
                            paths::parts_of(before[place - 1]),
                            new_parts,
                        );
                    }
                } else {
                    let bi = if i < place { i } else { i - 1 };
                    let bj = if j < place { j } else { j - 1 };
                    assert(!path_precedes(before[bj], before[bi]));
                }
            }
            before.to_multiset_ensures();
            vstd::seq_lib::to_multiset_insert(before, place as int, new);
            assert(all.take(at + 1) =~= all.take(at as int).push(new));
            all.take(at as int).to_multiset_ensures();
        }
        at = at + 1;
    }
    assert(all.take(at as int) =~= all);
    sorted
}

// ---------------------------------------------------------------------------
// Rendering
// ---------------------------------------------------------------------------

/// The list of files.
pub open spec fn listed(files: Seq<Seq<char>>) -> Seq<char>
    decreases files.len(),
{
    if files.len() == 0 {
        "Project files:\n"@
    } else {
        listed(files.drop_last()) + "- "@ + files.last() + "\n"@
    }
}

/// A text that ends with a line feed.
pub open spec fn ended(contents: Seq<char>) -> Seq<char> {
    if contents.len() > 0 && contents.last() == '\n' {
        contents
    } else {
        contents + "\n"@
    }
}

/// The contents of files, each under its path. Those without contents are passed over.
pub open spec fn shown(files: Seq<Seq<char>>, contents: Seq<Option<String>>) -> Seq<char>
    decreases files.len(),
{
    if files.len() == 0 {
        "\nRelevant file contents:\n"@
    } else {
        let before = shown(files.drop_last(), contents);
        match contents[files.len() - 1] {
            Some(raw) => before + "\n--- "@ + files.last() + " ---\n"@ + ended(raw@),
            None => before,
        }
    }
}

/// What a model is shown of a project.
pub open spec fn context_text(files: Seq<Seq<char>>, contents: Seq<Option<String>>) -> Seq<char> {
    let first = if files.len() <= MAX_CONTEXT_FILES {
        files
    } else {
        files.take(MAX_CONTEXT_FILES as int)
    };
    listed(files) + shown(first, contents)
}

/// What a model is shown of a project: the paths of all files, and the contents of the first ones,
/// as far as they are given.
pub fn collect_context(files: &Vec<String>, contents: &Vec<Option<String>>) -> (context: String)
    requires
        contents@.len() >= files@.len() || contents@.len() >= MAX_CONTEXT_FILES,
    ensures
        context@ == context_text(text::texts(files@), contents@),
{
    let ghost all = text::texts(files@);
    let mut list = "Project files:\n".to_string();
    let mut at: usize = 0;
    assert(all.take(0) =~= Seq::<Seq<char>>::empty());
    while at < files.len()
        invariant
            at <= files@.len(),
            all == text::texts(files@),
            list@ == listed(all.take(at as int)),
        decreases files@.len() - at,
    {
        proof {
            let next = all.take(at + 1);
            assert(next.drop_last() =~= all.take(at as int));
            assert(next.last() == files@[at as int]@);
        }
        list = list.concat("- ").concat(files[at].as_str()).concat("\n");
        at = at + 1;
    }
    assert(all.take(at as int) =~= all);
    let count: usize = if files.len() <= MAX_CONTEXT_FILES {
        files.len()
    } else {
        MAX_CONTEXT_FILES
    };
    let mut body = "\nRelevant file contents:\n".to_string();
    at = 0;
    while at < count
        invariant
            at <= count <= files@.len(),
            count <= contents@.len(),
            all == text::texts(files@),
            body@ == shown(all.take(at as int), contents@),
        decreases count - at,
    {
        proof {
            let next = all.take(at + 1);
            assert(next.drop_last() =~= all.take(at as int));
            assert(next.last() == files@[at as int]@);
        }
        if let Some(raw) = &contents[at] {
            let chars = text::chars_of(raw.as_str());
            body = body.concat("\n--- ").concat(files[at].as_str()).concat(" ---\n");
            let closed = chars.len() > 0 && chars[chars.len() - 1] == '\n';
            if closed {
                body = body.concat(raw.as_str());
            } else {
                body = body.concat(raw.clone().concat("\n").as_str());
            }
        }
        at = at + 1;
    }
    proof {
        if all.len() <= MAX_CONTEXT_FILES {
            assert(all.take(count as int) =~= all);
        }
    }
    list.concat(body.as_str())
}

/// Every file of a project is named in its context, and of the first eighty each that could be read is
/// shown whole under its name. Nothing else is shown.
pub proof fn contexts_show_the_files(files: Seq<Seq<char>>, contents: Seq<Option<String>>, i: int)
    requires
        0 <= i < files.len(),
    ensures
        text::holds(context_text(files, contents), "- "@ + files[i] + "\n"@),
        i < 80 && contents[i] is Some ==> text::holds(
            context_text(files, contents),
            "\n--- "@ + files[i] + " ---\n"@ + contents[i]->0@,
        ),
{
    let first = if files.len() <= MAX_CONTEXT_FILES {
        files
    } else {
        files.take(MAX_CONTEXT_FILES as int)
    };
    let names = listed(files);
    let rest = shown(first, contents);
    let whole = context_text(files, contents);
    text::parts_are_held(Seq::empty(), names, rest);
    assert(Seq::<char>::empty() + names + rest =~= whole);
    text::parts_are_held(names, rest, Seq::empty());
    assert(names + rest + Seq::<char>::empty() =~= whole);
    names_are_listed(files, i);
    text::holding_is_transitive(whole, names, "- "@ + files[i] + "\n"@);
    if i < 80 && contents[i] is Some {
        assert(first[i] == files[i]);
        contents_are_shown(first, contents, i);
        text::holding_is_transitive(whole, rest, "\n--- "@ + files[i] + " ---\n"@ + contents[i]->0@);
    }
}

proof fn names_are_listed(files: Seq<Seq<char>>, i: int)
    requires
        0 <= i < files.len(),
    ensures
        text::holds(listed(files), "- "@ + files[i] + "\n"@),
    decreases files.len(),
{
    let before = listed(files.drop_last());
    let line = "- "@ + files.last() + "\n"@;
    assert(listed(files) =~= before + line);
    if i == files.len() - 1 {
        text::parts_are_held(before, line, Seq::empty());
        assert(before + line + Seq::<char>::empty() =~= before + line);
    } else {
        names_are_listed(files.drop_last(), i);
        text::parts_are_held(Seq::empty(), before, line);
        assert(Seq::<char>::empty() + before + line =~= before + line);
        text::holding_is_transitive(before + line, before, "- "@ + files[i] + "\n"@);
    }
}

proof fn contents_are_shown(files: Seq<Seq<char>>, contents: Seq<Option<String>>, i: int)
    requires
        0 <= i < files.len(),
        contents[i] is Some,
    ensures
        text::holds(shown(files, contents), "\n--- "@ + files[i] + " ---\n"@ + contents[i]->0@),
    decreases files.len(),
{
    if i == files.len() - 1 {
        let raw = contents[i]->0@;
        endings_end(raw);
        text::entries_are_held(
            shown(files.drop_last(), contents),
            "\n--- "@,
            files[i],
            " ---\n"@,
            raw,
            ending_of(raw),
        );
    } else {
        contents_are_shown(files.drop_last(), contents, i);
        assert(files.drop_last()[i] == files[i]);
        earlier_contents_stay(files, contents, "\n--- "@ + files[i] + " ---\n"@ + contents[i]->0@);
    }
}

spec fn ending_of(raw: Seq<char>) -> Seq<char> {
    if raw.len() > 0 && raw.last() == '\n' {
        Seq::empty()
    } else {
        "\n"@
    }
}

proof fn endings_end(raw: Seq<char>)
    ensures
        ended(raw) == raw + ending_of(raw),
{
    assert(ended(raw) =~= raw + ending_of(raw));
}

proof fn earlier_contents_stay(files: Seq<Seq<char>>, contents: Seq<Option<String>>, wanted: Seq<char>)
    requires
        files.len() > 0,
        text::holds(shown(files.drop_last(), contents), wanted),
    ensures
        text::holds(shown(files, contents), wanted),
{
    let before = shown(files.drop_last(), contents);
    if let Some(raw) = contents[files.len() - 1] {
        text::additions_are_held(before, "\n--- "@, files.last(), wanted);
        text::additions_are_held(before + "\n--- "@ + files.last(), " ---\n"@, ended(raw@), wanted);
    }
}

/// What a version control system, this orchestrator, a build or a package manager keeps in a project is
/// not shown.
pub proof fn kept_directories_are_not_shown(path: Seq<char>)
    ensures
        paths::name_of(path) == Some(".git"@) ==> ignored(path),
        paths::name_of(path) == Some(".bender"@) ==> ignored(path),
        paths::name_of(path) == Some("target"@) ==> ignored(path),
        paths::name_of(path) == Some("node_modules"@) ==> ignored(path),
        paths::name_of(path) == Some(".direnv"@) ==> ignored(path),
        paths::name_of(path) == Some(".devenv"@) ==> ignored(path),
        ignored(path) ==> paths::name_of(path) is Some && (paths::name_of(path)->0 == "target"@ || paths::name_of(path)->0
            == "node_modules"@ || paths::name_of(path)->0[0] == '.'),
{
    reveal_strlit(".git");
    reveal_strlit(".bender");
    reveal_strlit(".direnv");
    reveal_strlit(".devenv");
}

} // verus!
