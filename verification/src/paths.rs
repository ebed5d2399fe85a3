//! File paths as texts, read part by part. A path is absolute where it starts with a slash; its
//! parts stand between slashes.

use vstd::prelude::*;

use crate::text;

verus! {

/// The pieces of `s` between the `c`s in it.
pub open spec fn split_of(s: Seq<char>, c: char) -> Seq<Seq<char>>
    decreases s.len(),
    via split_of_decreases
{
    let n = text::first_of(s, c);
    if n >= s.len() {
        seq![s]
    } else {
        seq![s.take(n)] + split_of(s.skip(n + 1), c)
    }
}

#[via_fn]
proof fn split_of_decreases(s: Seq<char>, c: char) {
    text::lemma_first_of(s, c);
}

/// The pieces of the text between the `c`s in it.
pub fn split(path: &str, c: char) -> (result: Vec<String>)
    ensures
        text::texts(result@) == split_of(path@, c),
        result@.len() > 0,
{
    let chars = text::chars_of(path);
    let mut result: Vec<String> = Vec::new();
    let mut at: usize = 0;
    assert(chars@.skip(0) =~= chars@);
    assert(text::texts(result@) + split_of(chars@, c) =~= split_of(chars@, c));
    loop
        invariant
            at <= chars@.len(),
            chars@ == path@,
            text::texts(result@) + split_of(chars@.skip(at as int), c) == split_of(path@, c),
        decreases chars@.len() - at,
    {
        let ghost rest = chars@.skip(at as int);
        let ghost before = result@;
        let end = text::find_char(&chars, c, at);
        result.push(text::text_of(&chars, at, end));
        assert(rest.take(end - at) =~= chars@.subrange(at as int, end as int));
        if end == chars.len() {
            proof {
                assert(rest.take(end - at) =~= rest);
                assert(text::texts(result@) =~= text::texts(before) + seq![rest]);
            }
            return result;
        }
        proof {
            assert(rest.skip(end - at + 1) =~= chars@.skip(end + 1));
            assert(text::texts(result@) =~= text::texts(before).push(rest.take(end - at)));
            assert(text::texts(before) + (seq![rest.take(end - at)] + split_of(chars@.skip(end + 1), c))
                =~= text::texts(result@) + split_of(chars@.skip(end + 1), c));
        }
        at = end + 1;
    }
}

/// Splitting at a `c` that stands between two texts splits each of them.
pub proof fn split_of_concat(left: Seq<char>, right: Seq<char>, c: char)
    ensures
        split_of(left.push(c) + right, c) == split_of(left, c) + split_of(right, c),
    decreases left.len(),
{
    let whole = left.push(c) + right;
    let n = text::first_of(left, c);
    text::lemma_first_of(left, c);
    text::lemma_first_of(whole, c);
    let m = text::first_of(whole, c);
    if n >= left.len() {
        assert(whole[left.len() as int] == c);
        assert(m == left.len()) by {
            if m < left.len() {
                assert(whole[m] == left[m]);
            }
        }
        assert(whole.take(m) =~= left);
        assert(whole.skip(m + 1) =~= right);
    } else {
        assert(whole[n] == left[n]);
        assert(m == n) by {
            if m < n {
                assert(whole[m] == left[m]);
            }
        }
        assert(whole.take(m) =~= left.take(n));
        assert(whole.skip(m + 1) =~= left.skip(n + 1).push(c) + right);
        split_of_concat(left.skip(n + 1), right, c);
        assert(seq![left.take(n)] + (split_of(left.skip(n + 1), c) + split_of(right, c))
            =~= (seq![left.take(n)] + split_of(left.skip(n + 1), c)) + split_of(right, c));
    }
}

/// A piece that is a part of its path: neither empty nor a single dot.
pub open spec fn is_part(piece: Seq<char>) -> bool {
    piece.len() > 0 && piece != "."@
}

/// The pieces that are parts.
pub open spec fn only_parts(pieces: Seq<Seq<char>>) -> Seq<Seq<char>>
    decreases pieces.len(),
{
    if pieces.len() == 0 {
        Seq::empty()
    } else if is_part(pieces.last()) {
        only_parts(pieces.drop_last()).push(pieces.last())
    } else {
        only_parts(pieces.drop_last())
    }
}

proof fn only_parts_concat(left: Seq<Seq<char>>, right: Seq<Seq<char>>)
    ensures
        only_parts(left + right) == only_parts(left) + only_parts(right),
    decreases right.len(),
{
    if right.len() == 0 {
        assert(left + right =~= left);
        assert(only_parts(left) + only_parts(right) =~= only_parts(left));
    } else {
        assert((left + right).drop_last() =~= left + right.drop_last());
        only_parts_concat(left, right.drop_last());
        if is_part(right.last()) {
            assert((only_parts(left) + only_parts(right.drop_last())).push(right.last())
                =~= only_parts(left) + only_parts(right));
        }
    }
}

/// Whether the path starts at the root of the file system.
pub open spec fn absolute(path: Seq<char>) -> bool {
    path.len() > 0 && path[0] == '/'
}

/// What stands before the named parts: the root of an absolute path, or the dot that a relative
/// path starts with.
pub open spec fn head(path: Seq<char>) -> Seq<Seq<char>> {
    if absolute(path) {
        seq!["/"@]
    } else if split_of(path, '/')[0] == "."@ {
        seq!["."@]
    } else {
        Seq::empty()
    }
}

/// The named parts of a path: its pieces that are neither empty nor a single dot.
pub open spec fn names(path: Seq<char>) -> Seq<Seq<char>> {
    only_parts(split_of(path, '/'))
}

/// The parts of a path.
pub open spec fn parts_of(path: Seq<char>) -> Seq<Seq<char>> {
    head(path) + names(path)
}

/// Whether a part of the path leads to the parent directory.
pub open spec fn climbs(path: Seq<char>) -> bool {
    parts_of(path).contains(".."@)
}

/// Whether the parts of `base` are the first parts of `path`.
pub open spec fn inside(path: Seq<char>, base: Seq<char>) -> bool {
    parts_of(base).is_prefix_of(parts_of(path))
}

/// Whether the path starts at the root of the file system.
pub fn is_absolute(path: &str) -> (answer: bool)
    ensures
        answer == absolute(path@),
{
    let chars = text::chars_of(path);
    chars.len() > 0 && chars[0] == '/'
}

/// The parts of the path.
pub fn parts(path: &str) -> (result: Vec<String>)
    ensures
        text::texts(result@) == parts_of(path@),
{
    let pieces = split(path, '/');
    let ghost all = text::texts(pieces@);
    let mut result: Vec<String> = Vec::new();
    assert(all[0] == pieces@[0]@);
    if is_absolute(path) {
        result.push("/".to_string());
    } else if text::same(pieces[0].as_str(), ".") {
        result.push(".".to_string());
    }
    assert(text::texts(result@) =~= head(path@));
    let mut at: usize = 0;
    assert(all.take(0) =~= Seq::<Seq<char>>::empty());
    assert(head(path@) + Seq::<Seq<char>>::empty() =~= head(path@));
    while at < pieces.len()
        invariant
            at <= pieces@.len(),
            all == text::texts(pieces@),
            all == split_of(path@, '/'),
            text::texts(result@) == head(path@) + only_parts(all.take(at as int)),
        decreases pieces@.len() - at,
    {
        let piece = &pieces[at];
        let ghost before = text::texts(result@);
        proof {
            assert(all.take(at + 1).drop_last() =~= all.take(at as int));
            assert(all.take(at + 1).last() == piece@);
        }
        if !piece.as_str().is_empty() && !text::same(piece.as_str(), ".") {
            result.push(piece.clone());
            proof {
                assert(text::texts(result@) =~= before.push(piece@));
                assert((head(path@) + only_parts(all.take(at as int))).push(piece@)
                    =~= head(path@) + only_parts(all.take(at as int)).push(piece@));
            }
        }
        at = at + 1;
    }
    assert(all.take(at as int) =~= all);
    result
}

/// Whether `wanted` is in the list.
pub fn holds_text(list: &Vec<String>, wanted: &str) -> (answer: bool)
    ensures
        answer == text::texts(list@).contains(wanted@),
{
    let mut at: usize = 0;
    while at < list.len()
        invariant
            at <= list@.len(),
            forall|i: int| 0 <= i < at ==> (#[trigger] list@[i])@ != wanted@,
        decreases list@.len() - at,
    {
        if text::same(list[at].as_str(), wanted) {
            assert(text::texts(list@)[at as int] == wanted@);
            return true;
        }
        at = at + 1;
    }
    proof {
        if text::texts(list@).contains(wanted@) {
            let i = text::texts(list@).index_of(wanted@);
            assert(list@[i]@ == wanted@);
        }
    }
    false
}

/// Whether a part of the path leads to the parent directory.
pub fn has_parent_part(path: &str) -> (answer: bool)
    ensures
        answer == climbs(path@),
{
    holds_text(&parts(path), "..")
}

/// Whether the parts of `base` are the first parts of `path`.
pub fn is_inside(path: &str, base: &str) -> (answer: bool)
    ensures
        answer == inside(path@, base@),
{
    let whole = parts(path);
    let start = parts(base);
    let ghost all = text::texts(whole@);
    let ghost first = text::texts(start@);
    if start.len() > whole.len() {
        return false;
    }
    let mut at: usize = 0;
    while at < start.len()
        invariant
            at <= start@.len() <= whole@.len(),
            all == text::texts(whole@),
            first == text::texts(start@),
            all == parts_of(path@),
            first == parts_of(base@),
            forall|i: int| 0 <= i < at ==> #[trigger] first[i] == all[i],
        decreases start@.len() - at,
    {
        if start[at] != whole[at] {
            assert(first[at as int] != all[at as int]);
            return false;
        }
        at = at + 1;
    }
    assert(first =~= all.take(first.len() as int));
    true
}

/// The path that `name` is, seen from `base`.
pub open spec fn joined_path(base: Seq<char>, name: Seq<char>) -> Seq<char> {
    if absolute(name) {
        name
    } else if base.len() > 0 && base.last() != '/' {
        base.push('/') + name
    } else {
        base + name
    }
}

/// The path that `name` is, seen from `base`.
pub fn join(base: &str, name: &str) -> (result: String)
    ensures
        result@ == joined_path(base@, name@),
{
    if is_absolute(name) {
        name.to_string()
    } else {
        let chars = text::chars_of(base);
        let mut result: String = base.to_string();
        if chars.len() > 0 && chars[chars.len() - 1] != '/' {
            result.push('/');
        }
        result.append(name);
        result
    }
}

/// The parts of a relative path seen from an absolute base are the parts of the base and the
/// named parts of the path.
pub proof fn joined_path_parts(base: Seq<char>, name: Seq<char>)
    requires
        absolute(base),
        !absolute(name),
    ensures
        absolute(joined_path(base, name)),
        parts_of(joined_path(base, name)) == parts_of(base) + names(name),
{
    let whole = joined_path(base, name);
    assert(whole[0] == base[0]);
    reveal_strlit(".");
    if base.last() != '/' {
        split_of_concat(base, name, '/');
        only_parts_concat(split_of(base, '/'), split_of(name, '/'));
        assert(seq!["/"@] + (names(base) + names(name)) =~= (seq!["/"@] + names(base)) + names(name));
    } else {
        let front = base.drop_last();
        assert(front.push('/') =~= base);
        split_of_concat(front, name, '/');
        split_of_concat(front, Seq::empty(), '/');
        assert(base + Seq::<char>::empty() =~= base);
        only_parts_concat(split_of(front, '/'), split_of(name, '/'));
        only_parts_concat(split_of(front, '/'), split_of(Seq::empty(), '/'));
        let nothing = split_of(Seq::<char>::empty(), '/');
        text::lemma_first_of(Seq::<char>::empty(), '/');
        assert(nothing =~= seq![Seq::<char>::empty()]);
        assert(nothing.drop_last() =~= Seq::<Seq<char>>::empty());
        assert(!is_part(nothing.last()));
        assert(only_parts(nothing.drop_last()) =~= Seq::<Seq<char>>::empty());
        assert(only_parts(nothing) =~= Seq::<Seq<char>>::empty());
        assert(names(base) =~= only_parts(split_of(front, '/')));
        assert(seq!["/"@] + (names(base) + names(name)) =~= (seq!["/"@] + names(base)) + names(name));
    }
}

/// A relative path seen from an absolute base lies inside that base.
pub proof fn joined_path_inside(base: Seq<char>, name: Seq<char>)
    requires
        absolute(base),
        !absolute(name),
    ensures
        inside(joined_path(base, name), base),
{
    joined_path_parts(base, name);
    assert(parts_of(base) =~= parts_of(joined_path(base, name)).take(parts_of(base).len() as int));
}

/// Lying inside is transitive.
pub proof fn inside_transitive(path: Seq<char>, middle: Seq<char>, base: Seq<char>)
    requires
        inside(path, middle),
        inside(middle, base),
    ensures
        inside(path, base),
{
    let whole = parts_of(path);
    let half = parts_of(middle);
    let start = parts_of(base);
    assert(start =~= whole.take(start.len() as int)) by {
        assert(half == whole.take(half.len() as int));
        assert(start == half.take(start.len() as int));
    }
}

/// The text of a list of parts.
pub open spec fn path_of(parts: Seq<Seq<char>>) -> Seq<char> {
    if parts.len() > 0 && parts[0] == "/"@ {
        seq!['/'] + text::joined(parts.drop_first(), "/"@)
    } else {
        text::joined(parts, "/"@)
    }
}

/// The path that the first `count` parts name.
pub fn render(parts: &Vec<String>, count: usize) -> (result: String)
    requires
        count <= parts@.len(),
    ensures
        result@ == path_of(text::texts(parts@).take(count as int)),
{
    let rooted = count > 0 && text::same(parts[0].as_str(), "/");
    let mut names: Vec<String> = Vec::new();
    let from: usize = if rooted { 1 } else { 0 };
    let mut at: usize = from;
    while at < count
        invariant
            from <= at <= count <= parts@.len(),
            from <= 1,
            names@.len() == at - from,
            forall|i: int| 0 <= i < at - from ==> (#[trigger] names@[i])@ == parts@[i + from]@,
        decreases count - at,
    {
        names.push(parts[at].clone());
        at = at + 1;
    }
    let ghost kept = text::texts(parts@).take(count as int);
    if rooted {
        assert(text::texts(names@) =~= kept.drop_first());
        let mut result: String = String::new();
        result.push('/');
        result.append(text::join(&names, "/").as_str());
        assert(seq!['/'] =~= Seq::<char>::empty().push('/'));
        result
    } else {
        assert(text::texts(names@) =~= kept);
        text::join(&names, "/")
    }
}

/// The path of the directory that holds `path`: it has every part but the last one. A path
/// without named parts has none.
pub open spec fn parent_of(path: Seq<char>) -> Option<Seq<char>> {
    if parts_of(path).len() == 0 || parts_of(path).last() == "/"@ {
        None
    } else {
        Some(path_of(parts_of(path).drop_last()))
    }
}

/// The path of the directory that holds `path`.
pub fn parent(path: &str) -> (result: Option<String>)
    ensures
        result is Some <==> parent_of(path@) is Some,
        result matches Some(found) ==> Some(found@) == parent_of(path@),
{
    let list = parts(path);
    if list.len() == 0 || text::same(list[list.len() - 1].as_str(), "/") {
        return None;
    }
    assert(text::texts(list@).take(list@.len() - 1) =~= text::texts(list@).drop_last());
    Some(render(&list, list.len() - 1))
}

/// The name of what a path leads to: its last part, where that is a name.
pub open spec fn name_of(path: Seq<char>) -> Option<Seq<char>> {
    let parts = parts_of(path);
    if parts.len() == 0 || parts.last() == "/"@ || parts.last() == "."@ || parts.last() == ".."@ {
        None
    } else {
        Some(parts.last())
    }
}

/// The name of what a path leads to.
pub fn file_name(path: &str) -> (result: Option<String>)
    ensures
        result is Some <==> name_of(path@) is Some,
        result matches Some(found) ==> Some(found@) == name_of(path@),
{
    let list = parts(path);
    if list.len() == 0 {
        return None;
    }
    let last = &list[list.len() - 1];
    if text::same(last.as_str(), "/") || text::same(last.as_str(), ".") || text::same(last.as_str(), "..") {
        None
    } else {
        Some(last.clone())
    }
}

/// The part of a path's name after its last dot, where a dot stands behind the first character.
pub open spec fn extension_of(path: Seq<char>) -> Option<Seq<char>> {
    match name_of(path) {
        None => None,
        Some(name) => {
            let pieces = split_of(name, '.');
            if pieces.len() < 2 || (pieces.len() == 2 && pieces[0].len() == 0) {
                None
            } else {
                Some(pieces.last())
            }
        },
    }
}

/// The part of the path's name after its last dot, where a dot stands behind the first character.
pub fn extension(path: &str) -> (result: Option<String>)
    ensures
        result is Some <==> extension_of(path@) is Some,
        result matches Some(found) ==> Some(found@) == extension_of(path@),
{
    let name = match file_name(path) {
        Some(name) => name,
        None => {
            return None;
        },
    };
    let pieces = split(name.as_str(), '.');
    assert(text::texts(pieces@).len() == pieces@.len());
    if pieces.len() < 2 {
        return None;
    }
    assert(text::texts(pieces@)[0] == pieces@[0]@);
    if pieces.len() == 2 && pieces[0].as_str().is_empty() {
        return None;
    }
    assert(text::texts(pieces@).last() == pieces@.last()@);
    Some(pieces[pieces.len() - 1].clone())
}

} // verus!
