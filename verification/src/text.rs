//! Text over sequences of characters: trimming, splitting, searching, joining and numbers.

use vstd::prelude::*;

verus! {

/// Appending a character puts that character behind the text and changes nothing else.
pub assume_specification[ std::string::String::push ](this: &mut std::string::String, ch: char)
    ensures
        final(this)@ == old(this)@.push(ch),
;

/// The characters with Unicode's `White_Space` property.
pub open spec fn white(c: char) -> bool {
    let n = c as u32;
    ||| 9 <= n <= 13
    ||| n == 0x20
    ||| n == 0x85
    ||| n == 0xA0
    ||| n == 0x1680
    ||| 0x2000 <= n <= 0x200A
    ||| n == 0x2028
    ||| n == 0x2029
    ||| n == 0x202F
    ||| n == 0x205F
    ||| n == 0x3000
}

/// Whether `c` is white space.
pub fn is_white(c: char) -> (answer: bool)
    ensures
        answer == white(c),
{
    let n: u32 = c as u32;
    (9 <= n && n <= 13) || n == 0x20 || n == 0x85 || n == 0xA0 || n == 0x1680
        || (0x2000 <= n && n <= 0x200A) || n == 0x2028 || n == 0x2029 || n == 0x202F
        || n == 0x205F || n == 0x3000
}

/// The characters of a text, in order.
pub fn chars_of(text: &str) -> (chars: Vec<char>)
    ensures
        chars@ == text@,
{
    let mut chars: Vec<char> = Vec::new();
    for c in it: text.chars()
        invariant
            it.seq() == text@,
            chars@ == text@.take(it.index() as int),
    {
        assert(text@.take(it.index() + 1) =~= text@.take(it.index() as int).push(c));
        chars.push(c);
    }
    assert(text@.take(text@.len() as int) =~= text@);
    chars
}

/// The text that a range of characters spells.
pub fn text_of(chars: &Vec<char>, from: usize, to: usize) -> (text: String)
    requires
        from <= to <= chars@.len(),
    ensures
        text@ == chars@.subrange(from as int, to as int),
{
    let mut text: String = String::new();
    let mut at: usize = from;
    while at < to
        invariant
            from <= at <= to <= chars@.len(),
            text@ == chars@.subrange(from as int, at as int),
        decreases to - at,
    {
        text.push(chars[at]);
        assert(chars@.subrange(from as int, at + 1) =~= chars@.subrange(from as int, at as int).push(chars@[at as int]));
        at = at + 1;
    }
    text
}

/// Whether two texts hold the same characters.
pub fn same(left: &str, right: &str) -> (answer: bool)
    ensures
        answer == (left@ == right@),
{
    left.to_string() == right.to_string()
}

/// The views of a list of texts.
pub open spec fn texts(list: Seq<String>) -> Seq<Seq<char>> {
    Seq::new(list.len(), |i: int| list[i]@)
}

// ---------------------------------------------------------------------------
// Trimming
// ---------------------------------------------------------------------------

/// `s` without the white space at its start.
pub open spec fn trim_start(s: Seq<char>) -> Seq<char>
    decreases s.len(),
{
    if s.len() > 0 && white(s.first()) {
        trim_start(s.drop_first())
    } else {
        s
    }
}

/// `s` without the white space at its end.
pub open spec fn trim_end(s: Seq<char>) -> Seq<char>
    decreases s.len(),
{
    if s.len() > 0 && white(s.last()) {
        trim_end(s.drop_last())
    } else {
        s
    }
}

/// `s` without the white space at its two ends.
pub open spec fn trimmed(s: Seq<char>) -> Seq<char> {
    trim_end(trim_start(s))
}

/// Whether `s` holds white space only.
pub open spec fn blank(s: Seq<char>) -> bool {
    trimmed(s).len() == 0
}

proof fn lemma_trim_start(s: Seq<char>, k: int)
    requires
        0 <= k <= s.len(),
        forall|i: int| 0 <= i < k ==> white(#[trigger] s[i]),
        k < s.len() ==> !white(s[k]),
    ensures
        trim_start(s) == s.skip(k),
    decreases k,
{
    if k == 0 {
        assert(s.skip(0) =~= s);
    } else {
        assert(white(s[0]));
        let rest = s.drop_first();
        assert forall|i: int| 0 <= i < k - 1 implies white(#[trigger] rest[i]) by {
            assert(rest[i] == s[i + 1]);
        }
        lemma_trim_start(rest, k - 1);
        assert(rest.skip(k - 1) =~= s.skip(k));
    }
}

proof fn lemma_trim_end(s: Seq<char>, k: int)
    requires
        0 <= k <= s.len(),
        forall|i: int| k <= i < s.len() ==> white(#[trigger] s[i]),
        k > 0 ==> !white(s[k - 1]),
    ensures
        trim_end(s) == s.take(k),
    decreases s.len() - k,
{
    if k == s.len() {
        assert(s.take(k) =~= s);
    } else {
        assert(white(s[s.len() - 1]));
        lemma_trim_end(s.drop_last(), k);
        assert(s.drop_last().take(k) =~= s.take(k));
    }
}

/// A blank text is one whose every character is white space.
pub proof fn lemma_blank(s: Seq<char>)
    ensures
        blank(s) <==> forall|i: int| 0 <= i < s.len() ==> white(#[trigger] s[i]),
    decreases s.len(),
{
    if s.len() > 0 {
        if white(s[0]) {
            let rest = s.drop_first();
            lemma_blank(rest);
            assert(trimmed(s) == trimmed(rest));
            if blank(s) {
                assert forall|i: int| 0 <= i < s.len() implies white(#[trigger] s[i]) by {
                    if i > 0 {
                        assert(white(rest[i - 1]));
                    }
                }
            } else {
                let j = choose|j: int| 0 <= j < rest.len() && !white(#[trigger] rest[j]);
                assert(!white(s[j + 1]));
            }
        } else {
            lemma_trim_end_keeps(s);
        }
    }
}

proof fn lemma_trim_end_keeps(s: Seq<char>)
    requires
        s.len() > 0,
        !white(s[0]),
    ensures
        trim_end(s).len() > 0,
    decreases s.len(),
{
    if white(s.last()) {
        lemma_trim_end_keeps(s.drop_last());
    }
}

proof fn lemma_ends(s: Seq<char>)
    ensures
        trim_start(s).len() > 0 ==> !white(trim_start(s).first()),
        trim_end(s).len() > 0 ==> !white(trim_end(s).last()),
        trim_end(s).len() > 0 ==> s.len() > 0 && trim_end(s).first() == s.first(),
    decreases s.len(),
{
    if s.len() > 0 {
        lemma_ends(s.drop_first());
        lemma_ends(s.drop_last());
    }
}

/// A text that was trimmed has nothing more to trim.
pub proof fn trimmed_twice(s: Seq<char>)
    ensures
        trimmed(trimmed(s)) == trimmed(s),
{
    lemma_ends(s);
    lemma_ends(trim_start(s));
}

/// The text without the white space at its two ends.
pub fn trim(text: &str) -> (result: String)
    ensures
        result@ == trimmed(text@),
{
    let chars = chars_of(text);
    let mut from: usize = 0;
    while from < chars.len() && is_white(chars[from])
        invariant
            from <= chars@.len(),
            forall|i: int| 0 <= i < from ==> white(#[trigger] chars@[i]),
        decreases chars@.len() - from,
    {
        from = from + 1;
    }
    let mut to: usize = chars.len();
    while to > from && is_white(chars[to - 1])
        invariant
            from <= to <= chars@.len(),
            forall|i: int| to <= i < chars@.len() ==> white(#[trigger] chars@[i]),
        decreases to,
    {
        to = to - 1;
    }
    proof {
        lemma_trim_start(chars@, from as int);
        let rest = chars@.skip(from as int);
        assert forall|i: int| to - from <= i < rest.len() implies white(#[trigger] rest[i]) by {
            assert(rest[i] == chars@[i + from]);
        }
        lemma_trim_end(rest, to - from);
        assert(rest.take(to - from) =~= chars@.subrange(from as int, to as int));
    }
    text_of(&chars, from, to)
}

/// Whether the text holds white space only.
pub fn is_blank(text: &str) -> (answer: bool)
    ensures
        answer == blank(text@),
{
    trim(text).as_str().is_empty()
}

/// `s` without the characters at its end that are in `set`.
pub open spec fn trim_end_of(s: Seq<char>, set: Seq<char>) -> Seq<char>
    decreases s.len(),
{
    if s.len() > 0 && set.contains(s.last()) {
        trim_end_of(s.drop_last(), set)
    } else {
        s
    }
}

/// The text without the characters at its end that are in `set`.
pub fn trim_end_matches(text: &str, set: &str) -> (result: String)
    ensures
        result@ == trim_end_of(text@, set@),
{
    let chars = chars_of(text);
    let members = chars_of(set);
    let mut to: usize = chars.len();
    assert(chars@.take(to as int) =~= chars@);
    while to > 0 && holds_char(&members, chars[to - 1])
        invariant
            to <= chars@.len(),
            members@ == set@,
            trim_end_of(chars@, set@) == trim_end_of(chars@.take(to as int), set@),
        decreases to,
    {
        assert(chars@.take(to as int).drop_last() =~= chars@.take(to - 1));
        to = to - 1;
    }
    assert(chars@.take(to as int) =~= chars@.subrange(0, to as int));
    text_of(&chars, 0, to)
}

/// Whether `c` is among `chars`.
pub fn holds_char(chars: &Vec<char>, c: char) -> (answer: bool)
    ensures
        answer == chars@.contains(c),
{
    let mut at: usize = 0;
    while at < chars.len()
        invariant
            at <= chars@.len(),
            forall|i: int| 0 <= i < at ==> chars@[i] != c,
        decreases chars@.len() - at,
    {
        if chars[at] == c {
            return true;
        }
        at = at + 1;
    }
    false
}

/// `s` without as many copies of `prefix` as stand at its start.
pub open spec fn trim_start_of(s: Seq<char>, prefix: Seq<char>) -> Seq<char>
    decreases s.len(),
{
    if prefix.len() > 0 && prefix.is_prefix_of(s) {
        trim_start_of(s.skip(prefix.len() as int), prefix)
    } else {
        s
    }
}

// ---------------------------------------------------------------------------
// Prefixes and searching
// ---------------------------------------------------------------------------

/// Whether `needle` stands in `s` at position `at`.
pub open spec fn found_at(s: Seq<char>, needle: Seq<char>, at: int) -> bool {
    0 <= at && at + needle.len() <= s.len() && s.subrange(at, at + needle.len()) == needle
}

/// Whether `needle` stands somewhere in `s`.
pub open spec fn holds(s: Seq<char>, needle: Seq<char>) -> bool {
    exists|at: int| found_at(s, needle, at)
}

fn stands_at(chars: &Vec<char>, needle: &Vec<char>, at: usize) -> (answer: bool)
    requires
        at <= chars@.len(),
    ensures
        answer == found_at(chars@, needle@, at as int),
{
    if needle.len() > chars.len() - at {
        return false;
    }
    let mut i: usize = 0;
    while i < needle.len()
        invariant
            i <= needle@.len(),
            at + needle.len() <= chars.len(),
            forall|j: int| 0 <= j < i ==> chars@[at + j] == #[trigger] needle@[j],
        decreases needle@.len() - i,
    {
        if chars[at + i] != needle[i] {
            assert(chars@.subrange(at as int, at + needle@.len())[i as int] != needle@[i as int]);
            return false;
        }
        i = i + 1;
    }
    assert(chars@.subrange(at as int, at + needle@.len()) =~= needle@);
    true
}

/// Whether `needle` stands somewhere in the text.
pub fn contains(text: &str, needle: &str) -> (answer: bool)
    ensures
        answer == holds(text@, needle@),
{
    let chars = chars_of(text);
    let wanted = chars_of(needle);
    let mut at: usize = 0;
    while at < chars.len()
        invariant
            at <= chars@.len(),
            chars@ == text@,
            wanted@ == needle@,
            forall|i: int| 0 <= i < at ==> !#[trigger] found_at(text@, needle@, i),
        decreases chars@.len() - at,
    {
        if stands_at(&chars, &wanted, at) {
            return true;
        }
        at = at + 1;
    }
    stands_at(&chars, &wanted, at)
}

/// Whether the text starts with `prefix`.
pub fn starts_with(text: &str, prefix: &str) -> (answer: bool)
    ensures
        answer == prefix@.is_prefix_of(text@),
{
    let chars = chars_of(text);
    let wanted = chars_of(prefix);
    let answer = stands_at(&chars, &wanted, 0);
    proof {
        if answer {
            assert(text@.subrange(0, prefix@.len() as int) == prefix@);
        } else if prefix@.is_prefix_of(text@) {
            assert(text@.subrange(0, prefix@.len() as int) =~= prefix@);
        }
    }
    answer
}

/// What follows `prefix` in `s`, where `s` starts with it.
pub open spec fn after_prefix(s: Seq<char>, prefix: Seq<char>) -> Option<Seq<char>> {
    if prefix.is_prefix_of(s) {
        Some(s.skip(prefix.len() as int))
    } else {
        None
    }
}

/// What follows `prefix` in the text, where the text starts with it.
pub fn strip_prefix(text: &str, prefix: &str) -> (result: Option<String>)
    ensures
        result is Some <==> after_prefix(text@, prefix@) is Some,
        result matches Some(rest) ==> Some(rest@) == after_prefix(text@, prefix@),
{
    if starts_with(text, prefix) {
        let chars = chars_of(text);
        let skipped = chars_of(prefix).len();
        assert(chars@.subrange(skipped as int, chars@.len() as int) =~= chars@.skip(skipped as int));
        Some(text_of(&chars, skipped, chars.len()))
    } else {
        None
    }
}

/// The text without as many copies of `prefix` as stand at its start.
pub fn trim_start_matches(text: &str, prefix: &str) -> (result: String)
    requires
        prefix@.len() > 0,
    ensures
        result@ == trim_start_of(text@, prefix@),
    decreases text@.len(),
{
    match strip_prefix(text, prefix) {
        Some(rest) => trim_start_matches(rest.as_str(), prefix),
        None => text.to_string(),
    }
}

/// The position of the first `c` in `s`, or the length of `s` where there is none.
pub open spec fn first_of(s: Seq<char>, c: char) -> int
    decreases s.len(),
{
    if s.len() == 0 || s.first() == c {
        0
    } else {
        1 + first_of(s.drop_first(), c)
    }
}

/// What `first_of` returns: a bound, and what stands before and at that position.
pub proof fn lemma_first_of(s: Seq<char>, c: char)
    ensures
        0 <= first_of(s, c) <= s.len(),
        forall|i: int| 0 <= i < first_of(s, c) ==> s[i] != c,
        first_of(s, c) < s.len() ==> s[first_of(s, c)] == c,
        s.contains(c) <==> first_of(s, c) < s.len(),
    decreases s.len(),
{
    if s.len() > 0 && s.first() != c {
        let rest = s.drop_first();
        lemma_first_of(rest, c);
        assert forall|i: int| 0 <= i < first_of(s, c) implies s[i] != c by {
            if i > 0 {
                assert(s[i] == rest[i - 1]);
            }
        }
        if s.contains(c) {
            let j = s.index_of(c);
            assert(rest[j - 1] == c);
        }
    }
}

proof fn lemma_first_of_is(s: Seq<char>, c: char, k: int)
    requires
        0 <= k <= s.len(),
        forall|i: int| 0 <= i < k ==> s[i] != c,
        k < s.len() ==> s[k] == c,
    ensures
        first_of(s, c) == k,
{
    lemma_first_of(s, c);
}

/// The position of the first `c` at or after `from`, or the length where there is none.
pub fn find_char(chars: &Vec<char>, c: char, from: usize) -> (at: usize)
    requires
        from <= chars@.len(),
    ensures
        from <= at <= chars@.len(),
        at == from + first_of(chars@.skip(from as int), c),
{
    let mut at: usize = from;
    while at < chars.len() && chars[at] != c
        invariant
            from <= at <= chars@.len(),
            forall|i: int| from <= i < at ==> chars@[i] != c,
        decreases chars@.len() - at,
    {
        at = at + 1;
    }
    proof {
        lemma_first_of_is(chars@.skip(from as int), c, at - from);
    }
    at
}

/// The parts of `s` before and after its first `c`.
pub open spec fn split_at_first(s: Seq<char>, c: char) -> Option<(Seq<char>, Seq<char>)> {
    if s.contains(c) {
        Some((s.take(first_of(s, c)), s.skip(first_of(s, c) + 1)))
    } else {
        None
    }
}

/// The parts of the text before and after its first `c`.
pub fn split_once(text: &str, c: char) -> (result: Option<(String, String)>)
    ensures
        result is Some <==> split_at_first(text@, c) is Some,
        result matches Some(parts) ==> Some((parts.0@, parts.1@)) == split_at_first(text@, c),
{
    let chars = chars_of(text);
    let at = find_char(&chars, c, 0);
    proof {
        assert(chars@.skip(0) =~= chars@);
        lemma_first_of(chars@, c);
    }
    if at < chars.len() {
        assert(chars@.subrange(0, at as int) =~= chars@.take(at as int));
        assert(chars@.subrange(at + 1, chars@.len() as int) =~= chars@.skip(at + 1));
        Some((text_of(&chars, 0, at), text_of(&chars, at + 1, chars.len())))
    } else {
        None
    }
}

// ---------------------------------------------------------------------------
// Words and lines
// ---------------------------------------------------------------------------

/// How many characters at the start of `s` are no white space.
pub open spec fn word_len(s: Seq<char>) -> int
    decreases s.len(),
{
    if s.len() == 0 || white(s.first()) {
        0
    } else {
        1 + word_len(s.drop_first())
    }
}

pub proof fn lemma_word_len(s: Seq<char>, k: int)
    requires
        0 <= k <= s.len(),
        forall|i: int| 0 <= i < k ==> !white(#[trigger] s[i]),
        k < s.len() ==> white(s[k]),
    ensures
        word_len(s) == k,
    decreases k,
{
    if k > 0 {
        assert(!white(s[0]));
        let rest = s.drop_first();
        assert forall|i: int| 0 <= i < k - 1 implies !white(#[trigger] rest[i]) by {
            assert(rest[i] == s[i + 1]);
        }
        lemma_word_len(rest, k - 1);
    }
}

pub proof fn lemma_word_len_bound(s: Seq<char>)
    ensures
        0 <= word_len(s) <= s.len(),
        s.len() > 0 && !white(s.first()) ==> word_len(s) > 0,
    decreases s.len(),
{
    if s.len() > 0 && !white(s.first()) {
        lemma_word_len_bound(s.drop_first());
    }
}

proof fn lemma_trim_start_len(s: Seq<char>)
    ensures
        trim_start(s).len() <= s.len(),
        trim_start(s).len() > 0 ==> !white(trim_start(s).first()),
    decreases s.len(),
{
    if s.len() > 0 && white(s.first()) {
        lemma_trim_start_len(s.drop_first());
    }
}

/// The words of `s`: its longest pieces without white space, in order.
pub open spec fn words_of(s: Seq<char>) -> Seq<Seq<char>>
    decreases s.len(),
    via words_of_decreases
{
    let t = trim_start(s);
    if t.len() == 0 {
        Seq::empty()
    } else {
        seq![t.take(word_len(t))] + words_of(t.skip(word_len(t)))
    }
}

#[via_fn]
proof fn words_of_decreases(s: Seq<char>) {
    lemma_trim_start_len(s);
    lemma_word_len_bound(trim_start(s));
}

/// The words of the text, in order.
pub fn words(text: &str) -> (result: Vec<String>)
    ensures
        texts(result@) == words_of(text@),
{
    let chars = chars_of(text);
    let mut result: Vec<String> = Vec::new();
    let mut at: usize = 0;
    assert(chars@.skip(0) =~= chars@);
    assert(texts(result@) + words_of(chars@) =~= words_of(chars@));
    while at < chars.len()
        invariant
            at <= chars@.len(),
            chars@ == text@,
            texts(result@) + words_of(chars@.skip(at as int)) == words_of(text@),
        decreases chars@.len() - at,
    {
        let ghost rest = chars@.skip(at as int);
        let ghost before = result@;
        if is_white(chars[at]) {
            proof {
                assert(rest.first() == chars@[at as int]);
                assert(rest.drop_first() =~= chars@.skip(at + 1));
                assert(trim_start(rest) == trim_start(chars@.skip(at + 1)));
                assert(words_of(rest) == words_of(chars@.skip(at + 1)));
            }
            at = at + 1;
        } else {
            let from: usize = at;
            at = at + 1;
            while at < chars.len() && !is_white(chars[at])
                invariant
                    from < at <= chars@.len(),
                    forall|i: int| from <= i < at ==> !white(#[trigger] chars@[i]),
                decreases chars@.len() - at,
            {
                at = at + 1;
            }
            result.push(text_of(&chars, from, at));
            proof {
                assert(rest.first() == chars@[from as int]);
                assert(trim_start(rest) == rest);
                assert forall|i: int| 0 <= i < at - from implies !white(#[trigger] rest[i]) by {
                    assert(rest[i] == chars@[i + from]);
                }
                lemma_word_len(rest, at - from);
                assert(rest.take(at - from) =~= chars@.subrange(from as int, at as int));
                assert(rest.skip(at - from) =~= chars@.skip(at as int));
                assert(texts(result@) =~= texts(before).push(rest.take(at - from)));
                assert(texts(before) + (seq![rest.take(at - from)] + words_of(rest.skip(at - from)))
                    =~= texts(result@) + words_of(chars@.skip(at as int)));
            }
        }
    }
    proof {
        assert(chars@.skip(at as int) =~= Seq::<char>::empty());
        assert(words_of(Seq::<char>::empty()) =~= Seq::<Seq<char>>::empty());
        assert(texts(result@) + Seq::<Seq<char>>::empty() =~= texts(result@));
    }
    result
}

/// A line without the carriage return at its end.
pub open spec fn without_return(line: Seq<char>) -> Seq<char> {
    if line.len() > 0 && line.last() == '\r' {
        line.drop_last()
    } else {
        line
    }
}

/// The lines of `s`. A line ends with a line feed, or a carriage return and a line feed; the last
/// line may lack its end.
pub open spec fn lines_of(s: Seq<char>) -> Seq<Seq<char>>
    decreases s.len(),
    via lines_of_decreases
{
    let n = first_of(s, '\n');
    if s.len() == 0 {
        Seq::empty()
    } else if n >= s.len() {
        seq![s]
    } else {
        seq![without_return(s.take(n))] + lines_of(s.skip(n + 1))
    }
}

#[via_fn]
proof fn lines_of_decreases(s: Seq<char>) {
    lemma_first_of(s, '\n');
}

/// The lines of the text, without their ends.
pub fn lines(text: &str) -> (result: Vec<String>)
    ensures
        texts(result@) == lines_of(text@),
{
    let chars = chars_of(text);
    let mut result: Vec<String> = Vec::new();
    let mut at: usize = 0;
    assert(chars@.skip(0) =~= chars@);
    assert(texts(result@) + lines_of(chars@) =~= lines_of(chars@));
    while at < chars.len()
        invariant
            at <= chars@.len(),
            chars@ == text@,
            texts(result@) + lines_of(chars@.skip(at as int)) == lines_of(text@),
        decreases chars@.len() - at,
    {
        let ghost rest = chars@.skip(at as int);
        let ghost before = result@;
        let end = find_char(&chars, '\n', at);
        proof {
            lemma_first_of(rest, '\n');
        }
        if end == chars.len() {
            result.push(text_of(&chars, at, end));
            proof {
                assert(chars@.subrange(at as int, end as int) =~= rest);
                assert(lines_of(rest) =~= seq![rest]);
                assert(texts(result@) =~= texts(before) + seq![rest]);
                assert(chars@.skip(end as int) =~= Seq::<char>::empty());
                assert(lines_of(Seq::<char>::empty()) =~= Seq::<Seq<char>>::empty());
                assert(texts(result@) + Seq::<Seq<char>>::empty() =~= texts(result@));
            }
            at = end;
        } else {
            let stop: usize = if end > at && chars[end - 1] == '\r' { end - 1 } else { end };
            result.push(text_of(&chars, at, stop));
            proof {
                let line = rest.take(end - at);
                assert(line =~= chars@.subrange(at as int, end as int));
                assert(without_return(line) =~= chars@.subrange(at as int, stop as int));
                assert(rest.skip(end - at + 1) =~= chars@.skip(end + 1));
                assert(texts(result@) =~= texts(before).push(without_return(line)));
                assert(texts(before) + (seq![without_return(line)] + lines_of(chars@.skip(end + 1)))
                    =~= texts(result@) + lines_of(chars@.skip(end + 1)));
            }
            at = end + 1;
        }
    }
    proof {
        assert(chars@.skip(at as int) =~= Seq::<char>::empty());
        assert(lines_of(Seq::<char>::empty()) =~= Seq::<Seq<char>>::empty());
        assert(texts(result@) + Seq::<Seq<char>>::empty() =~= texts(result@));
    }
    result
}

/// The pieces of a list, with `separator` between each two of them.
pub open spec fn joined(list: Seq<Seq<char>>, separator: Seq<char>) -> Seq<char>
    decreases list.len(),
{
    if list.len() == 0 {
        Seq::empty()
    } else if list.len() == 1 {
        list[0]
    } else {
        joined(list.drop_last(), separator) + separator + list.last()
    }
}

/// The pieces of the list, with `separator` between each two of them.
pub fn join(list: &Vec<String>, separator: &str) -> (result: String)
    ensures
        result@ == joined(texts(list@), separator@),
{
    let mut result: String = String::new();
    let ghost all = texts(list@);
    let mut at: usize = 0;
    assert(all.take(0) =~= Seq::<Seq<char>>::empty());
    while at < list.len()
        invariant
            at <= list@.len(),
            all == texts(list@),
            result@ == joined(all.take(at as int), separator@),
        decreases list@.len() - at,
    {
        if at > 0 {
            result.append(separator);
        }
        result.append(list[at].as_str());
        proof {
            let next = all.take(at + 1);
            assert(next.drop_last() =~= all.take(at as int));
            assert(next.last() == list@[at as int]@);
            if at == 0 {
                assert(Seq::<char>::empty() + list@[0]@ =~= list@[0]@);
            }
        }
        at = at + 1;
    }
    assert(all.take(at as int) =~= all);
    result
}

// ---------------------------------------------------------------------------
// Letters
// ---------------------------------------------------------------------------

/// One line for each text of a list, with a dash before it.
pub open spec fn bulleted(list: Seq<Seq<char>>) -> Seq<char> {
    joined(Seq::new(list.len(), |i: int| "- "@ + list[i]), "\n"@)
}

/// One line for each text of the list, with a dash before it.
pub fn bullets(list: &Vec<String>) -> (result: String)
    ensures
        result@ == bulleted(texts(list@)),
{
    let mut lines: Vec<String> = Vec::new();
    let ghost all = texts(list@);
    let mut at: usize = 0;
    while at < list.len()
        invariant
            at <= list@.len(),
            all == texts(list@),
            lines@.len() == at,
            forall|i: int| 0 <= i < at ==> (#[trigger] lines@[i])@ == "- "@ + all[i],
        decreases list@.len() - at,
    {
        assert(all[at as int] == list@[at as int]@);
        lines.push("- ".to_string().concat(list[at].as_str()));
        at = at + 1;
    }
    assert(texts(lines@) =~= Seq::new(all.len(), |i: int| "- "@ + all[i]));
    join(&lines, "\n")
}

/// `c` with an ASCII capital made small.
pub open spec fn lower_char(c: char) -> char {
    if 'A' <= c <= 'Z' {
        ((c as u32) + 32) as char
    } else {
        c
    }
}

/// `s` with its ASCII capitals made small.
pub open spec fn lowered(s: Seq<char>) -> Seq<char> {
    Seq::new(s.len(), |i: int| lower_char(s[i]))
}

/// `c` with an ASCII capital made small.
pub fn to_lower_char(c: char) -> (result: char)
    ensures
        result == lower_char(c),
{
    if c >= 'A' && c <= 'Z' {
        let n: u8 = c as u8;
        (n + 32) as char
    } else {
        c
    }
}

/// The text with its ASCII capitals made small.
pub fn lower(text: &str) -> (result: String)
    ensures
        result@ == lowered(text@),
{
    let mut result: String = String::new();
    for c in it: text.chars()
        invariant
            it.seq() == text@,
            result@ == lowered(text@).take(it.index() as int),
    {
        assert(lowered(text@).take(it.index() + 1) =~= lowered(text@).take(it.index() as int).push(lower_char(c)));
        result.push(to_lower_char(c));
    }
    assert(lowered(text@).take(text@.len() as int) =~= lowered(text@));
    result
}

/// Whether two texts are the same but for the case of ASCII letters.
pub fn same_ignoring_case(left: &str, right: &str) -> (answer: bool)
    ensures
        answer == (lowered(left@) == lowered(right@)),
{
    lower(left) == lower(right)
}

/// ASCII letters and digits.
pub open spec fn alphanumeric(c: char) -> bool {
    ||| '0' <= c <= '9'
    ||| 'a' <= c <= 'z'
    ||| 'A' <= c <= 'Z'
}

/// Whether every character of `s` is an ASCII letter, a digit or one of `extra`.
pub open spec fn plain(s: Seq<char>, extra: Seq<char>) -> bool {
    forall|i: int| 0 <= i < s.len() ==> alphanumeric(#[trigger] s[i]) || extra.contains(s[i])
}

/// Whether every character of the text is an ASCII letter, a digit or one of `extra`.
pub fn is_plain(text: &str, extra: &str) -> (answer: bool)
    ensures
        answer == plain(text@, extra@),
{
    let chars = chars_of(text);
    let allowed = chars_of(extra);
    let mut at: usize = 0;
    while at < chars.len()
        invariant
            at <= chars@.len(),
            chars@ == text@,
            allowed@ == extra@,
            forall|i: int| 0 <= i < at ==> alphanumeric(#[trigger] chars@[i]) || extra@.contains(chars@[i]),
        decreases chars@.len() - at,
    {
        let c: char = chars[at];
        let letter = (c >= '0' && c <= '9') || (c >= 'a' && c <= 'z') || (c >= 'A' && c <= 'Z');
        if !letter && !holds_char(&allowed, c) {
            assert(!(alphanumeric(text@[at as int]) || extra@.contains(text@[at as int])));
            return false;
        }
        at = at + 1;
    }
    true
}

/// The first `count` characters of `s`, or all of them where there are fewer.
pub open spec fn first_chars(s: Seq<char>, count: int) -> Seq<char> {
    if s.len() <= count {
        s
    } else {
        s.take(count)
    }
}

/// The first `count` characters of the text, or all of them where there are fewer.
pub fn take_chars(text: &str, count: usize) -> (result: String)
    ensures
        result@ == first_chars(text@, count as int),
{
    let chars = chars_of(text);
    if chars.len() <= count {
        text.to_string()
    } else {
        assert(chars@.subrange(0, count as int) =~= chars@.take(count as int));
        text_of(&chars, 0, count)
    }
}

// ---------------------------------------------------------------------------
// Numbers
// ---------------------------------------------------------------------------

/// The decimal digit of value `n`.
pub open spec fn digit(n: int) -> char {
    (48 + n) as char
}

/// The decimal digits of `n`, without leading zeros.
pub open spec fn digits(n: nat) -> Seq<char>
    decreases n,
{
    if n < 10 {
        seq![digit(n as int)]
    } else {
        digits(n / 10).push(digit((n % 10) as int))
    }
}

/// The decimal form of a whole number.
pub open spec fn signed_digits(n: int) -> Seq<char> {
    if n < 0 {
        seq!['-'] + digits((-n) as nat)
    } else {
        digits(n as nat)
    }
}

/// The decimal digits of a long number.
pub fn decimal_of(n: u128) -> (result: String)
    ensures
        result@ == digits(n as nat),
    decreases n,
{
    if n < 10 {
        let mut result = String::new();
        result.push((48 + n as u8) as char);
        assert(result@ =~= seq![digit(n as int)]);
        result
    } else {
        let mut result = decimal_of(n / 10);
        result.push((48 + (n % 10) as u8) as char);
        result
    }
}

/// The decimal digits of `n`.
pub fn decimal(n: u64) -> (result: String)
    ensures
        result@ == digits(n as nat),
{
    decimal_of(n as u128)
}

/// The decimal form of `n`.
pub fn signed_decimal(n: i32) -> (result: String)
    ensures
        result@ == signed_digits(n as int),
{
    if n < 0 {
        let mut result: String = String::new();
        result.push('-');
        let size: u64 = (0 - n as i64) as u64;
        result.append(decimal(size).as_str());
        assert(result@ =~= seq!['-'] + digits(size as nat));
        result
    } else {
        decimal(n as u64)
    }
}

/// Whether `s` holds decimal digits only.
pub open spec fn all_digits(s: Seq<char>) -> bool {
    forall|i: int| 0 <= i < s.len() ==> '0' <= #[trigger] s[i] <= '9'
}

/// The number that the decimal digits of `s` spell.
pub open spec fn digits_value(s: Seq<char>) -> nat
    decreases s.len(),
{
    if s.len() == 0 {
        0
    } else {
        digits_value(s.drop_last()) * 10 + (s.last() as u32 - 48) as nat
    }
}

/// The number that `s` spells: digits, with an optional plus sign before them, of a value that
/// fits in 64 bits.
pub open spec fn number_of(s: Seq<char>) -> Option<u64> {
    let rest = if s.len() > 0 && s[0] == '+' { s.skip(1) } else { s };
    if rest.len() > 0 && all_digits(rest) && digits_value(rest) <= u64::MAX {
        Some(digits_value(rest) as u64)
    } else {
        None
    }
}

proof fn lemma_value_grows(s: Seq<char>, k: int)
    requires
        0 <= k <= s.len(),
        all_digits(s),
    ensures
        digits_value(s.take(k)) <= digits_value(s),
    decreases s.len() - k,
{
    if k < s.len() {
        lemma_value_grows(s, k + 1);
        let next = s.take(k + 1);
        assert(next.drop_last() =~= s.take(k));
        assert(digits_value(next) >= digits_value(s.take(k)) * 10);
    } else {
        assert(s.take(k) =~= s);
    }
}

/// The number that the text spells, where it spells one.
pub fn parse_number(text: &str) -> (result: Option<u64>)
    ensures
        result == number_of(text@),
{
    let chars = chars_of(text);
    let from: usize = if chars.len() > 0 && chars[0] == '+' { 1 } else { 0 };
    let ghost rest = chars@.skip(from as int);
    assert(from == 0 ==> rest =~= chars@);
    if from == chars.len() {
        return None;
    }
    let mut value: u64 = 0;
    let mut at: usize = from;
    assert(rest.take(0) =~= Seq::<char>::empty());
    while at < chars.len()
        invariant
            from <= at <= chars@.len(),
            rest == chars@.skip(from as int),
            from < chars@.len(),
            chars@ == text@,
            rest == if text@.len() > 0 && text@[0] == '+' { text@.skip(1) } else { text@ },
            forall|i: int| 0 <= i < at - from ==> '0' <= #[trigger] rest[i] <= '9',
            value == digits_value(rest.take(at - from)),
        decreases chars@.len() - at,
    {
        let c: char = chars[at];
        assert(rest[at - from] == c);
        if c < '0' || c > '9' {
            return None;
        }
        proof {
            let next = rest.take(at - from + 1);
            assert(next.drop_last() =~= rest.take(at - from));
            assert(digits_value(next) == value * 10 + (c as u32 - 48));
            if all_digits(rest) {
                lemma_value_grows(rest, at - from + 1);
            }
        }
        let one: u64 = (c as u8 - 48) as u64;
        let tenfold = match value.checked_mul(10) {
            Some(product) => product,
            None => {
                return None;
            },
        };
        value = match tenfold.checked_add(one) {
            Some(sum) => sum,
            None => {
                return None;
            },
        };
        at = at + 1;
    }
    assert(rest.take(at - from) =~= rest);
    Some(value)
}

/// "true" or "false".
pub open spec fn truth(b: bool) -> Seq<char> {
    if b {
        "true"@
    } else {
        "false"@
    }
}

/// The word for a truth value.
pub fn truth_text(b: bool) -> (result: String)
    ensures
        result@ == truth(b),
{
    if b {
        "true".to_string()
    } else {
        "false".to_string()
    }
}

// ---------------------------------------------------------------------------
// What always holds
// ---------------------------------------------------------------------------

/// A text holds each part that it was put together from.
pub proof fn parts_are_held(before: Seq<char>, middle: Seq<char>, after: Seq<char>)
    ensures
        holds(before + middle + after, middle),
{
    let whole = before + middle + after;
    assert(whole.subrange(before.len() as int, (before.len() + middle.len()) as int) =~= middle);
    assert(found_at(whole, middle, before.len() as int));
}

/// What is held in a part of a text is held in the text.
pub proof fn holding_is_transitive(whole: Seq<char>, part: Seq<char>, needle: Seq<char>)
    requires
        holds(whole, part),
        holds(part, needle),
    ensures
        holds(whole, needle),
{
    let a = choose|at: int| found_at(whole, part, at);
    let b = choose|at: int| found_at(part, needle, at);
    assert(whole.subrange(a + b, a + b + needle.len()) =~= whole.subrange(a, a + part.len()).subrange(b, b + needle.len()));
    assert(found_at(whole, needle, a + b));
}

/// Two texts with the same start and the same end are the same only where what stands between is.
pub proof fn frames_tell_apart(before: Seq<char>, left: Seq<char>, right: Seq<char>, after: Seq<char>)
    requires
        before + left + after == before + right + after,
    ensures
        left == right,
{
    let one = before + left + after;
    let other = before + right + after;
    assert(one.len() == before.len() + left.len() + after.len());
    assert(other.len() == before.len() + right.len() + after.len());
    assert(left.len() == right.len());
    assert forall|i: int| 0 <= i < left.len() implies left[i] == right[i] by {
        let k = before.len() + i;
        assert((before + left)[k] == left[i]);
        assert((before + right)[k] == right[i]);
        assert(one[k] == left[i]);
        assert(other[k] == right[i]);
    }
    assert(left =~= right);
}

/// A number is read back from its decimal digits.
pub proof fn numbers_are_read_back(n: nat)
    ensures
        digits(n).len() > 0,
        all_digits(digits(n)),
        digits_value(digits(n)) == n,
        n <= u64::MAX ==> number_of(digits(n)) == Some(n as u64),
    decreases n,
{
    let shown = digits(n);
    if n < 10 {
        assert(shown.drop_last() =~= Seq::<char>::empty());
        assert(digits_value(Seq::<char>::empty()) == 0);
        assert(shown.last() == digit(n as int));
    } else {
        numbers_are_read_back(n / 10);
        let front = digits(n / 10);
        assert(shown.drop_last() =~= front);
        assert forall|i: int| 0 <= i < shown.len() implies '0' <= #[trigger] shown[i] <= '9' by {
            if i < front.len() {
                assert(shown[i] == front[i]);
            }
        }
    }
    assert('0' <= shown[0] <= '9');
}

/// Different numbers have different digits.
pub proof fn digits_tell_apart(left: nat, right: nat)
    requires
        digits(left) == digits(right),
    ensures
        left == right,
{
    numbers_are_read_back(left);
    numbers_are_read_back(right);
}

/// A list that is joined holds each of its texts, and starts with the first of them.
pub proof fn joined_texts_are_held(list: Seq<Seq<char>>, separator: Seq<char>, i: int)
    requires
        0 <= i < list.len(),
    ensures
        holds(joined(list, separator), list[i]),
        list[0].is_prefix_of(joined(list, separator)),
        list.len() > 1 ==> (list[0] + separator).is_prefix_of(joined(list, separator)),
        list.len() == 1 ==> joined(list, separator) == list[0],
    decreases list.len(),
{
    let whole = joined(list, separator);
    if list.len() == 1 {
        parts_are_held(Seq::empty(), list[0], Seq::empty());
        assert(Seq::<char>::empty() + list[0] + Seq::<char>::empty() =~= list[0]);
    } else {
        let rest = list.drop_last();
        let front = joined(rest, separator);
        joined_texts_are_held(rest, separator, 0);
        assert(whole =~= front + (separator + list.last()));
        if i == list.len() - 1 {
            parts_are_held(front + separator, list.last(), Seq::empty());
            assert(front + separator + list.last() + Seq::<char>::empty() =~= whole);
        } else {
            joined_texts_are_held(rest, separator, i);
            parts_are_held(Seq::empty(), front, separator + list.last());
            assert(Seq::<char>::empty() + front + (separator + list.last()) =~= whole);
            holding_is_transitive(whole, front, list[i]);
        }
        assert(rest[0] == list[0]);
        if list.len() == 2 {
            assert(front == list[0]);
            assert((list[0] + separator) =~= whole.subrange(0, (list[0] + separator).len() as int));
        } else {
            assert((list[0] + separator) =~= whole.subrange(0, (list[0] + separator).len() as int)) by {
                assert((list[0] + separator) =~= front.subrange(0, (list[0] + separator).len() as int));
            }
        }
        assert(list[0] =~= whole.subrange(0, list[0].len() as int)) by {
            assert(list[0] =~= front.subrange(0, list[0].len() as int));
        }
    }
}

/// A word is not empty and has no white space in it.
pub proof fn words_are_solid(s: Seq<char>, i: int)
    requires
        0 <= i < words_of(s).len(),
    ensures
        words_of(s)[i].len() > 0,
        forall|k: int| 0 <= k < words_of(s)[i].len() ==> !white(#[trigger] words_of(s)[i][k]),
    decreases s.len(),
{
    let t = trim_start(s);
    lemma_trim_start_len(s);
    lemma_word_len_bound(t);
    let n = word_len(t);
    if i == 0 {
        assert(words_of(s)[0] == t.take(n));
        word_chars_are_solid(t);
    } else {
        assert(words_of(s)[i] == words_of(t.skip(n))[i - 1]);
        words_are_solid(t.skip(n), i - 1);
    }
}

proof fn word_chars_are_solid(s: Seq<char>)
    ensures
        forall|k: int| 0 <= k < word_len(s) ==> !white(#[trigger] s[k]),
        word_len(s) < s.len() ==> white(s[word_len(s)]),
    decreases s.len(),
{
    if s.len() > 0 && !white(s.first()) {
        let rest = s.drop_first();
        word_chars_are_solid(rest);
        lemma_word_len_bound(rest);
        assert forall|k: int| 0 <= k < word_len(s) implies !white(#[trigger] s[k]) by {
            if k > 0 {
                assert(s[k] == rest[k - 1]);
            }
        }
        if word_len(s) < s.len() {
            assert(s[word_len(s)] == rest[word_len(rest)]);
        }
    }
}

/// A list with dashes holds each of its texts behind a dash.
pub proof fn bulleted_texts_are_held(list: Seq<Seq<char>>, i: int)
    requires
        0 <= i < list.len(),
    ensures
        holds(bulleted(list), "- "@ + list[i]),
        bulleted(list).len() > 0,
{
    let lines = Seq::new(list.len(), |k: int| "- "@ + list[k]);
    joined_texts_are_held(lines, "\n"@, i);
    assert(lines[i] == "- "@ + list[i]);
    reveal_strlit("- ");
    let at = choose|at: int| found_at(bulleted(list), lines[i], at);
    assert(lines[i].len() >= 2);
}

/// A text to which a label and a value were added holds the label with the value, the value, and what it
/// was before; and whatever that held.
pub proof fn additions_are_held(before: Seq<char>, label: Seq<char>, value: Seq<char>, needle: Seq<char>)
    ensures
        holds(before + label + value, label + value),
        holds(before + label + value, value),
        holds(before + label + value, before),
        holds(before, needle) ==> holds(before + label + value, needle),
{
    let whole = before + label + value;
    let n = before.len() as int;
    assert(holds(whole, label + value)) by {
        assert(whole.subrange(n, n + (label + value).len()) =~= label + value);
        assert(found_at(whole, label + value, n));
    }
    assert(holds(whole, value)) by {
        let m = (before + label).len() as int;
        assert(whole.subrange(m, m + value.len()) =~= value);
        assert(found_at(whole, value, m));
    }
    assert(holds(whole, before)) by {
        assert(whole.subrange(0, n) =~= before);
        assert(found_at(whole, before, 0));
    }
    if holds(before, needle) {
        holding_is_transitive(whole, before, needle);
    }
}

/// A text to which a named value was added, with something behind it, holds the name with the value.
pub proof fn entries_are_held(
    before: Seq<char>,
    label: Seq<char>,
    name: Seq<char>,
    mark: Seq<char>,
    value: Seq<char>,
    end: Seq<char>,
)
    ensures
        holds(before + label + name + mark + (value + end), label + name + mark + value),
{
    let whole = before + label + name + mark + (value + end);
    let entry = label + name + mark + value;
    let n = before.len() as int;
    let part = whole.subrange(n, n + entry.len());
    assert forall|i: int| 0 <= i < entry.len() implies part[i] == entry[i] by {
        assert(part[i] == whole[n + i]);
    }
    assert(part =~= entry);
    assert(found_at(whole, entry, n));
}

/// A line that is put before other lines is read back as the first of them, and the others follow.
pub proof fn lines_are_read_back(line: Seq<char>, rest: Seq<char>)
    requires
        !line.contains('\n'),
        line.len() == 0 || line.last() != '\r',
    ensures
        lines_of(line + seq!['\n'] + rest) == seq![line] + lines_of(rest),
        lines_of(line + seq!['\r', '\n'] + rest) == seq![line] + lines_of(rest),
        line.len() > 0 ==> lines_of(line) == seq![line],
{
    let whole = line + seq!['\n'] + rest;
    let n = line.len() as int;
    assert forall|i: int| 0 <= i < n implies whole[i] != '\n' by {
        assert(line.contains(line[i]));
        assert(whole[i] == line[i]);
    }
    assert(whole[n] == '\n');
    lemma_first_of_is(whole, '\n', n);
    assert(whole.take(n) =~= line);
    assert(whole.skip(n + 1) =~= rest);
    let other = line + seq!['\r', '\n'] + rest;
    assert forall|i: int| 0 <= i < n + 1 implies other[i] != '\n' by {
        if i < n {
            assert(line.contains(line[i]));
            assert(other[i] == line[i]);
        }
    }
    assert(other[n] == '\r' && other[n + 1] == '\n');
    lemma_first_of_is(other, '\n', n + 1);
    assert(other.take(n + 1) =~= line.push('\r'));
    assert(other.take(n + 1).drop_last() =~= line);
    assert(other.skip(n + 2) =~= rest);
    if line.len() > 0 {
        lemma_first_of(line, '\n');
    }
}

/// No line has a line feed in it.
pub proof fn lines_are_single(s: Seq<char>, i: int)
    requires
        0 <= i < lines_of(s).len(),
    ensures
        !lines_of(s)[i].contains('\n'),
    decreases s.len(),
{
    lemma_first_of(s, '\n');
    let n = first_of(s, '\n');
    if n < s.len() {
        if i == 0 {
            let line = s.take(n);
            assert forall|k: int| 0 <= k < without_return(line).len() implies without_return(line)[k] != '\n' by {
                assert(without_return(line)[k] == s[k]);
            }
        } else {
            assert(lines_of(s)[i] == lines_of(s.skip(n + 1))[i - 1]);
            lines_are_single(s.skip(n + 1), i - 1);
        }
    }
}

/// Small letters stay, capitals become small: a text and its small form have the same small form, which
/// has no capital in it.
pub proof fn small_letters_have_no_capitals(s: Seq<char>, i: int)
    requires
        0 <= i < s.len(),
    ensures
        lowered(s).len() == s.len(),
        lowered(lowered(s)) == lowered(s),
        !('A' <= lowered(s)[i] <= 'Z'),
        'A' <= s[i] <= 'Z' ==> lowered(s)[i] as u32 == s[i] as u32 + 32,
        !('A' <= s[i] <= 'Z') ==> lowered(s)[i] == s[i],
{
    assert(lowered(lowered(s)) =~= lowered(s));
}

/// What is put around a text in white space is trimmed away, and nothing of the text.
pub proof fn trimming_takes_the_ends_only(before: Seq<char>, s: Seq<char>, after: Seq<char>)
    requires
        forall|i: int| 0 <= i < before.len() ==> white(#[trigger] before[i]),
        forall|i: int| 0 <= i < after.len() ==> white(#[trigger] after[i]),
        s.len() > 0,
        !white(s.first()),
        !white(s.last()),
    ensures
        trimmed(before + s + after) == s,
{
    let whole = before + s + after;
    let n = before.len() as int;
    assert forall|i: int| 0 <= i < n implies white(#[trigger] whole[i]) by {
        assert(whole[i] == before[i]);
    }
    assert(whole[n] == s[0]);
    lemma_trim_start(whole, n);
    let rest = whole.skip(n);
    assert(rest =~= s + after);
    assert forall|i: int| s.len() <= i < rest.len() implies white(#[trigger] rest[i]) by {
        assert(rest[i] == after[i - s.len()]);
    }
    assert(rest[s.len() - 1] == s.last());
    lemma_trim_end(rest, s.len() as int);
    assert(rest.take(s.len() as int) =~= s);
}

} // verus!
