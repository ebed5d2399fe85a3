//! Hiding of words that look like credentials.

use vstd::prelude::*;
use vstd::utf8::*;

use crate::text;

verus! {

/// What stands in place of a hidden word.
pub open spec fn mask() -> Seq<char> {
    "[REDACTED]"@
}

/// Whether a word looks like a credential: it has the prefix of a known kind of key, or it is long
/// and gives a token a value.
pub open spec fn looks_secret(word: Seq<char>) -> bool {
    ||| "sk-"@.is_prefix_of(word)
    ||| "nsec1"@.is_prefix_of(word)
    ||| "ghp_"@.is_prefix_of(word)
    ||| "github_pat_"@.is_prefix_of(word)
    ||| {
        &&& encode_utf8(word).len() > 24
        &&& word.contains('=')
        &&& text::holds(text::lowered(word.take(text::first_of(word, '='))), "token"@)
    }
}

/// A word as it is shown.
pub open spec fn shown(word: Seq<char>) -> Seq<char> {
    if looks_secret(word) {
        mask()
    } else {
        word
    }
}

/// `s` with each word that looks like a credential hidden, and its white space as it was.
pub open spec fn redacted(s: Seq<char>) -> Seq<char>
    decreases s.len(),
    via redacted_decreases
{
    let n = text::word_len(s);
    if n >= s.len() {
        shown(s)
    } else {
        shown(s.take(n)) + seq![s[n]] + redacted(s.skip(n + 1))
    }
}

#[via_fn]
proof fn redacted_decreases(s: Seq<char>) {
    text::lemma_word_len_bound(s);
}

fn is_secret(word: &str) -> (answer: bool)
    ensures
        answer == looks_secret(word@),
{
    if text::starts_with(word, "sk-") || text::starts_with(word, "nsec1") || text::starts_with(
        word,
        "ghp_",
    ) || text::starts_with(word, "github_pat_") {
        return true;
    }
    if word.as_bytes().len() <= 24 {
        return false;
    }
    match text::split_once(word, '=') {
        Some(parts) => text::contains(text::lower(parts.0.as_str()).as_str(), "token"),
        None => false,
    }
}

/// The text with each word that looks like a credential hidden, and its white space as it was.
pub fn redact(input: &str) -> (output: String)
    ensures
        output@ == redacted(input@),
{
    let chars = text::chars_of(input);
    let mut output: String = String::new();
    let mut at: usize = 0;
    assert(chars@.skip(0) =~= chars@);
    assert(output@ + redacted(chars@) =~= redacted(chars@));
    loop
        invariant
            at <= chars@.len(),
            chars@ == input@,
            output@ + redacted(chars@.skip(at as int)) == redacted(input@),
        decreases chars@.len() - at,
    {
        let ghost rest = chars@.skip(at as int);
        let ghost before = output@;
        let from: usize = at;
        while at < chars.len() && !text::is_white(chars[at])
            invariant
                from <= at <= chars@.len(),
                forall|i: int| from <= i < at ==> !text::white(#[trigger] chars@[i]),
            decreases chars@.len() - at,
        {
            at = at + 1;
        }
        proof {
            assert forall|i: int| 0 <= i < at - from implies !text::white(#[trigger] rest[i]) by {
                assert(rest[i] == chars@[i + from]);
            }
            if at < chars@.len() {
                assert(rest[at - from] == chars@[at as int]);
            }
            text::lemma_word_len(rest, at - from);
            assert(rest.take(at - from) =~= chars@.subrange(from as int, at as int));
        }
        let word = text::text_of(&chars, from, at);
        if is_secret(word.as_str()) {
            output.append("[REDACTED]");
        } else {
            output.append(word.as_str());
        }
        if at == chars.len() {
            assert(rest.take(at - from) =~= rest);
            return output;
        }
        output.push(chars[at]);
        proof {
            assert(rest.skip(at - from + 1) =~= chars@.skip(at + 1));
            assert(output@ =~= before + shown(rest.take(at - from)) + seq![rest[at - from]]);
            assert(before + (shown(rest.take(at - from)) + seq![rest[at - from]] + redacted(chars@.skip(at + 1)))
                =~= output@ + redacted(chars@.skip(at + 1)));
        }
        at = at + 1;
    }
}

/// The white space of `s`, in order.
pub open spec fn spaces(s: Seq<char>) -> Seq<char>
    decreases s.len(),
{
    if s.len() == 0 {
        Seq::empty()
    } else if text::white(s.last()) {
        spaces(s.drop_last()).push(s.last())
    } else {
        spaces(s.drop_last())
    }
}

proof fn spaces_concat(left: Seq<char>, right: Seq<char>)
    ensures
        spaces(left + right) == spaces(left) + spaces(right),
    decreases right.len(),
{
    if right.len() == 0 {
        assert(left + right =~= left);
        assert(spaces(left) + spaces(right) =~= spaces(left));
    } else {
        assert((left + right).drop_last() =~= left + right.drop_last());
        spaces_concat(left, right.drop_last());
        if text::white(right.last()) {
            assert((spaces(left) + spaces(right.drop_last())).push(right.last())
                =~= spaces(left) + spaces(right));
        }
    }
}

/// Whether no character of `s` is white space.
pub open spec fn one_word(s: Seq<char>) -> bool {
    forall|i: int| 0 <= i < s.len() ==> !text::white(#[trigger] s[i])
}

proof fn one_word_has_no_spaces(s: Seq<char>)
    requires
        one_word(s),
    ensures
        spaces(s) == Seq::<char>::empty(),
    decreases s.len(),
{
    if s.len() > 0 {
        assert(!text::white(s[s.len() - 1]));
        one_word_has_no_spaces(s.drop_last());
    }
}

proof fn word_is_one_word(s: Seq<char>)
    ensures
        0 <= text::word_len(s) <= s.len(),
        one_word(s.take(text::word_len(s))),
        text::word_len(s) < s.len() ==> text::white(s[text::word_len(s)]),
    decreases s.len(),
{
    text::lemma_word_len_bound(s);
    if s.len() > 0 && !text::white(s.first()) {
        let rest = s.drop_first();
        word_is_one_word(rest);
        let n = text::word_len(s);
        assert forall|i: int| 0 <= i < n implies !text::white(#[trigger] s.take(n)[i]) by {
            if i > 0 {
                assert(rest.take(n - 1)[i - 1] == s.take(n)[i]);
            }
        }
    }
}

proof fn mask_is_one_word()
    ensures
        one_word(mask()),
        !looks_secret(mask()),
        mask().len() > 0,
{
    reveal_strlit("[REDACTED]");
    reveal_strlit("sk-");
    reveal_strlit("nsec1");
    reveal_strlit("ghp_");
    reveal_strlit("github_pat_");
    let m = mask();
    assert(m[0] == '[');
    assert(!m.contains('='));
    if "sk-"@.is_prefix_of(m) {
        assert("sk-"@[0] == m[0]);
    }
    if "nsec1"@.is_prefix_of(m) {
        assert("nsec1"@[0] == m[0]);
    }
    if "ghp_"@.is_prefix_of(m) {
        assert("ghp_"@[0] == m[0]);
    }
    if "github_pat_"@.is_prefix_of(m) {
        assert("github_pat_"@[0] == m[0]);
    }
}

proof fn shown_is_one_word(word: Seq<char>)
    requires
        one_word(word),
    ensures
        one_word(shown(word)),
        !looks_secret(shown(word)),
{
    mask_is_one_word();
}

/// Redaction keeps the white space of a text: as much of it, of the same kind, in the same order.
/// So it keeps the number of lines.
pub proof fn redaction_keeps_white_space(s: Seq<char>)
    ensures
        spaces(redacted(s)) == spaces(s),
    decreases s.len(),
{
    let n = text::word_len(s);
    word_is_one_word(s);
    if n >= s.len() {
        assert(s.take(n) =~= s);
        shown_is_one_word(s);
        one_word_has_no_spaces(s);
        one_word_has_no_spaces(shown(s));
    } else {
        let word = s.take(n);
        let rest = s.skip(n + 1);
        redaction_keeps_white_space(rest);
        shown_is_one_word(word);
        one_word_has_no_spaces(word);
        one_word_has_no_spaces(shown(word));
        spaces_concat(shown(word) + seq![s[n]], redacted(rest));
        spaces_concat(shown(word), seq![s[n]]);
        spaces_concat(word + seq![s[n]], rest);
        spaces_concat(word, seq![s[n]]);
        assert(s =~= word + seq![s[n]] + rest);
    }
}

proof fn word_len_of(word: Seq<char>, space: char, rest: Seq<char>)
    requires
        one_word(word),
        text::white(space),
    ensures
        text::word_len(word + seq![space] + rest) == word.len(),
{
    let whole = word + seq![space] + rest;
    assert forall|i: int| 0 <= i < word.len() implies !text::white(#[trigger] whole[i]) by {
        assert(whole[i] == word[i]);
    }
    text::lemma_word_len(whole, word.len() as int);
}

/// Redacting a redacted text changes nothing: no word that looks like a credential is left.
pub proof fn redaction_is_idempotent(s: Seq<char>)
    ensures
        redacted(redacted(s)) == redacted(s),
    decreases s.len(),
{
    let n = text::word_len(s);
    word_is_one_word(s);
    if n >= s.len() {
        assert(s.take(n) =~= s);
        shown_is_one_word(s);
        text::lemma_word_len(shown(s), shown(s).len() as int);
    } else {
        let word = s.take(n);
        let rest = s.skip(n + 1);
        redaction_is_idempotent(rest);
        shown_is_one_word(word);
        let out = shown(word) + seq![s[n]] + redacted(rest);
        word_len_of(shown(word), s[n], redacted(rest));
        assert(out.take(shown(word).len() as int) =~= shown(word));
        assert(out.skip(shown(word).len() as int + 1) =~= redacted(rest));
        assert(out[shown(word).len() as int] == s[n]);
    }
}

proof fn words_of_word_and_rest(word: Seq<char>, space: char, rest: Seq<char>)
    requires
        one_word(word),
        text::white(space),
    ensures
        text::words_of(word + seq![space] + rest) == if word.len() == 0 {
            text::words_of(rest)
        } else {
            seq![word] + text::words_of(rest)
        },
{
    let whole = word + seq![space] + rest;
    let tail = seq![space] + rest;
    assert(tail.drop_first() =~= rest);
    assert(text::trim_start(tail) == text::trim_start(rest));
    assert(text::words_of(tail) == text::words_of(rest));
    if word.len() == 0 {
        assert(whole =~= tail);
    } else {
        word_len_of(word, space, rest);
        assert(whole[0] == word[0]);
        assert(text::trim_start(whole) == whole);
        assert(whole.take(word.len() as int) =~= word);
        assert(whole.skip(word.len() as int) =~= tail);
    }
}

/// No word of a redacted text looks like a credential.
pub proof fn redaction_leaves_no_secret(s: Seq<char>)
    ensures
        forall|i: int|
            0 <= i < text::words_of(redacted(s)).len() ==> !looks_secret(
                #[trigger] text::words_of(redacted(s))[i],
            ),
    decreases s.len(),
{
    let n = text::word_len(s);
    word_is_one_word(s);
    if n >= s.len() {
        assert(s.take(n) =~= s);
        shown_is_one_word(s);
        let out = shown(s);
        let found = text::words_of(out);
        if out.len() > 0 {
            assert(!text::white(out[0]));
            assert(text::trim_start(out) == out);
            text::lemma_word_len(out, out.len() as int);
            assert(out.take(out.len() as int) =~= out);
            assert(out.skip(out.len() as int) =~= Seq::<char>::empty());
            assert(text::words_of(Seq::<char>::empty()) =~= Seq::<Seq<char>>::empty());
            assert(found =~= seq![out]);
        } else {
            assert(found =~= Seq::<Seq<char>>::empty());
        }
    } else {
        let word = s.take(n);
        let rest = s.skip(n + 1);
        redaction_leaves_no_secret(rest);
        shown_is_one_word(word);
        words_of_word_and_rest(shown(word), s[n], redacted(rest));
        let found = text::words_of(redacted(s));
        let later = text::words_of(redacted(rest));
        assert forall|i: int| 0 <= i < found.len() implies !looks_secret(#[trigger] found[i]) by {
            if shown(word).len() > 0 && i > 0 {
                assert(found[i] == later[i - 1]);
            }
        }
    }
}

/// Redaction works word by word: what stands before a white space and what stands behind it are redacted
/// each by itself. So it works line by line too.
pub proof fn redaction_works_word_by_word(left: Seq<char>, space: char, right: Seq<char>)
    requires
        text::white(space),
    ensures
        redacted(left + seq![space] + right) == redacted(left) + seq![space] + redacted(right),
    decreases left.len(),
{
    let n = text::word_len(left);
    word_is_one_word(left);
    if n >= left.len() {
        assert(left.take(n) =~= left);
        let whole = left + seq![space] + right;
        word_len_of(left, space, right);
        assert(whole.take(left.len() as int) =~= left);
        assert(whole.skip(left.len() as int + 1) =~= right);
    } else {
        let word = left.take(n);
        let rest = left.skip(n + 1);
        redaction_works_word_by_word(rest, space, right);
        let tail = rest + seq![space] + right;
        let whole = left + seq![space] + right;
        assert(whole =~= word + seq![left[n]] + tail);
        word_len_of(word, left[n], tail);
        assert(whole.take(n) =~= word);
        assert(whole.skip(n + 1) =~= tail);
        assert(whole[n] == left[n]);
        assert(redacted(left) + seq![space] + redacted(right) =~= shown(word) + seq![left[n]] + (redacted(rest) + seq![space]
            + redacted(right)));
    }
}

/// A word that starts as a key does is masked, whole: the keys of services, private keys and the two
/// kinds of access tokens. So is a long word that assigns a value to something called a token. Every other
/// word stays as it is.
pub proof fn keys_are_masked(word: Seq<char>, rest: Seq<char>)
    requires
        one_word(word),
    ensures
        word == "sk-"@ + rest ==> redacted(word) == "[REDACTED]"@,
        word == "nsec1"@ + rest ==> redacted(word) == "[REDACTED]"@,
        word == "ghp_"@ + rest ==> redacted(word) == "[REDACTED]"@,
        word == "github_pat_"@ + rest ==> redacted(word) == "[REDACTED]"@,
        word.contains('=') && encode_utf8(word).len() > 24 && text::holds(
            text::lowered(word.take(text::first_of(word, '='))),
            "token"@,
        ) ==> redacted(word) == "[REDACTED]"@,
        !"sk-"@.is_prefix_of(word) && !"nsec1"@.is_prefix_of(word) && !"ghp_"@.is_prefix_of(word)
            && !"github_pat_"@.is_prefix_of(word) && !word.contains('=') ==> redacted(word) == word,
        encode_utf8(word).len() <= 24 && !"sk-"@.is_prefix_of(word) && !"nsec1"@.is_prefix_of(word) && !"ghp_"@.is_prefix_of(word)
            && !"github_pat_"@.is_prefix_of(word) ==> redacted(word) == word,
{
    text::lemma_word_len(word, word.len() as int);
    prefixes_lead("sk-"@, rest);
    prefixes_lead("nsec1"@, rest);
    prefixes_lead("ghp_"@, rest);
    prefixes_lead("github_pat_"@, rest);
}

proof fn prefixes_lead(prefix: Seq<char>, rest: Seq<char>)
    ensures
        prefix.is_prefix_of(prefix + rest),
{
    assert(prefix =~= (prefix + rest).subrange(0, prefix.len() as int));
}

} // verus!
