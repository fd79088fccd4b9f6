//! Strings as sequences of characters.

use vstd::prelude::*;
use vstd::string::*;

verus! {

/// The characters of `text`, in order.
pub fn characters(text: &str) -> (chars: Vec<char>)
    ensures
        chars@ == text@,
{
    let mut chars: Vec<char> = Vec::new();
    for c in it: text.chars()
        invariant
            it.seq() == text@,
            chars@ == text@.take(it.index() as int),
    {
        chars.push(c);
    }
    chars
}

/// Tells whether two strings hold the same characters.
pub fn same_text(left: &str, right: &str) -> (same: bool)
    ensures
        same == (left@ == right@),
{
    let left_chars = characters(left);
    let right_chars = characters(right);
    if left_chars.len() != right_chars.len() {
        return false;
    }
    let mut at: usize = 0;
    while at < left_chars.len()
        invariant
            at <= left_chars.len(),
            left_chars@ == left@,
            right_chars@ == right@,
            left_chars.len() == right_chars.len(),
            forall|i: int| 0 <= i < at ==> left_chars@[i] == right_chars@[i],
        decreases left_chars.len() - at,
    {
        if left_chars[at] != right_chars[at] {
            return false;
        }
        at = at + 1;
    }
    assert(left@ =~= right@);
    true
}

/// White space: the characters with the Unicode property `White_Space`.
pub open spec fn is_space(c: char) -> bool {
    let code = c as u32;
    ||| 0x09 <= code <= 0x0d
    ||| code == 0x20
    ||| code == 0x85
    ||| code == 0xa0
    ||| code == 0x1680
    ||| 0x2000 <= code <= 0x200a
    ||| code == 0x2028
    ||| code == 0x2029
    ||| code == 0x202f
    ||| code == 0x205f
    ||| code == 0x3000
}

/// Tells whether a character is white space.
pub fn is_space_char(c: char) -> (space: bool)
    ensures
        space == is_space(c),
{
    let code = c as u32;
    (0x09 <= code && code <= 0x0d) || code == 0x20 || code == 0x85 || code == 0xa0 || code
        == 0x1680 || (0x2000 <= code && code <= 0x200a) || code == 0x2028 || code == 0x2029
        || code == 0x202f || code == 0x205f || code == 0x3000
}

/// A word that has come to its end, if it holds anything.
pub open spec fn finished_word(word: Seq<char>) -> Seq<Seq<char>> {
    if word.len() > 0 {
        seq![word]
    } else {
        Seq::empty()
    }
}

/// The words of `text` from `from` on, where `word` holds what has been
/// read of the word that `from` stands in.
pub open spec fn words_from(text: Seq<char>, from: nat, word: Seq<char>) -> Seq<Seq<char>>
    decreases text.len() - from,
{
    if from >= text.len() {
        finished_word(word)
    } else if is_space(text[from as int]) {
        finished_word(word) + words_from(text, from + 1, Seq::empty())
    } else {
        words_from(text, from + 1, word.push(text[from as int]))
    }
}

/// The words of a line: its longest runs of characters that are no white
/// space, in order.
pub open spec fn words_of(text: Seq<char>) -> Seq<Seq<char>> {
    words_from(text, 0, Seq::empty())
}

/// Splits a line into its words.
pub fn split_words(line: &str) -> (words: Vec<String>)
    ensures
        words.deep_view() == words_of(line@),
{
    let chars = characters(line);
    let mut words: Vec<String> = Vec::new();
    let mut start: usize = 0;
    let mut at: usize = 0;
    assert(line@.subrange(0, 0) =~= Seq::empty());
    assert(words.deep_view() =~= Seq::empty());
    while at < chars.len()
        invariant
            start <= at <= chars.len(),
            chars@ == line@,
            words_of(line@) == words.deep_view() + words_from(
                line@,
                at as nat,
                line@.subrange(start as int, at as int),
            ),
        decreases chars.len() - at,
    {
        let ghost word = line@.subrange(start as int, at as int);
        let ghost before = words.deep_view();
        if is_space_char(chars[at]) {
            if start < at {
                words.push(line.substring_char(start, at).to_owned());
            }
            assert(words.deep_view() =~= before + finished_word(word));
            start = at + 1;
            assert(line@.subrange(start as int, at + 1) =~= Seq::empty());
        } else {
            assert(line@.subrange(start as int, at + 1) =~= word.push(line@[at as int]));
        }
        at = at + 1;
    }
    let ghost before = words.deep_view();
    if start < at {
        words.push(line.substring_char(start, at).to_owned());
    }
    assert(words.deep_view() =~= before + finished_word(line@.subrange(start as int, at as int)));
    words
}

/// The character that parts a name from its extension.
pub const EXTENSION_MARKER: char = '.';

/// Whether `name` ends in a dot and `extension`, with something before the dot.
pub open spec fn has_extension(name: Seq<char>, extension: Seq<char>) -> bool {
    &&& name.len() > extension.len() + 1
    &&& name[name.len() - extension.len() - 1] == EXTENSION_MARKER
    &&& name.skip(name.len() - extension.len()) == extension
}

/// Tells whether `name` ends in a dot and `extension`, with something before the dot.
pub fn ends_with_extension(name: &str, extension: &str) -> (ends: bool)
    ensures
        ends == has_extension(name@, extension@),
{
    let name_chars = characters(name);
    let extension_chars = characters(extension);
    let n = name_chars.len();
    let m = extension_chars.len();
    if n <= m || n - m <= 1 {
        return false;
    }
    let tail = n - m;
    if name_chars[tail - 1] != EXTENSION_MARKER {
        return false;
    }
    let mut at: usize = 0;
    while at < m
        invariant
            at <= m,
            name_chars@ == name@,
            extension_chars@ == extension@,
            n == name_chars@.len(),
            m == extension_chars@.len(),
            tail == n - m,
            tail > 1,
            forall|i: int| 0 <= i < at ==> name_chars@[tail + i] == extension_chars@[i],
        decreases m - at,
    {
        if name_chars[tail + at] != extension_chars[at] {
            assert(name_chars@.skip(tail as int)[at as int] != extension_chars@[at as int]);
            return false;
        }
        at = at + 1;
    }
    assert(name_chars@.skip(tail as int) =~= extension_chars@);
    true
}

} // verus!
