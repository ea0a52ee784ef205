//! Resolution of a command line: its first word is looked up in the alias
//! table and, where the table has it, replaced by its expansion.

use vstd::prelude::*;
use crate::alias::AliasTable;
use crate::text::{chars_of, string_of, slice_chars, push_chars, skip_while, skip, occurs_at,
    lemma_skip, CharClass};

verus! {

/// Where the first word of `s` starts and where it ends: the first run of
/// characters that are not white space. `None` where `s` has no such character.
pub open spec fn first_word(s: Seq<char>) -> Option<(int, int)> {
    let start = skip(s, 0, CharClass::Space);
    if start >= s.len() {
        None
    } else {
        Some((start, skip(s, start, CharClass::Word)))
    }
}

/// The command line that is run for `command` under `aliases`: the first
/// word gives way to its expansion, and every other character stays.
pub open spec fn effective_command(
    command: Seq<char>,
    aliases: Map<Seq<char>, Seq<char>>,
) -> Seq<char> {
    match first_word(command) {
        Some((start, end)) => {
            let word = command.subrange(start, end);
            if aliases.contains_key(word) {
                command.subrange(0, start) + aliases[word] + command.subrange(
                    end,
                    command.len() as int,
                )
            } else {
                command
            }
        },
        None => command,
    }
}

/// The first word is not empty, is preceded by white space alone, holds no
/// white space, and ends at white space or at the end of the line.
pub proof fn lemma_first_word(s: Seq<char>)
    ensures
        match first_word(s) {
            Some((start, end)) => {
                &&& 0 <= start < end <= s.len()
                &&& forall|i: int| 0 <= i < start ==> CharClass::Space.holds(#[trigger] s[i])
                &&& forall|i: int| start <= i < end ==> CharClass::Word.holds(#[trigger] s[i])
                &&& end < s.len() ==> CharClass::Space.holds(s[end])
            },
            None => forall|i: int| 0 <= i < s.len() ==> CharClass::Space.holds(#[trigger] s[i]),
        },
{
    lemma_skip(s, 0, CharClass::Space);
    let start = skip(s, 0, CharClass::Space);
    if start < s.len() {
        lemma_skip(s, start, CharClass::Word);
    }
}

/// The place of the first word is the first place in the line at which the
/// word's text stands: replacing the word there replaces its first occurrence.
pub proof fn lemma_first_word_is_first_occurrence(s: Seq<char>)
    requires
        first_word(s) is Some,
    ensures
        ({
            let (start, end) = first_word(s)->0;
            let word = s.subrange(start, end);
            &&& occurs_at(s, word, start)
            &&& forall|at: int| 0 <= at < start ==> !occurs_at(s, word, at)
        }),
{
    lemma_first_word(s);
    let (start, end) = first_word(s)->0;
    let word = s.subrange(start, end);
    assert forall|at: int| 0 <= at < start implies !occurs_at(s, word, at) by {
        if occurs_at(s, word, at) {
            assert(s.subrange(at, at + word.len())[0] == word[0]);
            assert(CharClass::Space.holds(s[at]));
            assert(CharClass::Word.holds(s[start]));
        }
    }
}

/// A line whose first word the table does not hold, or that has no word at
/// all, is run as it stands.
pub proof fn lemma_unmatched_is_unchanged(command: Seq<char>, aliases: Map<Seq<char>, Seq<char>>)
    requires
        match first_word(command) {
            Some((start, end)) => !aliases.contains_key(command.subrange(start, end)),
            None => true,
        },
    ensures
        effective_command(command, aliases) == command,
{
}

/// Under an empty table every line is run as it stands.
pub proof fn lemma_empty_table_changes_nothing(command: Seq<char>)
    ensures
        effective_command(command, Map::empty()) == command,
{
}

/// The command line that is run for `command` under `aliases`.
pub fn resolve_command(command: &str, aliases: &AliasTable) -> (out: String)
    requires
        aliases.wf(),
    ensures
        out@ == effective_command(command@, aliases@),
{
    let line = chars_of(command);
    let start = skip_while(&line, 0, CharClass::Space);
    if start >= line.len() {
        return string_of(&line);
    }
    let end = skip_while(&line, start, CharClass::Word);
    let word = string_of(&slice_chars(&line, start, end));
    match aliases.get(word.as_str()) {
        Some(expansion) => {
            let mut out = slice_chars(&line, 0, start);
            push_chars(&mut out, &chars_of(expansion.as_str()));
            push_chars(&mut out, &slice_chars(&line, end, line.len()));
            string_of(&out)
        },
        None => string_of(&line),
    }
}

} // verus!
