//! Reading the listing that a shell prints for its `alias` builtin.

use vstd::prelude::*;
use crate::alias::AliasTable;
use crate::text::{chars_of, string_of, slice_chars, skip_while, skip, skip_prefix,
    skip_prefix_while, trimmed, trim_class, lemma_skip, CharClass};

verus! {

/// The word that some shells put before each alias of the listing, with the
/// blank behind it.
pub open spec fn alias_keyword() -> Seq<char> {
    seq!['a', 'l', 'i', 'a', 's', ' ']
}

/// The alias that the text before the `=` names: trimmed of white space,
/// then of every leading `alias ` keyword.
pub open spec fn alias_name(left: Seq<char>) -> Seq<char> {
    let t = trimmed(left, CharClass::Space);
    let from = skip_prefix(t, 0, alias_keyword());
    if from <= t.len() {
        t.subrange(from, t.len() as int)
    } else {
        Seq::empty()
    }
}

/// The expansion that the text behind the `=` gives: trimmed of white space,
/// then of single quotes, then of double quotes.
pub open spec fn alias_body(right: Seq<char>) -> Seq<char> {
    trimmed(trimmed(trimmed(right, CharClass::Space), CharClass::Only('\'')), CharClass::Only('"'))
}

/// The alias that one line declares, split at its first `=`. A line without
/// `=` declares none.
pub open spec fn alias_of_line(line: Seq<char>) -> Option<(Seq<char>, Seq<char>)> {
    let eq = skip(line, 0, CharClass::Except('='));
    if eq >= line.len() {
        None
    } else {
        Some(
            (
                alias_name(line.subrange(0, eq)),
                alias_body(line.subrange(eq + 1, line.len() as int)),
            ),
        )
    }
}

/// `acc` after taking in, line by line, the aliases that `text` declares
/// from position `from` on. Lines end at a line feed; a later line
/// overwrites an earlier one with the same name.
pub open spec fn aliases_from(
    text: Seq<char>,
    from: int,
    acc: Map<Seq<char>, Seq<char>>,
) -> Map<Seq<char>, Seq<char>>
    decreases text.len() + 1 - from,
{
    if from < 0 || from >= text.len() {
        acc
    } else {
        let end = skip(text, from, CharClass::Except('\n'));
        let next = match alias_of_line(text.subrange(from, end)) {
            Some((name, body)) => acc.insert(name, body),
            None => acc,
        };
        proof {
            lemma_skip(text, from, CharClass::Except('\n'));
        }
        aliases_from(text, end + 1, next)
    }
}

/// The aliases that a shell's listing declares.
pub open spec fn shell_aliases(text: Seq<char>) -> Map<Seq<char>, Seq<char>> {
    aliases_from(text, 0, Map::empty())
}

fn keyword() -> (k: Vec<char>)
    ensures
        k@ == alias_keyword(),
{
    let mut k: Vec<char> = Vec::new();
    k.push('a');
    k.push('l');
    k.push('i');
    k.push('a');
    k.push('s');
    k.push(' ');
    assert(k@ =~= alias_keyword());
    k
}

/// The alias that one line declares, if it declares one.
pub fn parse_alias_line(line: &Vec<char>) -> (r: Option<(String, String)>)
    ensures
        match r {
            Some((name, body)) => alias_of_line(line@) == Some((name@, body@)),
            None => alias_of_line(line@) is None,
        },
{
    let eq = skip_while(line, 0, CharClass::Except('='));
    if eq >= line.len() {
        return None;
    }
    let left = trim_class(&slice_chars(line, 0, eq), CharClass::Space);
    let from = skip_prefix_while(&left, 0, &keyword());
    let name = slice_chars(&left, from, left.len());
    let right = trim_class(&slice_chars(line, eq + 1, line.len()), CharClass::Space);
    let unquoted = trim_class(&right, CharClass::Only('\''));
    let body = trim_class(&unquoted, CharClass::Only('"'));
    Some((string_of(&name), string_of(&body)))
}

/// Takes into `table` the aliases that a shell's listing declares.
pub fn add_shell_aliases(table: &mut AliasTable, listing: &str)
    requires
        old(table).wf(),
    ensures
        final(table).wf(),
        final(table)@ =~= aliases_from(listing@, 0, old(table)@),
{
    let text = chars_of(listing);
    let mut from: usize = 0;
    while from < text.len()
        invariant
            table.wf(),
            text@ == listing@,
            from <= text.len(),
            aliases_from(text@, from as int, table@) =~= aliases_from(text@, 0, old(table)@),
        decreases text.len() - from,
    {
        let ghost before = table@;
        let end = skip_while(&text, from, CharClass::Except('\n'));
        let line = slice_chars(&text, from, end);
        match parse_alias_line(&line) {
            Some((name, body)) => {
                table.insert(name, body);
            },
            None => {},
        }
        assert(aliases_from(text@, from as int, before) == aliases_from(text@, end + 1, table@));
        if end == text.len() {
            from = end;
        } else {
            from = end + 1;
        }
    }
}

/// The aliases that a shell's listing declares.
pub fn parse_shell_aliases(listing: &str) -> (table: AliasTable)
    ensures
        table.wf(),
        table@ =~= shell_aliases(listing@),
{
    let mut table = AliasTable::new();
    add_shell_aliases(&mut table, listing);
    table
}

} // verus!

