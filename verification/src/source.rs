//! The sources of aliases and the way they are merged into one table.
//!
//! An alias file is a JSON document whose top-level member `aliases` is an
//! object from alias to expansion. The table of a run is built from the
//! user's global file, the shell's own listing where that file gave nothing,
//! and the project's local file, each overwriting what came before it.

use vstd::prelude::*;
use crate::alias::{table_of, AliasTable};
use crate::json::{find_member, json_tree, members_data, parse_json, Json, JsonData};
use crate::shell::{parse_shell_aliases, shell_aliases};

verus! {

/// Why a text gives no aliases.
#[derive(Debug, PartialEq, Eq, Clone, Copy, Structural)]
pub enum AliasSourceError {
    /// The text is not a JSON document.
    Syntax,
    /// The document has no member `aliases` that is an object.
    NoAliases,
}

/// The text of a string, and the empty text for any other value.
pub open spec fn text_or_empty(value: JsonData) -> Seq<char> {
    match value {
        JsonData::Text(s) => s,
        _ => Seq::empty(),
    }
}

/// The entries that the members of an `aliases` object give.
pub open spec fn alias_entries(members: Seq<(Seq<char>, JsonData)>) -> Seq<
    (Seq<char>, Seq<char>),
> {
    Seq::new(members.len(), |i: int| (members[i].0, text_or_empty(members[i].1)))
}

/// The aliases that a document declares, or `None` where it has no member
/// `aliases` that is an object.
pub open spec fn aliases_of_document(doc: JsonData) -> Option<Map<Seq<char>, Seq<char>>> {
    match doc {
        JsonData::Object(members) => match crate::json::member(members, "aliases"@) {
            Some(JsonData::Object(entries)) => Some(table_of(alias_entries(entries))),
            _ => None,
        },
        _ => None,
    }
}

/// The aliases that the text of an alias file declares, or the reason why
/// it declares none.
pub open spec fn aliases_of_text(text: Seq<char>) -> Result<
    Map<Seq<char>, Seq<char>>,
    AliasSourceError,
> {
    match json_tree(text) {
        None => Err(AliasSourceError::Syntax),
        Some(doc) => match aliases_of_document(doc) {
            None => Err(AliasSourceError::NoAliases),
            Some(table) => Ok(table),
        },
    }
}

/// What a source contributes: its aliases, and nothing where it is absent,
/// unreadable or malformed.
pub open spec fn contribution(content: Option<Seq<char>>) -> Map<Seq<char>, Seq<char>> {
    match content {
        Some(text) => match aliases_of_text(text) {
            Ok(table) => table,
            Err(_) => Map::empty(),
        },
        None => Map::empty(),
    }
}

/// The table of a run. `global` and `local` are the texts of the two alias
/// files, `listing` is the shell's alias listing; each is `None` where it
/// could not be had. The listing counts only where the global file
/// contributes nothing.
pub open spec fn merged_aliases(
    global: Option<Seq<char>>,
    listing: Option<Seq<char>>,
    local: Option<Seq<char>>,
) -> Map<Seq<char>, Seq<char>> {
    let base = contribution(global);
    let seeded = if base =~= Map::empty() {
        match listing {
            Some(text) => shell_aliases(text),
            None => Map::empty(),
        }
    } else {
        base
    };
    seeded.union_prefer_right(contribution(local))
}

/// The local file has the last word: an alias that it declares has its
/// expansion from there, whatever the other sources say.
pub proof fn lemma_local_file_wins(
    global: Option<Seq<char>>,
    listing: Option<Seq<char>>,
    local: Option<Seq<char>>,
    alias: Seq<char>,
)
    requires
        contribution(local).contains_key(alias),
    ensures
        merged_aliases(global, listing, local).contains_key(alias),
        merged_aliases(global, listing, local)[alias] == contribution(local)[alias],
{
}

/// Where the global file declares aliases, the shell's listing counts for
/// nothing: an alias that the local file does not declare is in the table
/// if and only if the global file declares it, with its expansion from there.
pub proof fn lemma_global_file_shadows_shell(
    global: Option<Seq<char>>,
    listing: Option<Seq<char>>,
    local: Option<Seq<char>>,
    alias: Seq<char>,
)
    requires
        !(contribution(global) =~= Map::empty()),
        !contribution(local).contains_key(alias),
    ensures
        merged_aliases(global, listing, local).contains_key(alias) == contribution(
            global,
        ).contains_key(alias),
        contribution(global).contains_key(alias) ==> merged_aliases(global, listing, local)[alias]
            == contribution(global)[alias],
{
}

/// Where the global file declares nothing, an alias that the local file
/// does not declare is in the table if and only if the shell lists it, with
/// its expansion from there.
pub proof fn lemma_shell_fills_in(
    global: Option<Seq<char>>,
    listing: Seq<char>,
    local: Option<Seq<char>>,
    alias: Seq<char>,
)
    requires
        contribution(global) =~= Map::empty(),
        !contribution(local).contains_key(alias),
    ensures
        merged_aliases(global, Some(listing), local).contains_key(alias) == shell_aliases(
            listing,
        ).contains_key(alias),
        shell_aliases(listing).contains_key(alias) ==> merged_aliases(
            global,
            Some(listing),
            local,
        )[alias] == shell_aliases(listing)[alias],
{
}

/// The aliases that a document declares.
pub fn aliases_from_document(doc: &Json) -> (r: Option<AliasTable>)
    ensures
        match r {
            Some(table) => table.wf() && aliases_of_document(doc.data()) == Some(table@),
            None => aliases_of_document(doc.data()) is None,
        },
{
    let members = match doc.as_object() {
        Some(members) => members,
        None => {
            return None;
        },
    };
    let aliases = match find_member(members, "aliases") {
        Some(aliases) => aliases,
        None => {
            return None;
        },
    };
    let entries = match aliases.as_object() {
        Some(entries) => entries,
        None => {
            return None;
        },
    };
    let ghost all = alias_entries(members_data(entries@));
    let mut table = AliasTable::new();
    let mut i: usize = 0;
    while i < entries.len()
        invariant
            i <= entries.len(),
            table.wf(),
            all == alias_entries(members_data(entries@)),
            table@ =~= table_of(all.take(i as int)),
        decreases entries.len() - i,
    {
        let key = entries[i].0.clone();
        let value = match entries[i].1.as_text() {
            Some(s) => s.clone(),
            None => String::new(),
        };
        proof {
            let next = all.take(i + 1);
            assert(next.drop_last() =~= all.take(i as int));
            assert(next.last() == all[i as int]);
            assert(value@ =~= all[i as int].1);
        }
        table.insert(key, value);
        i += 1;
    }
    assert(all.take(entries@.len() as int) =~= all);
    Some(table)
}

/// The aliases that the text of an alias file declares.
pub fn load_aliases_from_file(content: &str) -> (r: Result<AliasTable, AliasSourceError>)
    ensures
        match r {
            Ok(table) => table.wf() && aliases_of_text(content@) == Ok::<
                Map<Seq<char>, Seq<char>>,
                AliasSourceError,
            >(table@),
            Err(e) => aliases_of_text(content@) == Err::<
                Map<Seq<char>, Seq<char>>,
                AliasSourceError,
            >(e),
        },
{
    match parse_json(content) {
        None => Err(AliasSourceError::Syntax),
        Some(doc) => match aliases_from_document(&doc) {
            None => Err(AliasSourceError::NoAliases),
            Some(table) => Ok(table),
        },
    }
}

/// What a source contributes to the table of a run.
pub fn source_aliases(content: Option<&str>) -> (table: AliasTable)
    ensures
        table.wf(),
        table@ =~= contribution(
            match content {
                Some(text) => Some(text@),
                None => None,
            },
        ),
{
    match content {
        Some(text) => match load_aliases_from_file(text) {
            Ok(table) => table,
            Err(_) => AliasTable::new(),
        },
        None => AliasTable::new(),
    }
}

/// Whether the shell's listing counts: it does where the global file
/// contributes nothing.
pub fn needs_shell_aliases(global: Option<&str>) -> (r: bool)
    ensures
        r == (contribution(
            match global {
                Some(text) => Some(text@),
                None => None,
            },
        ) =~= Map::empty()),
{
    source_aliases(global).is_empty()
}

/// The table of a run, from the texts of its three sources.
pub fn get_aliases(global: Option<&str>, listing: Option<&str>, local: Option<&str>) -> (table:
    AliasTable)
    ensures
        table.wf(),
        table@ =~= merged_aliases(
            match global {
                Some(text) => Some(text@),
                None => None,
            },
            match listing {
                Some(text) => Some(text@),
                None => None,
            },
            match local {
                Some(text) => Some(text@),
                None => None,
            },
        ),
{
    let mut table = source_aliases(global);
    if table.is_empty() {
        table = match listing {
            Some(text) => parse_shell_aliases(text),
            None => AliasTable::new(),
        };
    }
    let overlay = source_aliases(local);
    table.extend(&overlay);
    table
}

} // verus!
