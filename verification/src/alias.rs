//! Tables from text to text: the alias table of a run and the environment
//! of a child process.

use vstd::prelude::*;
use crate::json::{pretty_of_value, pretty_text, value_tree, JsonData};
use crate::text::{chars_of, same_chars};

verus! {

/// The map that a list of entries stands for: a later entry overwrites an
/// earlier one with the same key.
pub open spec fn table_of(entries: Seq<(Seq<char>, Seq<char>)>) -> Map<Seq<char>, Seq<char>>
    decreases entries.len(),
{
    if entries.len() == 0 {
        Map::empty()
    } else {
        table_of(entries.drop_last()).insert(entries.last().0, entries.last().1)
    }
}

/// The texts of a list of pairs of strings.
pub open spec fn pairs_of(list: Seq<(String, String)>) -> Seq<(Seq<char>, Seq<char>)> {
    Seq::new(list.len(), |i: int| (list[i].0@, list[i].1@))
}

/// A key that no entry has is not in the map.
pub proof fn lemma_table_absent(entries: Seq<(Seq<char>, Seq<char>)>, key: Seq<char>)
    requires
        forall|i: int| 0 <= i < entries.len() ==> (#[trigger] entries[i]).0 != key,
    ensures
        !table_of(entries).contains_key(key),
    decreases entries.len(),
{
    if entries.len() > 0 {
        lemma_table_absent(entries.drop_last(), key);
    }
}

/// The map holds every key of the entries and no other.
pub proof fn lemma_table_keys(entries: Seq<(Seq<char>, Seq<char>)>, key: Seq<char>)
    ensures
        table_of(entries).contains_key(key) <==> exists|i: int|
            0 <= i < entries.len() && (#[trigger] entries[i]).0 == key,
    decreases entries.len(),
{
    if entries.len() > 0 {
        let init = entries.drop_last();
        lemma_table_keys(init, key);
        if table_of(entries).contains_key(key) {
            if entries.last().0 == key {
                assert(entries[entries.len() - 1].0 == key);
            } else {
                let i = choose|i: int| 0 <= i < init.len() && (#[trigger] init[i]).0 == key;
                assert(entries[i].0 == key);
            }
        }
        if exists|i: int| 0 <= i < entries.len() && (#[trigger] entries[i]).0 == key {
            let i = choose|i: int| 0 <= i < entries.len() && (#[trigger] entries[i]).0 == key;
            if i < init.len() {
                assert(init[i].0 == key);
            }
        }
    }
}

/// Where the key of entry `at` occurs in no later entry, the map gives that
/// entry's value for it.
pub proof fn lemma_table_value(entries: Seq<(Seq<char>, Seq<char>)>, at: int)
    requires
        0 <= at < entries.len(),
        forall|j: int| at < j < entries.len() ==> (#[trigger] entries[j]).0 != entries[at].0,
    ensures
        table_of(entries).contains_key(entries[at].0),
        table_of(entries)[entries[at].0] == entries[at].1,
    decreases entries.len(),
{
    if at < entries.len() - 1 {
        let init = entries.drop_last();
        assert(init[at] == entries[at]);
        assert forall|j: int| at < j < init.len() implies (#[trigger] init[j]).0 != init[at].0 by {
            assert(init[j] == entries[j]);
        }
        lemma_table_value(init, at);
        assert(entries[entries.len() - 1].0 != entries[at].0);
    }
}

/// Replacing the value of entry `at`, whose key occurs in no other entry,
/// is an insertion into the map.
pub proof fn lemma_table_update(
    entries: Seq<(Seq<char>, Seq<char>)>,
    at: int,
    value: Seq<char>,
)
    requires
        0 <= at < entries.len(),
        forall|j: int| at < j < entries.len() ==> (#[trigger] entries[j]).0 != entries[at].0,
    ensures
        table_of(entries.update(at, (entries[at].0, value))) =~= table_of(entries).insert(
            entries[at].0,
            value,
        ),
    decreases entries.len(),
{
    let key = entries[at].0;
    let changed = entries.update(at, (key, value));
    let init = entries.drop_last();
    if at == entries.len() - 1 {
        assert(changed.drop_last() =~= init);
    } else {
        assert(init[at] == entries[at]);
        assert forall|j: int| at < j < init.len() implies (#[trigger] init[j]).0 != init[at].0 by {
            assert(init[j] == entries[j]);
        }
        lemma_table_update(init, at, value);
        assert(changed.drop_last() =~= init.update(at, (key, value)));
        assert(entries[entries.len() - 1].0 != key);
        assert(changed.last() == entries.last());
    }
}

/// The tree of the alias file that declares `table` under the member
/// `key`: an object with that one member, itself an object with one string
/// member for each entry. A `serde_json::Map` keeps its members in the order
/// of their names, so the tree is a function of the map.
pub uninterp spec fn alias_file_tree(key: Seq<char>, table: Map<Seq<char>, Seq<char>>) -> JsonData;

/// Builds the alias file of `table` as a value of `serde_json`, with
/// `serde_json::Map::insert` for each entry and for the member `key`.
#[verifier::external_body]
fn alias_file_value(table: &AliasTable, key: &str) -> (value: serde_json::Value)
    requires
        table.wf(),
    ensures
        value_tree(value) == alias_file_tree(key@, table@),
{
    let mut inner = serde_json::Map::new();
    for (alias, expansion) in table.entries.iter() {
        inner.insert(alias.clone(), serde_json::Value::String(expansion.clone()));
    }
    let mut outer = serde_json::Map::new();
    outer.insert(key.to_string(), serde_json::Value::Object(inner));
    serde_json::Value::Object(outer)
}

/// A table from one text to another in which no key stands twice.
#[derive(Debug)]
pub struct TextTable {
    entries: Vec<(String, String)>,
}

/// A mapping from a command's first word to the text that stands for it.
pub type AliasTable = TextTable;

impl TextTable {
    /// The entries as pairs of character sequences, in the order of the keys'
    /// first insertion.
    pub closed spec fn pairs(&self) -> Seq<(Seq<char>, Seq<char>)> {
        pairs_of(self.entries@)
    }

    /// No key occurs twice.
    pub open spec fn wf(&self) -> bool {
        forall|i: int, j: int|
            0 <= i < j < self.pairs().len() ==> (#[trigger] self.pairs()[i]).0 != (
            #[trigger] self.pairs()[j]).0
    }

    /// The table as a map from key to expansion.
    pub open spec fn view(&self) -> Map<Seq<char>, Seq<char>> {
        table_of(self.pairs())
    }

    /// The empty table.
    pub fn new() -> (t: TextTable)
        ensures
            t.wf(),
            t@ == Map::<Seq<char>, Seq<char>>::empty(),
            t.pairs().len() == 0,
    {
        TextTable { entries: Vec::new() }
    }

    /// The number of keys.
    pub fn len(&self) -> (n: usize)
        ensures
            n == self.pairs().len(),
    {
        self.entries.len()
    }

    /// Whether the table holds no key.
    pub fn is_empty(&self) -> (r: bool)
        requires
            self.wf(),
        ensures
            r == (self.pairs().len() == 0),
            r == (self@ =~= Map::<Seq<char>, Seq<char>>::empty()),
    {
        proof {
            if self.pairs().len() > 0 {
                lemma_table_keys(self.pairs(), self.pairs()[0].0);
            }
        }
        self.entries.len() == 0
    }

    fn position(&self, key: &str) -> (r: Option<usize>)
        ensures
            match r {
                Some(i) => i < self.pairs().len() && self.pairs()[i as int].0 == key@,
                None => forall|i: int|
                    0 <= i < self.pairs().len() ==> (#[trigger] self.pairs()[i]).0 != key@,
            },
    {
        let wanted = chars_of(key);
        let mut i: usize = 0;
        while i < self.entries.len()
            invariant
                i <= self.entries.len(),
                wanted@ == key@,
                forall|j: int| 0 <= j < i ==> (#[trigger] self.pairs()[j]).0 != key@,
            decreases self.entries.len() - i,
        {
            let have = chars_of(self.entries[i].0.as_str());
            if same_chars(&have, &wanted) {
                return Some(i);
            }
            i += 1;
        }
        None
    }

    /// The expansion of `key`, if the table has one.
    pub fn get(&self, key: &str) -> (r: Option<&String>)
        requires
            self.wf(),
        ensures
            match r {
                Some(v) => self@.contains_key(key@) && self@[key@] == v@,
                None => !self@.contains_key(key@),
            },
    {
        match self.position(key) {
            Some(i) => {
                proof {
                    lemma_table_value(self.pairs(), i as int);
                }
                Some(&self.entries[i].1)
            },
            None => {
                proof {
                    lemma_table_absent(self.pairs(), key@);
                }
                None
            },
        }
    }

    /// Sets the expansion of `key`, overwriting the one it had. A key that
    /// is new adds one entry; one that is there keeps its place.
    pub fn insert(&mut self, key: String, value: String)
        requires
            old(self).wf(),
        ensures
            final(self).wf(),
            final(self)@ =~= old(self)@.insert(key@, value@),
            final(self).pairs().len() == old(self).pairs().len() + (if old(self)@.contains_key(
                key@,
            ) {
                0int
            } else {
                1int
            }),
    {
        match self.position(key.as_str()) {
            Some(i) => {
                proof {
                    lemma_table_update(self.pairs(), i as int, value@);
                    lemma_table_value(self.pairs(), i as int);
                }
                let ghost before = self.pairs();
                self.entries[i] = (key, value);
                assert(self.pairs() =~= before.update(i as int, (key@, value@)));
            },
            None => {
                let ghost before = self.pairs();
                proof {
                    lemma_table_absent(before, key@);
                }
                self.entries.push((key, value));
                assert(self.pairs() =~= before.push((key@, value@)));
                assert(self.pairs().drop_last() =~= before);
            },
        }
    }

    /// The text of the alias file that declares exactly this table: a JSON
    /// document whose member `aliases` holds the entries. `None` where the
    /// printer reports an error.
    pub fn to_document(&self) -> (r: Option<String>)
        requires
            self.wf(),
        ensures
            match r {
                Some(text) => pretty_text(alias_file_tree("aliases"@, self@)) == Some(text@),
                None => pretty_text(alias_file_tree("aliases"@, self@)) is None,
            },
    {
        let value = alias_file_value(self, "aliases");
        match pretty_of_value(&value) {
            Ok(text) => Some(text),
            Err(_) => None,
        }
    }

    /// The entry at position `at`, for walking the table.
    pub fn entry(&self, at: usize) -> (r: (&String, &String))
        requires
            at < self.pairs().len(),
        ensures
            r.0@ == self.pairs()[at as int].0,
            r.1@ == self.pairs()[at as int].1,
    {
        (&self.entries[at].0, &self.entries[at].1)
    }

    /// The table that a list of pairs stands for, a later pair overwriting
    /// an earlier one with the same key.
    pub fn from_pairs(list: &Vec<(String, String)>) -> (t: TextTable)
        ensures
            t.wf(),
            t@ =~= table_of(pairs_of(list@)),
    {
        let mut table = TextTable::new();
        let mut i: usize = 0;
        while i < list.len()
            invariant
                i <= list.len(),
                table.wf(),
                table@ =~= table_of(pairs_of(list@).take(i as int)),
            decreases list.len() - i,
        {
            proof {
                let next = pairs_of(list@).take(i + 1);
                assert(next.drop_last() =~= pairs_of(list@).take(i as int));
                assert(next.last() == pairs_of(list@)[i as int]);
            }
            table.insert(list[i].0.clone(), list[i].1.clone());
            i += 1;
        }
        assert(pairs_of(list@).take(list@.len() as int) =~= pairs_of(list@));
        table
    }

    /// The entries as a list of pairs, in the order of `pairs`.
    pub fn to_pairs(&self) -> (list: Vec<(String, String)>)
        ensures
            pairs_of(list@) =~= self.pairs(),
    {
        let mut list: Vec<(String, String)> = Vec::new();
        let mut i: usize = 0;
        while i < self.entries.len()
            invariant
                i <= self.entries.len(),
                pairs_of(list@) =~= self.pairs().take(i as int),
            decreases self.entries.len() - i,
        {
            let ghost before = pairs_of(list@);
            list.push((self.entries[i].0.clone(), self.entries[i].1.clone()));
            assert(pairs_of(list@) =~= before.push(self.pairs()[i as int]));
            i += 1;
        }
        list
    }

    /// Takes over every entry of `other`, overwriting on equal keys.
    pub fn extend(&mut self, other: &TextTable)
        requires
            old(self).wf(),
            other.wf(),
        ensures
            final(self).wf(),
            final(self)@ =~= old(self)@.union_prefer_right(other@),
    {
        let mut i: usize = 0;
        while i < other.entries.len()
            invariant
                i <= other.entries.len(),
                self.wf(),
                other.wf(),
                self@ =~= old(self)@.union_prefer_right(table_of(other.pairs().take(i as int))),
            decreases other.entries.len() - i,
        {
            let key = other.entries[i].0.clone();
            let value = other.entries[i].1.clone();
            proof {
                let next = other.pairs().take(i + 1);
                assert(next.drop_last() =~= other.pairs().take(i as int));
                assert(next.last() == other.pairs()[i as int]);
            }
            self.insert(key, value);
            i += 1;
        }
        assert(other.pairs().take(other.pairs().len() as int) =~= other.pairs());
    }
}

} // verus!
