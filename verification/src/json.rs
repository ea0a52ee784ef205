//! JSON documents as the library reads them, and the parser that gives them.

use vstd::prelude::*;
use crate::text::{chars_of, same_chars};

verus! {

/// A JSON document. Numbers are kept as the text that prints them; the
/// members of an object are kept in the order in which the parser walks them.
#[derive(Debug)]
pub enum Json {
    Null,
    Bool(bool),
    Number(String),
    Text(String),
    List(Vec<Json>),
    Object(Vec<(String, Json)>),
}

/// What a `Json` holds, as a mathematical tree.
pub enum JsonData {
    Null,
    Bool(bool),
    Number(Seq<char>),
    Text(Seq<char>),
    List(Seq<JsonData>),
    Object(Seq<(Seq<char>, JsonData)>),
}

impl Json {
    /// The tree that this document holds.
    pub open spec fn data(&self) -> JsonData
        decreases self,
    {
        match self {
            Json::Null => JsonData::Null,
            Json::Bool(b) => JsonData::Bool(*b),
            Json::Number(n) => JsonData::Number(n@),
            Json::Text(s) => JsonData::Text(s@),
            Json::List(items) => JsonData::List(
                Seq::new(
                    items@.len(),
                    |i: int|
                        if 0 <= i < items@.len() {
                            items@[i].data()
                        } else {
                            JsonData::Null
                        },
                ),
            ),
            Json::Object(members) => JsonData::Object(
                Seq::new(
                    members@.len(),
                    |i: int|
                        if 0 <= i < members@.len() {
                            (members@[i].0@, members@[i].1.data())
                        } else {
                            (Seq::empty(), JsonData::Null)
                        },
                ),
            ),
        }
    }
}

/// The value type of `serde_json`, carried from the parser to the conversion.
#[verifier::external_type_specification]
#[verifier::external_body]
pub struct ExValue(serde_json::Value);

/// The error type of `serde_json`.
#[verifier::external_type_specification]
#[verifier::external_body]
pub struct ExError(serde_json::Error);

/// The tree that `serde_json::from_str` reads from a text, or `None` where it
/// rejects the text.
pub uninterp spec fn json_tree(text: Seq<char>) -> Option<JsonData>;

/// The tree that a value of `serde_json` holds: each variant with its
/// fields, a number as the text that prints it, an object's members in the
/// order in which its map walks them.
pub uninterp spec fn value_tree(value: serde_json::Value) -> JsonData;

/// `serde_json::from_str` at the type `serde_json::Value`. The parser reads
/// nothing but the text, so the value it gives, or its refusal, is a function
/// of the text: `json_tree` names it.
#[verifier::external_body]
fn value_from_str(text: &str) -> (r: Result<serde_json::Value, serde_json::Error>)
    ensures
        match r {
            Ok(value) => json_tree(text@) == Some(value_tree(value)),
            Err(_) => json_tree(text@) is None,
        },
{
    serde_json::from_str::<serde_json::Value>(text)
}

/// Moves a `serde_json::Value` into a `Json`, variant by variant. A number
/// goes through `Number::to_string`, an object through `Map::into_iter`.
#[verifier::external_body]
fn json_of_value(value: serde_json::Value) -> (doc: Json)
    ensures
        doc.data() == value_tree(value),
{
    match value {
        serde_json::Value::Null => Json::Null,
        serde_json::Value::Bool(b) => Json::Bool(b),
        serde_json::Value::Number(n) => Json::Number(n.to_string()),
        serde_json::Value::String(s) => Json::Text(s),
        serde_json::Value::Array(items) => Json::List(
            items.into_iter().map(json_of_value).collect(),
        ),
        serde_json::Value::Object(members) => Json::Object(
            members.into_iter().map(|(k, v)| (k, json_of_value(v))).collect(),
        ),
    }
}

/// Reads a JSON document from a text; `None` where the text is not JSON.
pub fn parse_json(text: &str) -> (r: Option<Json>)
    ensures
        match r {
            Some(doc) => json_tree(text@) == Some(doc.data()),
            None => json_tree(text@) is None,
        },
{
    match value_from_str(text) {
        Ok(value) => Some(json_of_value(value)),
        Err(_) => None,
    }
}

/// The tree of the value of `serde_json` that is built from a document:
/// each number read back from its text by `serde_json::from_str`, the
/// members of each object collected into a `serde_json::Map`, where they
/// stand in the order of their names and a later member replaces an earlier
/// one of the same name. `None` where the text of some number is not a
/// JSON number.
pub uninterp spec fn written_tree(doc: JsonData) -> Option<JsonData>;

/// The text that `serde_json::to_string_pretty` prints for a value with this
/// tree, or `None` where it reports an error.
pub uninterp spec fn pretty_text(tree: JsonData) -> Option<Seq<char>>;

/// Builds the `serde_json::Value` for a document, variant by variant:
/// `serde_json::from_str` on the text of a number, `FromIterator` of
/// `serde_json::Map` on the members of an object.
#[verifier::external_body]
fn value_of_json(doc: &Json) -> (r: Option<serde_json::Value>)
    ensures
        match r {
            Some(value) => written_tree(doc.data()) == Some(value_tree(value)),
            None => written_tree(doc.data()) is None,
        },
{
    Some(match doc {
        Json::Null => serde_json::Value::Null,
        Json::Bool(b) => serde_json::Value::Bool(*b),
        Json::Number(n) => serde_json::Value::Number(serde_json::from_str(n).ok()?),
        Json::Text(s) => serde_json::Value::String(s.clone()),
        Json::List(items) => serde_json::Value::Array(
            items.iter().map(value_of_json).collect::<Option<_>>()?,
        ),
        Json::Object(members) => serde_json::Value::Object(
            members.iter().map(|(k, v)| Some((k.clone(), value_of_json(v)?))).collect::<Option<_>>()?,
        ),
    })
}

/// `serde_json::to_string_pretty` on a value. What it prints depends on
/// nothing but the value.
#[verifier::external_body]
pub(crate) fn pretty_of_value(value: &serde_json::Value) -> (r: Result<String, serde_json::Error>)
    ensures
        match r {
            Ok(text) => pretty_text(value_tree(*value)) == Some(text@),
            Err(_) => pretty_text(value_tree(*value)) is None,
        },
{
    serde_json::to_string_pretty(value)
}

/// The text that is printed for a document, and `None` for a document that
/// cannot be printed.
pub open spec fn rendered(doc: JsonData) -> Option<Seq<char>> {
    match written_tree(doc) {
        Some(tree) => pretty_text(tree),
        None => None,
    }
}

/// Prints a document as indented JSON text; `None` where it cannot be
/// printed.
pub fn render_json(doc: &Json) -> (r: Option<String>)
    ensures
        match r {
            Some(text) => rendered(doc.data()) == Some(text@),
            None => rendered(doc.data()) is None,
        },
{
    match value_of_json(doc) {
        Some(value) => match pretty_of_value(&value) {
            Ok(text) => Some(text),
            Err(_) => None,
        },
        None => None,
    }
}

/// The value of the last member of `members` that is named `key`.
pub open spec fn member(members: Seq<(Seq<char>, JsonData)>, key: Seq<char>) -> Option<JsonData>
    decreases members.len(),
{
    if members.len() == 0 {
        None
    } else if members.last().0 == key {
        Some(members.last().1)
    } else {
        member(members.drop_last(), key)
    }
}

/// The members of a list of pairs, as a sequence of trees.
pub open spec fn members_data(members: Seq<(String, Json)>) -> Seq<(Seq<char>, JsonData)> {
    Seq::new(members.len(), |i: int| (members[i].0@, members[i].1.data()))
}

impl Json {
    /// The members of an object, and `None` for anything else.
    pub fn as_object(&self) -> (r: Option<&Vec<(String, Json)>>)
        ensures
            match r {
                Some(members) => self.data() == JsonData::Object(members_data(members@)),
                None => !(self.data() is Object),
            },
    {
        match self {
            Json::Object(members) => {
                assert(self.data()->Object_0 =~= members_data(members@));
                Some(members)
            },
            _ => None,
        }
    }

    /// The text of a string, and `None` for anything else.
    pub fn as_text(&self) -> (r: Option<&String>)
        ensures
            match r {
                Some(s) => self.data() == JsonData::Text(s@),
                None => !(self.data() is Text),
            },
    {
        match self {
            Json::Text(s) => Some(s),
            _ => None,
        }
    }
}

/// The value of the last member of `members` that is named `key`.
pub fn find_member<'a>(members: &'a Vec<(String, Json)>, key: &str) -> (r: Option<&'a Json>)
    ensures
        match r {
            Some(doc) => member(members_data(members@), key@) == Some(doc.data()),
            None => member(members_data(members@), key@) is None,
        },
{
    let wanted = chars_of(key);
    let mut i: usize = members.len();
    assert(members_data(members@).take(members@.len() as int) =~= members_data(members@));
    while i > 0
        invariant
            i <= members.len(),
            wanted@ == key@,
            member(members_data(members@), key@) == member(
                members_data(members@).take(i as int),
                key@,
            ),
        decreases i,
    {
        let ghost before = members_data(members@).take(i as int);
        i -= 1;
        let name = chars_of(members[i].0.as_str());
        assert(before.last() == members_data(members@)[i as int]);
        assert(before.drop_last() =~= members_data(members@).take(i as int));
        if same_chars(&name, &wanted) {
            return Some(&members[i].1);
        }
    }
    None
}

/// A name that no member has is not found.
pub proof fn lemma_member_absent(members: Seq<(Seq<char>, JsonData)>, key: Seq<char>)
    requires
        forall|i: int| 0 <= i < members.len() ==> (#[trigger] members[i]).0 != key,
    ensures
        member(members, key) is None,
    decreases members.len(),
{
    if members.len() > 0 {
        lemma_member_absent(members.drop_last(), key);
    }
}

/// A name is looked up in the later of two lists of members first, and in
/// the earlier one where the later does not have it.
pub proof fn lemma_member_of_sum(
    first: Seq<(Seq<char>, JsonData)>,
    second: Seq<(Seq<char>, JsonData)>,
    key: Seq<char>,
)
    ensures
        member(first + second, key) == (match member(second, key) {
            Some(value) => Some(value),
            None => member(first, key),
        }),
    decreases second.len(),
{
    if second.len() == 0 {
        assert(first + second =~= first);
    } else {
        assert((first + second).drop_last() =~= first + second.drop_last());
        assert((first + second).last() == second.last());
        lemma_member_of_sum(first, second.drop_last(), key);
    }
}

/// A member whose name no later member has is found under its name.
pub proof fn lemma_member_found(members: Seq<(Seq<char>, JsonData)>, at: int)
    requires
        0 <= at < members.len(),
        forall|j: int| at < j < members.len() ==> (#[trigger] members[j]).0 != members[at].0,
    ensures
        member(members, members[at].0) == Some(members[at].1),
    decreases members.len(),
{
    if at < members.len() - 1 {
        let init = members.drop_last();
        assert(init[at] == members[at]);
        assert forall|j: int| at < j < init.len() implies (#[trigger] init[j]).0 != init[at].0 by {
            assert(init[j] == members[j]);
        }
        lemma_member_found(init, at);
        assert(members[members.len() - 1].0 != members[at].0);
    }
}

} // verus!
