//! JSON documents, as far as compositor replies are read.
use vstd::prelude::*;

use crate::text::{text_equals, text_view};

verus! {

/// What a JSON document says. Numbers are told apart from the rest, and not read further.
pub enum JsonTree {
    Null,
    Bool(bool),
    Number,
    Text(Seq<char>),
    List(Seq<JsonTree>),
    Object(Seq<(Seq<char>, JsonTree)>),
}

impl JsonTree {
    /// The value of the field `name` of an object.
    pub open spec fn field(self, name: Seq<char>) -> Option<JsonTree> {
        match self {
            JsonTree::Object(fields) => field_in(fields, name),
            _ => None,
        }
    }

    /// The text in the field `name` of an object.
    pub open spec fn text_at(self, name: Seq<char>) -> Option<Seq<char>> {
        match self.field(name) {
            Some(JsonTree::Text(text)) => Some(text),
            _ => None,
        }
    }

    /// A list in a field of an object is a part of the object.
    pub proof fn lemma_list_is_below(self, name: Seq<char>)
        ensures
            self.field(name) matches Some(JsonTree::List(items)) ==> decreases_to!(self => items),
    {
        if let JsonTree::Object(fields) = self {
            if field_in(fields, name) is Some {
                let at = lemma_field_index(fields, name);
                assert(decreases_to!(self => fields));
                assert(decreases_to!(fields => fields[at]));
                assert(decreases_to!(fields[at] => fields[at].1));
                if let JsonTree::List(items) = fields[at].1 {
                    assert(decreases_to!(fields[at].1 => items));
                }
            }
        }
    }
}

/// The value of the first of `fields` that is called `name`.
pub open spec fn field_in(fields: Seq<(Seq<char>, JsonTree)>, name: Seq<char>) -> Option<JsonTree>
    decreases fields.len(),
{
    if fields.len() == 0 {
        None
    } else if fields[0].0 == name {
        Some(fields[0].1)
    } else {
        field_in(fields.drop_first(), name)
    }
}

/// A search from the front finds the field.
proof fn lemma_field_in(fields: Seq<(Seq<char>, JsonTree)>, name: Seq<char>, at: int)
    requires
        0 <= at <= fields.len(),
        forall|i: int| 0 <= i < at ==> (#[trigger] fields[i]).0 != name,
    ensures
        at == fields.len() ==> field_in(fields, name) is None,
        at < fields.len() && fields[at].0 == name ==> field_in(fields, name) == Some(fields[at].1),
    decreases at,
{
    if at > 0 {
        assert(fields[0].0 != name);
        let rest = fields.drop_first();
        assert forall|i: int| 0 <= i < at - 1 implies (#[trigger] rest[i]).0 != name by {
            assert(rest[i] == fields[i + 1]);
        }
        lemma_field_in(rest, name, at - 1);
    }
}

/// Where the field stands.
proof fn lemma_field_index(fields: Seq<(Seq<char>, JsonTree)>, name: Seq<char>) -> (at: int)
    requires
        field_in(fields, name) is Some,
    ensures
        0 <= at < fields.len(),
        field_in(fields, name) == Some(fields[at].1),
    decreases fields.len(),
{
    if fields[0].0 == name {
        0
    } else {
        1 + lemma_field_index(fields.drop_first(), name)
    }
}

/// A JSON document. The fields of an object stand in any order; where a name occurs
/// twice, the first counts.
#[derive(Debug)]
pub enum Json {
    Null,
    Bool(bool),
    Number,
    Text(String),
    List(Vec<Json>),
    Object(Vec<(String, Json)>),
}

impl Json {
    /// What the document says.
    pub open spec fn tree(self) -> JsonTree
        decreases self,
    {
        match self {
            Json::Null => JsonTree::Null,
            Json::Bool(b) => JsonTree::Bool(b),
            Json::Number => JsonTree::Number,
            Json::Text(s) => JsonTree::Text(s@),
            Json::List(items) => JsonTree::List(
                Seq::new(
                    items@.len(),
                    |i: int|
                        if 0 <= i < items@.len() {
                            items@[i].tree()
                        } else {
                            arbitrary()
                        },
                ),
            ),
            Json::Object(fields) => JsonTree::Object(
                Seq::new(
                    fields@.len(),
                    |i: int|
                        if 0 <= i < fields@.len() {
                            (fields@[i].0@, fields@[i].1.tree())
                        } else {
                            arbitrary()
                        },
                ),
            ),
        }
    }

    /// The value of the field `name` of an object.
    pub fn get(&self, name: &str) -> (value: Option<&Json>)
        ensures
            match value {
                Some(v) => self.tree().field(name@) == Some(v.tree()),
                None => self.tree().field(name@) is None,
            },
    {
        match self {
            Json::Object(fields) => {
                let ghost tree = self.tree()->Object_0;
                for i in 0..fields.len()
                    invariant
                        self.tree() == JsonTree::Object(tree),
                        tree.len() == fields@.len(),
                        forall|j: int|
                            0 <= j < tree.len() ==> #[trigger] tree[j] == (
                                fields@[j].0@,
                                fields@[j].1.tree(),
                            ),
                        forall|j: int| 0 <= j < i ==> (#[trigger] tree[j]).0 != name@,
                {
                    assert(tree[i as int].0 == fields@[i as int].0@);
                    if text_equals(fields[i].0.as_str(), name) {
                        proof {
                            lemma_field_in(tree, name@, i as int);
                        }
                        return Some(&fields[i].1);
                    }
                }
                proof {
                    lemma_field_in(tree, name@, tree.len() as int);
                }
                None
            },
            _ => None,
        }
    }

    /// The text in the field `name` of an object.
    pub fn get_text(&self, name: &str) -> (text: Option<String>)
        ensures
            text_view(text) == self.tree().text_at(name@),
    {
        match self.get(name) {
            Some(Json::Text(text)) => Some(text.clone()),
            _ => None,
        }
    }
}

/// `serde_json::Value`, which holds any JSON document.
#[verifier::external_type_specification]
#[verifier::external_body]
pub struct ExValue(serde_json::Value);

/// What a `serde_json::Value` holds: its variant, and what that variant holds in turn. The
/// fields of an object come in the order in which its map hands them out.
pub uninterp spec fn value_tree(value: serde_json::Value) -> JsonTree;

/// What `serde_json::from_slice` reads from `bytes`; `None` where it reports an error.
pub uninterp spec fn parsed_json(bytes: Seq<u8>) -> Option<JsonTree>;

/// `serde_json::from_slice`, for a `Value`: the result is named by [`parsed_json`].
#[verifier::external_body]
fn parse_value(bytes: &[u8]) -> (value: Option<serde_json::Value>)
    ensures
        match value {
            Some(v) => parsed_json(bytes@) == Some(value_tree(v)),
            None => parsed_json(bytes@) is None,
        },
{
    serde_json::from_slice(bytes).ok()
}

/// One level of a `serde_json::Value`.
enum Level<'a> {
    Null,
    Bool(bool),
    Number,
    Text(&'a String),
    List(&'a Vec<serde_json::Value>),
    Object(Vec<(&'a String, &'a serde_json::Value)>),
}

/// Whether `level` is the top of `tree`.
spec fn level_matches(level: Level, tree: JsonTree) -> bool {
    match level {
        Level::Null => tree == JsonTree::Null,
        Level::Bool(b) => tree == JsonTree::Bool(b),
        Level::Number => tree == JsonTree::Number,
        Level::Text(s) => tree == JsonTree::Text(s@),
        Level::List(items) => tree == JsonTree::List(
            items@.map_values(|v: serde_json::Value| value_tree(v)),
        ),
        Level::Object(fields) => tree == JsonTree::Object(
            fields@.map_values(|f: (&String, &serde_json::Value)| (f.0@, value_tree(*f.1))),
        ),
    }
}

/// The variants of `serde_json::Value`, and `serde_json::Map::iter`, which hands out every
/// field of an object once: what is found is what [`value_tree`] says of the value.
#[verifier::external_body]
fn open_value(value: &serde_json::Value) -> (level: Level<'_>)
    ensures
        level_matches(level, value_tree(*value)),
{
    match value {
        serde_json::Value::Null => Level::Null,
        serde_json::Value::Bool(b) => Level::Bool(*b),
        serde_json::Value::Number(_) => Level::Number,
        serde_json::Value::String(s) => Level::Text(s),
        serde_json::Value::Array(items) => Level::List(items),
        serde_json::Value::Object(fields) => Level::Object(fields.iter().collect()),
    }
}

/// The document that a `serde_json::Value` holds.
fn read_value(value: &serde_json::Value) -> (json: Json)
    ensures
        json.tree() == value_tree(*value),
    decreases value_tree(*value),
{
    match open_value(value) {
        Level::Null => Json::Null,
        Level::Bool(b) => Json::Bool(b),
        Level::Number => Json::Number,
        Level::Text(s) => Json::Text(s.clone()),
        Level::List(items) => {
            let mut out: Vec<Json> = Vec::new();
            for i in 0..items.len()
                invariant
                    out@.len() == i,
                    value_tree(*value) == JsonTree::List(
                        items@.map_values(|v: serde_json::Value| value_tree(v)),
                    ),
                    forall|j: int| 0 <= j < i ==> (#[trigger] out@[j]).tree() == value_tree(items@[j]),
            {
                assert(value_tree(*value)->List_0[i as int] == value_tree(items@[i as int]));
                assert(decreases_to!(value_tree(*value) => value_tree(items@[i as int])));
                out.push(read_value(&items[i]));
            }
            let json = Json::List(out);
            assert(json.tree()->List_0 =~= value_tree(*value)->List_0);
            json
        },
        Level::Object(fields) => {
            let mut out: Vec<(String, Json)> = Vec::new();
            for i in 0..fields.len()
                invariant
                    out@.len() == i,
                    value_tree(*value) == JsonTree::Object(
                        fields@.map_values(
                            |f: (&String, &serde_json::Value)| (f.0@, value_tree(*f.1)),
                        ),
                    ),
                    forall|j: int|
                        0 <= j < i ==> (#[trigger] out@[j]).0@ == fields@[j].0@ && out@[j].1.tree()
                            == value_tree(*fields@[j].1),
            {
                assert(value_tree(*value)->Object_0[i as int] == (
                    fields@[i as int].0@,
                    value_tree(*fields@[i as int].1),
                ));
                proof {
                    let tree = value_tree(*value);
                    assert(decreases_to!(tree => tree->Object_0));
                    assert(decreases_to!(tree->Object_0 => tree->Object_0[i as int]));
                    assert(decreases_to!(tree->Object_0[i as int] => tree->Object_0[i as int].1));
                }
                let (name, inner) = fields[i];
                out.push((name.clone(), read_value(inner)));
            }
            let json = Json::Object(out);
            assert(json.tree()->Object_0 =~= value_tree(*value)->Object_0);
            json
        },
    }
}

/// Reads a JSON document; `None` where `bytes` is not one.
pub fn parse_json(bytes: &[u8]) -> (json: Option<Json>)
    ensures
        match json {
            Some(j) => parsed_json(bytes@) == Some(j.tree()),
            None => parsed_json(bytes@) is None,
        },
{
    match parse_value(bytes) {
        Some(value) => Some(read_value(&value)),
        None => None,
    }
}

/// A field is found wherever it stands among the others, as long as no field before it has
/// its name. Only objects have fields.
pub proof fn law_fields(
    before: Seq<(Seq<char>, JsonTree)>,
    name: Seq<char>,
    value: JsonTree,
    after: Seq<(Seq<char>, JsonTree)>,
    tree: JsonTree,
)
    ensures
        (forall|i: int| 0 <= i < before.len() ==> (#[trigger] before[i]).0 != name)
            ==> JsonTree::Object(before + seq![(name, value)] + after).field(name) == Some(value)
            && JsonTree::Object(before).field(name) is None,
        !(tree is Object) ==> tree.field(name) is None,
        tree.text_at(name) is Some <==> (tree.field(name) matches Some(JsonTree::Text(_))),
        tree.field(name) matches Some(JsonTree::Text(text)) ==> tree.text_at(name) == Some(text),
{
    if forall|i: int| 0 <= i < before.len() ==> (#[trigger] before[i]).0 != name {
        let fields = before + seq![(name, value)] + after;
        assert forall|i: int| 0 <= i < before.len() implies (#[trigger] fields[i]).0 != name by {
            assert(fields[i] == before[i]);
        }
        lemma_field_in(fields, name, before.len() as int);
        lemma_field_in(before, name, before.len() as int);
    }
}

/// A document says of each of its parts what that part says, in the same order.
pub proof fn law_tree(json: Json)
    ensures
        match json {
            Json::Null => json.tree() is Null,
            Json::Bool(b) => json.tree() == JsonTree::Bool(b),
            Json::Number => json.tree() is Number,
            Json::Text(text) => json.tree() == JsonTree::Text(text@),
            Json::List(items) => json.tree() matches JsonTree::List(trees) && trees.len()
                == items@.len() && forall|i: int|
                0 <= i < items@.len() ==> #[trigger] trees[i] == items@[i].tree(),
            Json::Object(fields) => json.tree() matches JsonTree::Object(trees) && trees.len()
                == fields@.len() && forall|i: int|
                0 <= i < fields@.len() ==> #[trigger] trees[i] == (
                    fields@[i].0@,
                    fields@[i].1.tree(),
                ),
        },
{
}

} // verus!
