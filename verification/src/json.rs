//! JSON documents as the log holds them, and how they are written and read.
use crate::text::{opt_text, texts};
use serde_json::Value;
use vstd::prelude::*;

verus! {

/// A text or a flag.
#[derive(Debug, Clone)]
pub enum JsonLeaf {
    Text(String),
    Flag(bool),
}

/// What stands under a key of an object.
#[derive(Debug, Clone)]
pub enum JsonField {
    Text(String),
    List(Vec<String>),
    Object(Vec<(String, JsonLeaf)>),
}

/// An object, or a list of objects. Where an object has a key twice, the later one counts.
#[derive(Debug, Clone)]
pub enum JsonDocument {
    Object(Vec<(String, JsonField)>),
    List(Vec<Vec<(String, JsonField)>>),
}

/// What a `JsonLeaf` holds.
pub ghost enum LeafView {
    Text(Seq<char>),
    Flag(bool),
}

/// What a `JsonField` holds.
pub ghost enum FieldView {
    Text(Seq<char>),
    List(Seq<Seq<char>>),
    Object(Map<Seq<char>, LeafView>),
}

/// What a `JsonDocument` holds.
pub ghost enum DocumentView {
    Object(Map<Seq<char>, FieldView>),
    List(Seq<Map<Seq<char>, FieldView>>),
}

impl View for JsonLeaf {
    type V = LeafView;

    open spec fn view(&self) -> LeafView {
        match *self {
            JsonLeaf::Text(text) => LeafView::Text(text@),
            JsonLeaf::Flag(flag) => LeafView::Flag(flag),
        }
    }
}

/// The map that keys and leaves make, the later key counting.
pub open spec fn leaf_map(pairs: Seq<(String, JsonLeaf)>) -> Map<Seq<char>, LeafView>
    decreases pairs.len(),
{
    if pairs.len() == 0 {
        Map::empty()
    } else {
        leaf_map(pairs.drop_last()).insert(pairs.last().0@, pairs.last().1@)
    }
}

impl View for JsonField {
    type V = FieldView;

    open spec fn view(&self) -> FieldView {
        match *self {
            JsonField::Text(text) => FieldView::Text(text@),
            JsonField::List(items) => FieldView::List(texts(items@)),
            JsonField::Object(pairs) => FieldView::Object(leaf_map(pairs@)),
        }
    }
}

/// The map that keys and fields make, the later key counting.
pub open spec fn field_map(pairs: Seq<(String, JsonField)>) -> Map<Seq<char>, FieldView>
    decreases pairs.len(),
{
    if pairs.len() == 0 {
        Map::empty()
    } else {
        field_map(pairs.drop_last()).insert(pairs.last().0@, pairs.last().1@)
    }
}

impl View for JsonDocument {
    type V = DocumentView;

    open spec fn view(&self) -> DocumentView {
        match *self {
            JsonDocument::Object(pairs) => DocumentView::Object(field_map(pairs@)),
            JsonDocument::List(items) => DocumentView::List(
                items@.map_values(|item: Vec<(String, JsonField)>| field_map(item@)),
            ),
        }
    }
}

/// The text that `serde_json::to_string` writes for a document.
pub uninterp spec fn json_text(document: DocumentView) -> Seq<char>;

/// `serde_json::to_string` writes a document without white space, the keys of each object in
/// order. A document of texts, flags, lists and objects is always written; an object without
/// keys is written as a pair of braces. How other documents are written is not spelled out here.
#[verifier::external_body]
pub(crate) fn write_json(document: &JsonDocument) -> (text: String)
    ensures
        text@ == json_text(document@),
        document@ == DocumentView::Object(Map::<Seq<char>, FieldView>::empty()) ==> text@ == "{}"@,
{
    let object = |pairs: &Vec<(String, JsonField)>| Value::from_iter(pairs.iter().map(|(key, field)| (key, match field {
        JsonField::Text(text) => Value::from(text.clone()),
        JsonField::List(items) => Value::from(items.clone()),
        JsonField::Object(pairs) => pairs.iter().map(|(key, leaf)| (key, match leaf {
            JsonLeaf::Text(text) => Value::from(text.clone()),
            JsonLeaf::Flag(flag) => Value::from(*flag),
        })).collect(),
    })));
    serde_json::to_string(&match document {
        JsonDocument::Object(pairs) => object(pairs),
        JsonDocument::List(items) => items.iter().map(object).collect(),
    }).unwrap_or_default()
}

/// The text that `serde_json::to_string_pretty` writes for the value that `serde_json::from_str`
/// reads from a text, where it is JSON.
pub uninterp spec fn pretty_json(text: Seq<char>) -> Option<Seq<char>>;

/// `serde_json::from_str` reads a text as JSON or refuses it; what it reads,
/// `serde_json::to_string_pretty` writes over several lines. Neither is spelled out here.
#[verifier::external_body]
pub(crate) fn rewrite_json(text: &str) -> (pretty: Option<String>)
    ensures
        opt_text(pretty) == pretty_json(text@),
{
    let value: Value = serde_json::from_str(text).ok()?;
    serde_json::to_string_pretty(&value).ok()
}

/// Of two fields with the same key the later counts; fields under other keys stay.
pub proof fn later_keys_count(
    fields: Seq<(String, JsonField)>,
    field: (String, JsonField),
    leaves: Seq<(String, JsonLeaf)>,
    leaf: (String, JsonLeaf),
)
    ensures
        field_map(Seq::empty()) == Map::<Seq<char>, FieldView>::empty(),
        field_map(fields.push(field)) == field_map(fields).insert(field.0@, field.1@),
        leaf_map(Seq::empty()) == Map::<Seq<char>, LeafView>::empty(),
        leaf_map(leaves.push(leaf)) == leaf_map(leaves).insert(leaf.0@, leaf.1@),
{
    assert(fields.push(field).drop_last() =~= fields);
    assert(leaves.push(leaf).drop_last() =~= leaves);
}

/// Documents, fields and leaves are taken for what they hold.
pub proof fn documents_are_what_they_hold(
    text: String,
    flag: bool,
    items: Vec<String>,
    leaves: Vec<(String, JsonLeaf)>,
    fields: Vec<(String, JsonField)>,
    objects: Vec<Vec<(String, JsonField)>>,
    i: int,
)
    ensures
        JsonLeaf::Text(text)@ == LeafView::Text(text@),
        JsonLeaf::Flag(flag)@ == LeafView::Flag(flag),
        JsonField::Text(text)@ == FieldView::Text(text@),
        JsonField::List(items)@ == FieldView::List(texts(items@)),
        JsonField::Object(leaves)@ == FieldView::Object(leaf_map(leaves@)),
        JsonDocument::Object(fields)@ == DocumentView::Object(field_map(fields@)),
        JsonDocument::List(objects)@ is List,
        JsonDocument::List(objects)@->List_0.len() == objects@.len(),
        0 <= i < objects@.len() ==> JsonDocument::List(objects)@->List_0[i] == field_map(
            objects@[i]@,
        ),
{
}

} // verus!
