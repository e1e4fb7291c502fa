//! Reading the structured replies of a model: JSON and YAML texts become
//! values of the library, and what surrounds them in a reply is cut away.

use crate::text::{from_chars, matches_at, occurs_at, same_text, to_chars, views};
use crate::value::{ScriptValue, ValueModel};
use vstd::prelude::*;

verus! {

/// `serde_json::Value`, a JSON value as the parser hands it out.
#[verifier::external_type_specification]
#[verifier::external_body]
pub struct ExJsonValue(serde_json::Value);

/// `serde_yaml::Value`, a YAML value as the parser hands it out.
#[verifier::external_type_specification]
#[verifier::external_body]
pub struct ExYamlValue(serde_yaml::Value);

/// How deep the parsers let a document nest; a value read from one is never
/// deeper.
pub const DOCUMENT_DEPTH: usize = 128;

/// What a document is, as a mathematical value: what the parsers read from a
/// text, before it is taken for a value of the library.
pub enum DocumentModel {
    Null,
    Bool(bool),
    Integer(int),
    /// A number that is no 64-bit integer, as the parser writes it.
    Fraction(Seq<char>),
    Text(Seq<char>),
    List(Seq<DocumentModel>),
    /// The entries of a JSON object or a YAML mapping, each a key and what
    /// it holds, in order.
    Table(Seq<(DocumentModel, DocumentModel)>),
    /// A YAML value under a tag.
    Tagged,
}

/// What `serde_json::from_str` reads from `text`: the document, or `None`
/// where the text is no JSON.
pub uninterp spec fn json_parsed(text: Seq<char>) -> Option<DocumentModel>;

/// What a `serde_json::Value` holds: the items of an array, each under the
/// key `Null`, or the fields of an object, each under its name as a text, in
/// the order of the value; nothing for any other value.
pub uninterp spec fn json_members(value: serde_json::Value) -> Seq<(DocumentModel, DocumentModel)>;

/// What a `serde_json::Value` is without what it holds: itself where it is
/// no array and no object, else the array or object without members.
pub uninterp spec fn json_scalar(value: serde_json::Value) -> DocumentModel;

/// What `serde_yaml::from_str` reads from `text`: the document, or `None`
/// where the text is no YAML.
pub uninterp spec fn yaml_parsed(text: Seq<char>) -> Option<DocumentModel>;

/// What a `serde_yaml::Value` holds: the items of a sequence, each under the
/// key `Null`, or the entries of a mapping, each under its key, in the order
/// of the value; nothing for any other value.
pub uninterp spec fn yaml_members(value: serde_yaml::Value) -> Seq<(DocumentModel, DocumentModel)>;

/// What a `serde_yaml::Value` is without what it holds: itself where it is
/// no sequence and no mapping, else the sequence or mapping without members.
pub uninterp spec fn yaml_scalar(value: serde_yaml::Value) -> DocumentModel;

/// The YAML text that `serde_yaml::to_string` writes for a document that
/// was read from JSON; `None` where it writes none.
pub uninterp spec fn yaml_text(doc: DocumentModel) -> Option<Seq<char>>;

/// A container put together from what it is and what it holds.
pub open spec fn assembled(
    scalar: DocumentModel,
    members: Seq<(DocumentModel, DocumentModel)>,
) -> DocumentModel {
    match scalar {
        DocumentModel::List(_) => DocumentModel::List(
            members.map_values(|m: (DocumentModel, DocumentModel)| m.1),
        ),
        DocumentModel::Table(_) => DocumentModel::Table(members),
        _ => scalar,
    }
}

/// The document that a JSON value is.
pub open spec fn json_model(value: serde_json::Value) -> DocumentModel {
    assembled(json_scalar(value), json_members(value))
}

/// The document that a YAML value is.
pub open spec fn yaml_model(value: serde_yaml::Value) -> DocumentModel {
    assembled(yaml_scalar(value), yaml_members(value))
}

/// Whether every item of `items` stands for a value, read `depth` deep.
pub open spec fn items_readable(items: Seq<DocumentModel>, depth: nat) -> bool
    decreases depth, 1nat, items.len(),
{
    forall|i: int| 0 <= i < items.len() ==> document_value(#[trigger] items[i], depth) is Some
}

/// Whether every entry of `entries` has a text for its key and holds what
/// stands for a value, read `depth` deep.
pub open spec fn entries_readable(entries: Seq<(DocumentModel, DocumentModel)>, depth: nat) -> bool
    decreases depth, 1nat, entries.len(),
{
    forall|i: int|
        0 <= i < entries.len() ==> (#[trigger] entries[i]).0 is Text && document_value(
            entries[i].1,
            depth,
        ) is Some
}

/// The value of the library that a document stands for, read `depth`
/// containers deep: a list for a list, a record for a table whose keys are
/// texts. A number that is no 64-bit integer, a tagged value, a table with
/// another kind of key and a container below the depth stand for nothing,
/// and neither does a document that holds one of them.
pub open spec fn document_value(doc: DocumentModel, depth: nat) -> Option<ValueModel>
    decreases depth, 0nat, 0nat,
{
    match doc {
        DocumentModel::Null => Some(ValueModel::Nil),
        DocumentModel::Bool(b) => Some(ValueModel::Bool(b)),
        DocumentModel::Integer(n) => Some(ValueModel::Number(n)),
        DocumentModel::Fraction(_) => None,
        DocumentModel::Tagged => None,
        DocumentModel::Text(text) => Some(ValueModel::Text(text)),
        DocumentModel::List(items) => {
            if depth == 0 {
                None
            } else if !items_readable(items, (depth - 1) as nat) {
                None
            } else {
                Some(
                    ValueModel::List(
                        Seq::new(
                            items.len(),
                            |i: int| document_value(items[i], (depth - 1) as nat)->0,
                        ),
                    ),
                )
            }
        },
        DocumentModel::Table(entries) => {
            if depth == 0 {
                None
            } else if !entries_readable(entries, (depth - 1) as nat) {
                None
            } else {
                Some(
                    ValueModel::Record(
                        Seq::new(
                            entries.len(),
                            |i: int|
                                (
                                    entries[i].0->Text_0,
                                    document_value(entries[i].1, (depth - 1) as nat)->0,
                                ),
                        ),
                    ),
                )
            }
        },
    }
}

/// What the first entry of `entries` under the text `name` holds.
pub open spec fn entry_under(
    entries: Seq<(DocumentModel, DocumentModel)>,
    name: Seq<char>,
) -> Option<DocumentModel>
    decreases entries.len(),
{
    if entries.len() == 0 {
        None
    } else if entries.first().0 == DocumentModel::Text(name) {
        Some(entries.first().1)
    } else {
        entry_under(entries.drop_first(), name)
    }
}

/// The texts that `items` are, where each of them is a text.
pub open spec fn all_texts(items: Seq<DocumentModel>) -> Option<Seq<Seq<char>>> {
    if forall|i: int| 0 <= i < items.len() ==> (#[trigger] items[i]) is Text {
        Some(Seq::new(items.len(), |i: int| items[i]->Text_0))
    } else {
        None
    }
}

/// The texts of the list that a document is, where it is a list of texts.
pub open spec fn list_texts(doc: DocumentModel) -> Option<Seq<Seq<char>>> {
    match doc {
        DocumentModel::List(items) => all_texts(items),
        _ => None,
    }
}

/// The texts that a document holds under `name`: the document is a table,
/// and its first entry under that name is a list of texts. What the table
/// holds elsewhere does not count.
pub open spec fn field_texts(doc: DocumentModel, name: Seq<char>) -> Option<Seq<Seq<char>>> {
    match doc {
        DocumentModel::Table(entries) => match entry_under(entries, name) {
            Some(held) => list_texts(held),
            None => None,
        },
        _ => None,
    }
}

/// The texts that a parsed document holds under `name`.
pub open spec fn texts_under(parsed: Option<DocumentModel>, name: Seq<char>) -> Option<
    Seq<Seq<char>>,
> {
    match parsed {
        Some(doc) => field_texts(doc, name),
        None => None,
    }
}

/// One layer of a JSON value.
enum JsonLayer {
    Null,
    Bool(bool),
    Integer(i64),
    /// A number that is no 64-bit integer, as the parser writes it.
    Fraction(String),
    Text(String),
    Array(Vec<serde_json::Value>),
    Object(Vec<(String, serde_json::Value)>),
}

/// One layer of a YAML value.
enum YamlLayer {
    Null,
    Bool(bool),
    Integer(i64),
    /// A number that is no 64-bit integer, as the parser writes it.
    Fraction(String),
    Text(String),
    Sequence(Vec<serde_yaml::Value>),
    Mapping(Vec<(serde_yaml::Value, serde_yaml::Value)>),
    Tagged,
}

/// `serde_json::from_str`: the JSON value that `text` is, if it is one. The
/// value is the document that the name `json_parsed` gives for the text.
#[verifier::external_body]
pub(crate) fn json_read(text: &str) -> (read: Option<serde_json::Value>)
    ensures
        match read {
            Some(value) => json_parsed(text@) == Some(
                assembled(json_scalar(value), json_members(value)),
            ),
            None => json_parsed(text@) is None,
        },
{
    serde_json::from_str(text).ok()
}

/// `serde_yaml::from_str`: the YAML value that `text` is, if it is one. The
/// value is the document that the name `yaml_parsed` gives for the text.
#[verifier::external_body]
fn yaml_read(text: &str) -> (read: Option<serde_yaml::Value>)
    ensures
        match read {
            Some(value) => yaml_parsed(text@) == Some(
                assembled(yaml_scalar(value), yaml_members(value)),
            ),
            None => yaml_parsed(text@) is None,
        },
{
    serde_yaml::from_str(text).ok()
}

/// `serde_yaml::to_string` on a JSON value: the YAML text of the value, as
/// the name `yaml_text` gives it for the document that the value is.
#[verifier::external_body]
pub(crate) fn yaml_write(value: &serde_json::Value) -> (yaml: Option<String>)
    ensures
        match yaml {
            Some(text) => yaml_text(assembled(json_scalar(*value), json_members(*value))) == Some(
                text@,
            ),
            None => yaml_text(assembled(json_scalar(*value), json_members(*value))) is None,
        },
{
    serde_yaml::to_string(value).ok()
}

/// Tells the variants of `serde_json::Value` apart; a number goes through
/// `Number::as_i64`, and one that is no 64-bit integer is written by its
/// `Display`. The fields of an object come in the order of its map.
/// The layer is what the value is, and its items or fields are what the
/// value holds.
#[verifier::external_body]
fn json_peel(value: &serde_json::Value) -> (layer: JsonLayer)
    ensures
        match layer {
            JsonLayer::Null => json_scalar(*value) == DocumentModel::Null,
            JsonLayer::Bool(b) => json_scalar(*value) == DocumentModel::Bool(b),
            JsonLayer::Integer(n) => json_scalar(*value) == DocumentModel::Integer(n as int),
            JsonLayer::Fraction(text) => json_scalar(*value) == DocumentModel::Fraction(text@),
            JsonLayer::Text(text) => json_scalar(*value) == DocumentModel::Text(text@),
            JsonLayer::Array(items) => json_scalar(*value) == DocumentModel::List(Seq::empty())
                && json_members(*value) == items@.map_values(
                |item: serde_json::Value|
                    (DocumentModel::Null, assembled(json_scalar(item), json_members(item))),
            ),
            JsonLayer::Object(fields) => json_scalar(*value) == DocumentModel::Table(Seq::empty())
                && json_members(*value) == fields@.map_values(
                |field: (String, serde_json::Value)|
                    (
                        DocumentModel::Text(field.0@),
                        assembled(json_scalar(field.1), json_members(field.1)),
                    ),
            ),
        },
{
    match value {
        serde_json::Value::Null => JsonLayer::Null,
        serde_json::Value::Bool(b) => JsonLayer::Bool(*b),
        serde_json::Value::Number(n) => match n.as_i64() {
            Some(i) => JsonLayer::Integer(i),
            None => JsonLayer::Fraction(n.to_string()),
        },
        serde_json::Value::String(s) => JsonLayer::Text(s.clone()),
        serde_json::Value::Array(items) => JsonLayer::Array(items.clone()),
        serde_json::Value::Object(map) => JsonLayer::Object(
            map.iter().map(|(k, v)| (k.clone(), v.clone())).collect(),
        ),
    }
}

/// Tells the variants of `serde_yaml::Value` apart; a number goes through
/// `Number::as_i64`, and one that is no 64-bit integer is written by its
/// `Display`. The entries of a mapping come in the order of the text.
/// The layer is what the value is, and its items or entries are what the
/// value holds.
#[verifier::external_body]
fn yaml_peel(value: &serde_yaml::Value) -> (layer: YamlLayer)
    ensures
        match layer {
            YamlLayer::Null => yaml_scalar(*value) == DocumentModel::Null,
            YamlLayer::Bool(b) => yaml_scalar(*value) == DocumentModel::Bool(b),
            YamlLayer::Integer(n) => yaml_scalar(*value) == DocumentModel::Integer(n as int),
            YamlLayer::Fraction(text) => yaml_scalar(*value) == DocumentModel::Fraction(text@),
            YamlLayer::Text(text) => yaml_scalar(*value) == DocumentModel::Text(text@),
            YamlLayer::Tagged => yaml_scalar(*value) == DocumentModel::Tagged,
            YamlLayer::Sequence(items) => yaml_scalar(*value) == DocumentModel::List(Seq::empty())
                && yaml_members(*value) == items@.map_values(
                |item: serde_yaml::Value|
                    (DocumentModel::Null, assembled(yaml_scalar(item), yaml_members(item))),
            ),
            YamlLayer::Mapping(entries) => yaml_scalar(*value) == DocumentModel::Table(
                Seq::empty(),
            ) && yaml_members(*value) == entries@.map_values(
                |entry: (serde_yaml::Value, serde_yaml::Value)|
                    (
                        assembled(yaml_scalar(entry.0), yaml_members(entry.0)),
                        assembled(yaml_scalar(entry.1), yaml_members(entry.1)),
                    ),
            ),
        },
{
    match value {
        serde_yaml::Value::Null => YamlLayer::Null,
        serde_yaml::Value::Bool(b) => YamlLayer::Bool(*b),
        serde_yaml::Value::Number(n) => match n.as_i64() {
            Some(i) => YamlLayer::Integer(i),
            None => YamlLayer::Fraction(n.to_string()),
        },
        serde_yaml::Value::String(s) => YamlLayer::Text(s.clone()),
        serde_yaml::Value::Sequence(items) => YamlLayer::Sequence(items.clone()),
        serde_yaml::Value::Mapping(map) => YamlLayer::Mapping(
            map.iter().map(|(k, v)| (k.clone(), v.clone())).collect(),
        ),
        serde_yaml::Value::Tagged(_) => YamlLayer::Tagged,
    }
}

/// The value of the library that a JSON value stands for: an array is a
/// list, an object a record. A number that is no 64-bit integer stands for
/// nothing, and neither does a value that holds one.
fn json_value(value: &serde_json::Value, depth: usize) -> (read: Option<ScriptValue>)
    ensures
        match read {
            Some(v) => document_value(json_model(*value), depth as nat) == Some(v@),
            None => document_value(json_model(*value), depth as nat) is None,
        },
    decreases depth,
{
    let ghost doc = json_model(*value);
    match json_peel(value) {
        JsonLayer::Null => Some(ScriptValue::Nil),
        JsonLayer::Bool(b) => Some(ScriptValue::Bool(b)),
        JsonLayer::Integer(n) => Some(ScriptValue::Number(n)),
        JsonLayer::Fraction(_) => None,
        JsonLayer::Text(text) => Some(ScriptValue::Text(text)),
        JsonLayer::Array(items) => {
            if depth == 0 {
                return None;
            }
            let ghost below = (depth - 1) as nat;
            let ghost models = doc->List_0;
            proof {
                assert(models.len() == items@.len());
            }
            let mut list: Vec<ScriptValue> = Vec::new();
            let mut i: usize = 0;
            while i < items.len()
                invariant
                    i <= items.len(),
                    depth > 0,
                    below == depth - 1,
                    list@.len() == i,
                    doc == json_model(*value),
                    doc == DocumentModel::List(models),
                    models.len() == items@.len(),
                    forall|j: int| 0 <= j < items@.len() ==> models[j] == json_model(items@[j]),
                    forall|j: int|
                        0 <= j < i ==> document_value(#[trigger] models[j], below) == Some(
                            list@[j]@,
                        ),
                decreases items.len() - i,
            {
                match json_value(&items[i], depth - 1) {
                    Some(item) => list.push(item),
                    None => {
                        proof {
                            assert(document_value(models[i as int], below) is None);
                            assert(!items_readable(models, below));
                        }
                        return None;
                    },
                }
                i += 1;
            }
            let read = ScriptValue::List(list);
            proof {
                assert(items_readable(models, below));
                assert(read@->List_0 =~= document_value(doc, depth as nat)->0->List_0);
            }
            Some(read)
        },
        JsonLayer::Object(entries) => {
            if depth == 0 {
                return None;
            }
            let ghost below = (depth - 1) as nat;
            let ghost models = doc->Table_0;
            proof {
                assert(models.len() == entries@.len());
            }
            let mut fields: Vec<(String, ScriptValue)> = Vec::new();
            let mut i: usize = 0;
            while i < entries.len()
                invariant
                    i <= entries.len(),
                    depth > 0,
                    below == depth - 1,
                    fields@.len() == i,
                    doc == json_model(*value),
                    doc == DocumentModel::Table(models),
                    models.len() == entries@.len(),
                    forall|j: int|
                        0 <= j < entries@.len() ==> models[j] == (
                            DocumentModel::Text(entries@[j].0@),
                            json_model(entries@[j].1),
                        ),
                    forall|j: int|
                        0 <= j < i ==> document_value((#[trigger] models[j]).1, below) == Some(
                            fields@[j].1@,
                        ) && fields@[j].0@ == models[j].0->Text_0,
                decreases entries.len() - i,
            {
                match json_value(&entries[i].1, depth - 1) {
                    Some(held) => fields.push((entries[i].0.clone(), held)),
                    None => {
                        proof {
                            assert(document_value(models[i as int].1, below) is None);
                            assert(!entries_readable(models, below));
                        }
                        return None;
                    },
                }
                i += 1;
            }
            let read = ScriptValue::Record(fields);
            proof {
                assert(entries_readable(models, below));
                assert(read@->Record_0 =~= document_value(doc, depth as nat)->0->Record_0);
            }
            Some(read)
        },
    }
}

/// The value of the library that a YAML value stands for: a sequence is a
/// list, a mapping with texts for keys a record. A tagged value, a mapping
/// with another kind of key and a number that is no 64-bit integer stand for
/// nothing, and neither does a value that holds one.
fn yaml_value(value: &serde_yaml::Value, depth: usize) -> (read: Option<ScriptValue>)
    ensures
        match read {
            Some(v) => document_value(yaml_model(*value), depth as nat) == Some(v@),
            None => document_value(yaml_model(*value), depth as nat) is None,
        },
    decreases depth,
{
    let ghost doc = yaml_model(*value);
    match yaml_peel(value) {
        YamlLayer::Null => Some(ScriptValue::Nil),
        YamlLayer::Bool(b) => Some(ScriptValue::Bool(b)),
        YamlLayer::Integer(n) => Some(ScriptValue::Number(n)),
        YamlLayer::Fraction(_) => None,
        YamlLayer::Tagged => None,
        YamlLayer::Text(text) => Some(ScriptValue::Text(text)),
        YamlLayer::Sequence(items) => {
            if depth == 0 {
                return None;
            }
            let ghost below = (depth - 1) as nat;
            let ghost models = doc->List_0;
            proof {
                assert(models.len() == items@.len());
            }
            let mut list: Vec<ScriptValue> = Vec::new();
            let mut i: usize = 0;
            while i < items.len()
                invariant
                    i <= items.len(),
                    depth > 0,
                    below == depth - 1,
                    list@.len() == i,
                    doc == yaml_model(*value),
                    doc == DocumentModel::List(models),
                    models.len() == items@.len(),
                    forall|j: int| 0 <= j < items@.len() ==> models[j] == yaml_model(items@[j]),
                    forall|j: int|
                        0 <= j < i ==> document_value(#[trigger] models[j], below) == Some(
                            list@[j]@,
                        ),
                decreases items.len() - i,
            {
                match yaml_value(&items[i], depth - 1) {
                    Some(item) => list.push(item),
                    None => {
                        proof {
                            assert(document_value(models[i as int], below) is None);
                            assert(!items_readable(models, below));
                        }
                        return None;
                    },
                }
                i += 1;
            }
            let read = ScriptValue::List(list);
            proof {
                assert(items_readable(models, below));
                assert(read@->List_0 =~= document_value(doc, depth as nat)->0->List_0);
            }
            Some(read)
        },
        YamlLayer::Mapping(entries) => {
            if depth == 0 {
                return None;
            }
            let ghost below = (depth - 1) as nat;
            let ghost models = doc->Table_0;
            proof {
                assert(models.len() == entries@.len());
            }
            let mut fields: Vec<(String, ScriptValue)> = Vec::new();
            let mut i: usize = 0;
            while i < entries.len()
                invariant
                    i <= entries.len(),
                    depth > 0,
                    below == depth - 1,
                    fields@.len() == i,
                    doc == yaml_model(*value),
                    doc == DocumentModel::Table(models),
                    models.len() == entries@.len(),
                    forall|j: int|
                        0 <= j < entries@.len() ==> models[j] == (
                            yaml_model(entries@[j].0),
                            yaml_model(entries@[j].1),
                        ),
                    forall|j: int|
                        0 <= j < i ==> (#[trigger] models[j]).0 is Text && document_value(
                            models[j].1,
                            below,
                        ) == Some(fields@[j].1@) && fields@[j].0@ == models[j].0->Text_0,
                decreases entries.len() - i,
            {
                let name = match yaml_peel(&entries[i].0) {
                    YamlLayer::Text(name) => name,
                    _ => {
                        proof {
                            assert(!(models[i as int].0 is Text));
                            assert(!entries_readable(models, below));
                        }
                        return None;
                    },
                };
                match yaml_value(&entries[i].1, depth - 1) {
                    Some(held) => fields.push((name, held)),
                    None => {
                        proof {
                            assert(document_value(models[i as int].1, below) is None);
                            assert(!entries_readable(models, below));
                        }
                        return None;
                    },
                }
                i += 1;
            }
            let read = ScriptValue::Record(fields);
            proof {
                assert(entries_readable(models, below));
                assert(read@->Record_0 =~= document_value(doc, depth as nat)->0->Record_0);
            }
            Some(read)
        },
    }
}

/// The value that a JSON text stands for.
pub open spec fn json_text_value(text: Seq<char>) -> Option<ValueModel> {
    match json_parsed(text) {
        Some(doc) => document_value(doc, DOCUMENT_DEPTH as nat),
        None => None,
    }
}

/// The value that a YAML text stands for.
pub open spec fn yaml_text_value(text: Seq<char>) -> Option<ValueModel> {
    match yaml_parsed(text) {
        Some(doc) => document_value(doc, DOCUMENT_DEPTH as nat),
        None => None,
    }
}

/// The texts of a JSON value that is an array of texts.
fn json_texts(value: &serde_json::Value) -> (texts: Option<Vec<String>>)
    ensures
        match texts {
            Some(list) => list_texts(json_model(*value)) == Some(views(list@)),
            None => list_texts(json_model(*value)) is None,
        },
{
    match json_peel(value) {
        JsonLayer::Array(items) => {
            let ghost models = json_model(*value)->List_0;
            proof {
                assert(models.len() == items@.len());
            }
            let mut texts: Vec<String> = Vec::new();
            let mut i: usize = 0;
            while i < items.len()
                invariant
                    i <= items.len(),
                    texts@.len() == i,
                    json_model(*value) == DocumentModel::List(models),
                    models.len() == items@.len(),
                    forall|j: int| 0 <= j < items@.len() ==> models[j] == json_model(items@[j]),
                    forall|j: int|
                        0 <= j < i ==> (#[trigger] models[j]) is Text && models[j]->Text_0
                            == texts@[j]@,
                decreases items.len() - i,
            {
                match json_peel(&items[i]) {
                    JsonLayer::Text(text) => texts.push(text),
                    _ => {
                        proof {
                            assert(!(models[i as int] is Text));
                        }
                        return None;
                    },
                }
                i += 1;
            }
            proof {
                assert(views(texts@) =~= all_texts(models)->0);
            }
            Some(texts)
        },
        _ => None,
    }
}

/// The texts that a JSON value holds under `name`.
fn json_field_texts(value: &serde_json::Value, name: &str) -> (texts: Option<Vec<String>>)
    ensures
        match texts {
            Some(list) => field_texts(json_model(*value), name@) == Some(views(list@)),
            None => field_texts(json_model(*value), name@) is None,
        },
{
    match json_peel(value) {
        JsonLayer::Object(fields) => {
            let ghost entries = json_model(*value)->Table_0;
            proof {
                assert(entries.len() == fields@.len());
                assert(entries.skip(0) =~= entries);
            }
            let mut i: usize = 0;
            while i < fields.len()
                invariant
                    i <= fields.len(),
                    json_model(*value) == DocumentModel::Table(entries),
                    entries.len() == fields@.len(),
                    forall|j: int|
                        0 <= j < fields@.len() ==> entries[j] == (
                            DocumentModel::Text(fields@[j].0@),
                            json_model(fields@[j].1),
                        ),
                    entry_under(entries, name@) == entry_under(entries.skip(i as int), name@),
                decreases fields.len() - i,
            {
                proof {
                    assert(entries.skip(i as int).first() == entries[i as int]);
                    assert(entries.skip(i as int).drop_first() =~= entries.skip(i + 1));
                }
                if same_text(fields[i].0.as_str(), name) {
                    return json_texts(&fields[i].1);
                }
                i += 1;
            }
            None
        },
        _ => None,
    }
}

/// The texts of a YAML value that is a sequence of texts.
fn yaml_texts(value: &serde_yaml::Value) -> (texts: Option<Vec<String>>)
    ensures
        match texts {
            Some(list) => list_texts(yaml_model(*value)) == Some(views(list@)),
            None => list_texts(yaml_model(*value)) is None,
        },
{
    match yaml_peel(value) {
        YamlLayer::Sequence(items) => {
            let ghost models = yaml_model(*value)->List_0;
            proof {
                assert(models.len() == items@.len());
            }
            let mut texts: Vec<String> = Vec::new();
            let mut i: usize = 0;
            while i < items.len()
                invariant
                    i <= items.len(),
                    texts@.len() == i,
                    yaml_model(*value) == DocumentModel::List(models),
                    models.len() == items@.len(),
                    forall|j: int| 0 <= j < items@.len() ==> models[j] == yaml_model(items@[j]),
                    forall|j: int|
                        0 <= j < i ==> (#[trigger] models[j]) is Text && models[j]->Text_0
                            == texts@[j]@,
                decreases items.len() - i,
            {
                match yaml_peel(&items[i]) {
                    YamlLayer::Text(text) => texts.push(text),
                    _ => {
                        proof {
                            assert(!(models[i as int] is Text));
                        }
                        return None;
                    },
                }
                i += 1;
            }
            proof {
                assert(views(texts@) =~= all_texts(models)->0);
            }
            Some(texts)
        },
        _ => None,
    }
}

/// Whether a YAML value is the text `name`.
fn yaml_is_text(value: &serde_yaml::Value, name: &str) -> (same: bool)
    ensures
        same == (yaml_model(*value) == DocumentModel::Text(name@)),
{
    match yaml_peel(value) {
        YamlLayer::Text(text) => same_text(text.as_str(), name),
        _ => false,
    }
}

/// The texts that a YAML value holds under `name`.
fn yaml_field_texts(value: &serde_yaml::Value, name: &str) -> (texts: Option<Vec<String>>)
    ensures
        match texts {
            Some(list) => field_texts(yaml_model(*value), name@) == Some(views(list@)),
            None => field_texts(yaml_model(*value), name@) is None,
        },
{
    match yaml_peel(value) {
        YamlLayer::Mapping(fields) => {
            let ghost entries = yaml_model(*value)->Table_0;
            proof {
                assert(entries.len() == fields@.len());
                assert(entries.skip(0) =~= entries);
            }
            let mut i: usize = 0;
            while i < fields.len()
                invariant
                    i <= fields.len(),
                    yaml_model(*value) == DocumentModel::Table(entries),
                    entries.len() == fields@.len(),
                    forall|j: int|
                        0 <= j < fields@.len() ==> entries[j] == (
                            yaml_model(fields@[j].0),
                            yaml_model(fields@[j].1),
                        ),
                    entry_under(entries, name@) == entry_under(entries.skip(i as int), name@),
                decreases fields.len() - i,
            {
                proof {
                    assert(entries.skip(i as int).first() == entries[i as int]);
                    assert(entries.skip(i as int).drop_first() =~= entries.skip(i + 1));
                }
                if yaml_is_text(&fields[i].0, name) {
                    return yaml_texts(&fields[i].1);
                }
                i += 1;
            }
            None
        },
        _ => None,
    }
}

/// The two lists of texts that a JSON text holds under `first` and under
/// `second`. What the text holds elsewhere does not count.
pub fn json_text_lists(text: &str, first: &str, second: &str) -> (lists: Option<
    (Vec<String>, Vec<String>),
>)
    ensures
        match lists {
            Some(pair) => texts_under(json_parsed(text@), first@) == Some(views(pair.0@))
                && texts_under(json_parsed(text@), second@) == Some(views(pair.1@)),
            None => texts_under(json_parsed(text@), first@) is None || texts_under(
                json_parsed(text@),
                second@,
            ) is None,
        },
{
    let value = match json_read(text) {
        Some(value) => value,
        None => {
            return None;
        },
    };
    let one = match json_field_texts(&value, first) {
        Some(texts) => texts,
        None => {
            return None;
        },
    };
    match json_field_texts(&value, second) {
        Some(other) => Some((one, other)),
        None => None,
    }
}

/// The two lists of texts that a YAML text holds under `first` and under
/// `second`. What the text holds elsewhere does not count.
pub fn yaml_text_lists(text: &str, first: &str, second: &str) -> (lists: Option<
    (Vec<String>, Vec<String>),
>)
    ensures
        match lists {
            Some(pair) => texts_under(yaml_parsed(text@), first@) == Some(views(pair.0@))
                && texts_under(yaml_parsed(text@), second@) == Some(views(pair.1@)),
            None => texts_under(yaml_parsed(text@), first@) is None || texts_under(
                yaml_parsed(text@),
                second@,
            ) is None,
        },
{
    let value = match yaml_read(text) {
        Some(value) => value,
        None => {
            return None;
        },
    };
    let one = match yaml_field_texts(&value, first) {
        Some(texts) => texts,
        None => {
            return None;
        },
    };
    match yaml_field_texts(&value, second) {
        Some(other) => Some((one, other)),
        None => None,
    }
}

/// Reads a JSON text into a value of the library.
pub fn json_document(text: &str) -> (read: Option<ScriptValue>)
    ensures
        match read {
            Some(v) => json_text_value(text@) == Some(v@),
            None => json_text_value(text@) is None,
        },
{
    match json_read(text) {
        Some(value) => json_value(&value, DOCUMENT_DEPTH),
        None => None,
    }
}

/// Reads a YAML text into a value of the library.
pub fn yaml_document(text: &str) -> (read: Option<ScriptValue>)
    ensures
        match read {
            Some(v) => yaml_text_value(text@) == Some(v@),
            None => yaml_text_value(text@) is None,
        },
{
    match yaml_read(text) {
        Some(value) => yaml_value(&value, DOCUMENT_DEPTH),
        None => None,
    }
}

/// Whether `c` stands nowhere in `s` from `from` on.
pub open spec fn absent_from(s: Seq<char>, c: char, from: int) -> bool {
    forall|i: int| from <= i < s.len() ==> s[i] != c
}

/// The part of `s` from its first `{` to its last `}`, both included; `None`
/// where no `}` follows a `{`.
pub open spec fn braced(s: Seq<char>) -> Option<Seq<char>> {
    if exists|i: int, j: int| 0 <= i < j < s.len() && s[i] == '{' && s[j] == '}' {
        let (i, j) = choose|i: int, j: int|
            0 <= i < j < s.len() && s[i] == '{' && s[j] == '}' && (forall|k: int|
                0 <= k < i ==> s[k] != '{') && absent_from(s, '}', j + 1);
        Some(s.subrange(i, j + 1))
    } else {
        None
    }
}

proof fn lemma_braced(s: Seq<char>, i: int, j: int)
    requires
        0 <= i < j < s.len(),
        s[i] == '{',
        s[j] == '}',
        forall|k: int| 0 <= k < i ==> s[k] != '{',
        absent_from(s, '}', j + 1),
    ensures
        braced(s) == Some(s.subrange(i, j + 1)),
{
    let (a, b) = choose|a: int, b: int|
        0 <= a < b < s.len() && s[a] == '{' && s[b] == '}' && (forall|k: int|
            0 <= k < a ==> s[k] != '{') && absent_from(s, '}', b + 1);
}

/// Cuts a JSON object out of a reply: the text from the first `{` to the
/// last `}`.
pub fn json_body(reply: &str) -> (body: Option<String>)
    ensures
        match body {
            Some(text) => braced(reply@) == Some(text@),
            None => braced(reply@) is None,
        },
{
    let chars = to_chars(reply);
    let mut first: usize = 0;
    while first < chars.len() && chars[first] != '{'
        invariant
            first <= chars.len(),
            forall|k: int| 0 <= k < first ==> chars@[k] != '{',
        decreases chars.len() - first,
    {
        first += 1;
    }
    if first >= chars.len() {
        return None;
    }
    let mut last: usize = chars.len() - 1;
    while last > first && chars[last] != '}'
        invariant
            first <= last < chars.len(),
            absent_from(chars@, '}', last as int + 1),
        decreases last,
    {
        last -= 1;
    }
    if last == first {
        proof {
            assert forall|i: int, j: int|
                !(0 <= i < j < chars@.len() && chars@[i] == '{' && chars@[j] == '}') by {
                if 0 <= i < j < chars@.len() && chars@[i] == '{' {
                }
            }
        }
        return None;
    }
    proof {
        lemma_braced(chars@, first as int, last as int);
    }
    Some(from_chars(&chars, first, last + 1))
}

/// The first place at or after `from` where `pattern` stands in `s`, or the
/// length of `s` where it stands nowhere from there on.
pub open spec fn next_occurrence(s: Seq<char>, pattern: Seq<char>, from: int) -> int
    decreases s.len() - from,
{
    if from < 0 || from + pattern.len() > s.len() {
        s.len() as int
    } else if pattern.len() == 0 || occurs_at(s, pattern, from) {
        from
    } else {
        next_occurrence(s, pattern, from + 1)
    }
}

/// The text between the first code fence of `s` and the next one: it starts
/// after the line that opens the fence and ends before the fence that closes
/// it, or at the end of `s`. A text without a fence is its own body.
pub open spec fn fenced(s: Seq<char>) -> Seq<char> {
    let open = next_occurrence(s, "```"@, 0);
    if open >= s.len() {
        s
    } else {
        let line_end = next_occurrence(s, "\n"@, open);
        if line_end >= s.len() {
            Seq::empty()
        } else {
            let close = next_occurrence(s, "```"@, line_end + 1);
            s.subrange(line_end + 1, close)
        }
    }
}

fn find_from(chars: &Vec<char>, pattern: &Vec<char>, from: usize) -> (at: usize)
    requires
        from <= chars.len(),
    ensures
        at == next_occurrence(chars@, pattern@, from as int),
        from <= at <= chars.len(),
{
    let mut at: usize = from;
    while chars.len() - at >= pattern.len()
        invariant
            from <= at <= chars.len(),
            next_occurrence(chars@, pattern@, from as int) == next_occurrence(
                chars@,
                pattern@,
                at as int,
            ),
        decreases chars.len() - at,
    {
        if pattern.len() == 0 || matches_at(chars, pattern, at) {
            return at;
        }
        at += 1;
    }
    chars.len()
}

/// Cuts the body of the first code fence out of a reply.
pub fn fenced_body(reply: &str) -> (body: String)
    ensures
        body@ == fenced(reply@),
{
    let chars = to_chars(reply);
    let fence = to_chars("```");
    let line_break = to_chars("\n");
    let open = find_from(&chars, &fence, 0);
    if open >= chars.len() {
        return from_chars(&chars, 0, chars.len());
    }
    let line_end = find_from(&chars, &line_break, open);
    if line_end >= chars.len() {
        return String::new();
    }
    let close = find_from(&chars, &fence, line_end + 1);
    from_chars(&chars, line_end + 1, close)
}

} // verus!
