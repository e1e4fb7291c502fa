//! The values that commands take and return, what they look like inside the
//! scripting interpreter, and how they are written in a transcript.

use crate::text::{join, join_texts, same_text, signed_decimal, signed_decimal_text, views};
use vstd::prelude::*;

verus! {

/// A value exchanged between native commands and scripts.
#[derive(Debug, PartialEq, Eq)]
pub enum ScriptValue {
    Nil,
    Bool(bool),
    Number(i64),
    Text(String),
    List(Vec<ScriptValue>),
    /// Named fields, in the order in which they were given.
    Record(Vec<(String, ScriptValue)>),
    /// A failure, carried as its message.
    Error(String),
}

/// What a [`ScriptValue`] is, as a mathematical value.
pub enum ValueModel {
    Nil,
    Bool(bool),
    Number(int),
    Text(Seq<char>),
    List(Seq<ValueModel>),
    Record(Seq<(Seq<char>, ValueModel)>),
    Error(Seq<char>),
}

/// The key of one entry of an interpreter table.
#[derive(Debug, PartialEq, Eq)]
pub enum TableKey {
    /// A positive integer key: the entry's place when the table is read as a
    /// sequence, counted from one.
    Position(u64),
    /// A string key.
    Name(String),
    /// Any other key.
    Other,
}

/// A value as the scripting interpreter holds it.
///
/// The interpreter has one container, the table. A table that comes out of
/// the interpreter lists the items of a sequence in the order of their
/// places, and the entries of any other table in the order in which the
/// interpreter walks them, which is the interpreter's own. Inside the
/// interpreter a table keeps one entry for each key and none whose value is
/// `Nil`.
#[derive(Debug, PartialEq, Eq)]
pub enum InterpreterValue {
    Nil,
    Boolean(bool),
    Integer(i64),
    Text(String),
    Table(Vec<(TableKey, InterpreterValue)>),
    /// A kind of value that commands cannot receive: a function, a coroutine,
    /// foreign data, a number that is no integer.
    Opaque,
}

/// What a [`TableKey`] is, as a mathematical value.
pub enum KeyModel {
    Position(int),
    Name(Seq<char>),
    Other,
}

/// What an [`InterpreterValue`] is, as a mathematical value.
pub enum InterpreterModel {
    Nil,
    Boolean(bool),
    Integer(int),
    Text(Seq<char>),
    Table(Seq<(KeyModel, InterpreterModel)>),
    Opaque,
}

/// What a value is, as a mathematical value.
pub open spec fn value_model(value: ScriptValue) -> ValueModel
    decreases value,
{
    match value {
        ScriptValue::Nil => ValueModel::Nil,
        ScriptValue::Bool(b) => ValueModel::Bool(b),
        ScriptValue::Number(n) => ValueModel::Number(n as int),
        ScriptValue::Text(s) => ValueModel::Text(s@),
        ScriptValue::List(items) => ValueModel::List(
            Seq::new(
                items@.len(),
                |i: int|
                    if 0 <= i < items@.len() {
                        value_model(items@[i])
                    } else {
                        ValueModel::Nil
                    },
            ),
        ),
        ScriptValue::Record(fields) => ValueModel::Record(
            Seq::new(
                fields@.len(),
                |i: int|
                    if 0 <= i < fields@.len() {
                        (fields@[i].0@, value_model(fields@[i].1))
                    } else {
                        (Seq::empty(), ValueModel::Nil)
                    },
            ),
        ),
        ScriptValue::Error(message) => ValueModel::Error(message@),
    }
}

impl View for ScriptValue {
    type V = ValueModel;

    open spec fn view(&self) -> ValueModel {
        value_model(*self)
    }
}

impl View for TableKey {
    type V = KeyModel;

    open spec fn view(&self) -> KeyModel {
        match self {
            TableKey::Position(p) => KeyModel::Position(*p as int),
            TableKey::Name(name) => KeyModel::Name(name@),
            TableKey::Other => KeyModel::Other,
        }
    }
}

/// What an interpreter value is, as a mathematical value.
pub open spec fn interpreter_model(native: InterpreterValue) -> InterpreterModel
    decreases native,
{
    match native {
        InterpreterValue::Nil => InterpreterModel::Nil,
        InterpreterValue::Boolean(b) => InterpreterModel::Boolean(b),
        InterpreterValue::Integer(n) => InterpreterModel::Integer(n as int),
        InterpreterValue::Text(s) => InterpreterModel::Text(s@),
        InterpreterValue::Table(entries) => InterpreterModel::Table(
            Seq::new(
                entries@.len(),
                |i: int|
                    if 0 <= i < entries@.len() {
                        (entries@[i].0@, interpreter_model(entries@[i].1))
                    } else {
                        (KeyModel::Other, InterpreterModel::Nil)
                    },
            ),
        ),
        InterpreterValue::Opaque => InterpreterModel::Opaque,
    }
}

impl View for InterpreterValue {
    type V = InterpreterModel;

    open spec fn view(&self) -> InterpreterModel {
        interpreter_model(*self)
    }
}

/// The value of the first of `fields` that is named `name`.
pub open spec fn field_of(fields: Seq<(Seq<char>, ValueModel)>, name: Seq<char>) -> Option<
    ValueModel,
>
    decreases fields.len(),
{
    if fields.len() == 0 {
        None
    } else if fields.first().0 == name {
        Some(fields.first().1)
    } else {
        field_of(fields.drop_first(), name)
    }
}

/// The value of the field `name` of a record; `None` for a record without
/// such a field and for a value that is no record.
pub open spec fn field_named(v: ValueModel, name: Seq<char>) -> Option<ValueModel> {
    match v {
        ValueModel::Record(fields) => field_of(fields, name),
        _ => None,
    }
}

/// The views of a list of values, in order.
pub open spec fn value_views(values: Seq<ScriptValue>) -> Seq<ValueModel> {
    values.map_values(|v: ScriptValue| v@)
}

/// How one character stands inside a quoted text.
pub open spec fn escaped_char(c: char) -> Seq<char> {
    if c == '"' {
        seq!['\\', '"']
    } else if c == '\\' {
        seq!['\\', '\\']
    } else if c == '\n' {
        seq!['\\', 'n']
    } else if c == '\r' {
        seq!['\\', 'r']
    } else if c == '\t' {
        seq!['\\', 't']
    } else {
        seq![c]
    }
}

/// `s` with each character written as it stands inside a quoted text.
pub open spec fn escaped(s: Seq<char>) -> Seq<char>
    decreases s.len(),
{
    if s.len() == 0 {
        Seq::empty()
    } else {
        escaped(s.drop_last()) + escaped_char(s.last())
    }
}

/// `s` between double quotes, with quotes, backslashes, line breaks and tabs
/// inside it escaped by a backslash.
pub open spec fn quoted(s: Seq<char>) -> Seq<char> {
    seq!['"'] + escaped(s) + seq!['"']
}

/// The readable text of a value: `null`, `true`, a decimal numeral, a quoted
/// text, `[a, b]` for a list, `{"k": a}` for a record, `error("..")` for a
/// failure.
pub open spec fn rendered(v: ValueModel) -> Seq<char>
    decreases v,
{
    match v {
        ValueModel::Nil => "null"@,
        ValueModel::Bool(b) => if b {
            "true"@
        } else {
            "false"@
        },
        ValueModel::Number(n) => signed_decimal(n),
        ValueModel::Text(s) => quoted(s),
        ValueModel::List(items) => "["@ + join(rendered_items(items), ", "@) + "]"@,
        ValueModel::Record(fields) => "{"@ + join(rendered_fields(fields), ", "@) + "}"@,
        ValueModel::Error(message) => "error("@ + quoted(message) + ")"@,
    }
}

/// The readable text of each of `items`.
pub open spec fn rendered_items(items: Seq<ValueModel>) -> Seq<Seq<char>>
    decreases items,
{
    Seq::new(
        items.len(),
        |i: int|
            if 0 <= i < items.len() {
                rendered(items[i])
            } else {
                Seq::empty()
            },
    )
}

/// Each of `fields` written as its quoted name, a colon and its value's text.
pub open spec fn rendered_fields(fields: Seq<(Seq<char>, ValueModel)>) -> Seq<Seq<char>>
    decreases fields,
{
    Seq::new(
        fields.len(),
        |i: int|
            if 0 <= i < fields.len() {
                quoted(fields[i].0) + ": "@ + rendered(fields[i].1)
            } else {
                Seq::empty()
            },
    )
}

/// What a value becomes when it is handed to the interpreter.
///
/// A list becomes a table with the keys 1, 2, ..; a record a table with its
/// names as keys; a failure its message as a text.
pub open spec fn lowered(v: ValueModel) -> InterpreterModel
    decreases v,
{
    match v {
        ValueModel::Nil => InterpreterModel::Nil,
        ValueModel::Bool(b) => InterpreterModel::Boolean(b),
        ValueModel::Number(n) => InterpreterModel::Integer(n),
        ValueModel::Text(s) => InterpreterModel::Text(s),
        ValueModel::List(items) => InterpreterModel::Table(
            Seq::new(
                items.len(),
                |i: int|
                    if 0 <= i < items.len() {
                        (KeyModel::Position(i + 1), lowered(items[i]))
                    } else {
                        (KeyModel::Other, InterpreterModel::Nil)
                    },
            ),
        ),
        ValueModel::Record(fields) => InterpreterModel::Table(
            Seq::new(
                fields.len(),
                |i: int|
                    if 0 <= i < fields.len() {
                        (KeyModel::Name(fields[i].0), lowered(fields[i].1))
                    } else {
                        (KeyModel::Other, InterpreterModel::Nil)
                    },
            ),
        ),
        ValueModel::Error(message) => InterpreterModel::Text(message),
    }
}

/// Whether the keys of `entries` are 1, 2, .. in this order.
pub open spec fn is_sequence(entries: Seq<(KeyModel, InterpreterModel)>) -> bool {
    forall|i: int| 0 <= i < entries.len() ==> (#[trigger] entries[i]).0 == KeyModel::Position(i + 1)
}

/// Whether `entries` has an entry and all its keys are names.
pub open spec fn is_named(entries: Seq<(KeyModel, InterpreterModel)>) -> bool {
    &&& entries.len() > 0
    &&& forall|i: int| 0 <= i < entries.len() ==> (#[trigger] entries[i]).0 is Name
}

/// The value that an interpreter value stands for, if it stands for one.
///
/// A table whose keys are 1, 2, .. is a list (the empty table too); a table
/// with names for keys is a record; any other table, an opaque value, and a
/// table that holds either, stand for nothing.
pub open spec fn raised(x: InterpreterModel) -> Option<ValueModel>
    decreases x,
{
    match x {
        InterpreterModel::Nil => Some(ValueModel::Nil),
        InterpreterModel::Boolean(b) => Some(ValueModel::Bool(b)),
        InterpreterModel::Integer(n) => Some(ValueModel::Number(n)),
        InterpreterModel::Text(s) => Some(ValueModel::Text(s)),
        InterpreterModel::Table(entries) => {
            if !all_raised(entries) {
                None
            } else if is_sequence(entries) {
                Some(
                    ValueModel::List(
                        Seq::new(
                            entries.len(),
                            |i: int|
                                if 0 <= i < entries.len() {
                                    raised(entries[i].1)->0
                                } else {
                                    ValueModel::Nil
                                },
                        ),
                    ),
                )
            } else if is_named(entries) {
                Some(
                    ValueModel::Record(
                        Seq::new(
                            entries.len(),
                            |i: int|
                                if 0 <= i < entries.len() {
                                    (entries[i].0->Name_0, raised(entries[i].1)->0)
                                } else {
                                    (Seq::empty(), ValueModel::Nil)
                                },
                        ),
                    ),
                )
            } else {
                None
            }
        },
        InterpreterModel::Opaque => None,
    }
}

/// Whether every value held in `entries` stands for a value.
pub open spec fn all_raised(entries: Seq<(KeyModel, InterpreterModel)>) -> bool
    decreases entries,
{
    forall|i: int| 0 <= i < entries.len() ==> raised((#[trigger] entries[i]).1) is Some
}

/// The values that `natives` stand for, in order, without those that stand
/// for nothing.
pub open spec fn raised_all(natives: Seq<InterpreterModel>) -> Seq<ValueModel>
    decreases natives.len(),
{
    if natives.len() == 0 {
        Seq::empty()
    } else {
        match raised(natives.last()) {
            Some(v) => raised_all(natives.drop_last()).push(v),
            None => raised_all(natives.drop_last()),
        }
    }
}

/// Whether [`from_script`] undoes [`to_script`] on a value: the value holds no
/// failure and no record without fields, at any depth. (A failure comes back
/// as a text, a record without fields as a list without items.)
pub open spec fn converts_back(v: ValueModel) -> bool
    decreases v,
{
    match v {
        ValueModel::Nil => true,
        ValueModel::Bool(_) => true,
        ValueModel::Number(_) => true,
        ValueModel::Text(_) => true,
        ValueModel::List(items) => forall|i: int|
            0 <= i < items.len() ==> converts_back(#[trigger] items[i]),
        ValueModel::Record(fields) => {
            &&& fields.len() > 0
            &&& forall|i: int|
                0 <= i < fields.len() ==> converts_back((#[trigger] fields[i]).1)
        },
        ValueModel::Error(_) => false,
    }
}

/// On a value that holds no failure and no record without fields,
/// [`from_script`] undoes [`to_script`].
pub proof fn lemma_round_trip(v: ValueModel)
    requires
        converts_back(v),
    ensures
        raised(lowered(v)) == Some(v),
    decreases v,
{
    match v {
        ValueModel::List(items) => {
            let entries = lowered(v)->Table_0;
            assert forall|i: int| 0 <= i < entries.len() implies raised(
                (#[trigger] entries[i]).1,
            ) == Some(items[i]) by {
                lemma_round_trip(items[i]);
            }
            assert(all_raised(entries));
            let back = raised(InterpreterModel::Table(entries))->0->List_0;
            assert forall|i: int| 0 <= i < items.len() implies back[i] == items[i] by {}
            assert(back =~= items);
        },
        ValueModel::Record(fields) => {
            let entries = lowered(v)->Table_0;
            assert forall|i: int| 0 <= i < entries.len() implies raised(
                (#[trigger] entries[i]).1,
            ) == Some(fields[i].1) by {
                lemma_round_trip(fields[i].1);
            }
            assert(all_raised(entries));
            assert(entries[0].0 is Name);
            let back = raised(InterpreterModel::Table(entries))->0->Record_0;
            assert forall|i: int| 0 <= i < fields.len() implies back[i] == fields[i] by {}
            assert(back =~= fields);
        },
        _ => {},
    }
}

/// A failure reaches the interpreter as its message, and comes back as a text.
pub proof fn lemma_error_collapses(message: Seq<char>)
    ensures
        raised(lowered(ValueModel::Error(message))) == Some(ValueModel::Text(message)),
{
}

impl Clone for TableKey {
    fn clone(&self) -> (copy: TableKey)
        ensures
            copy@ == self@,
    {
        match self {
            TableKey::Position(p) => TableKey::Position(*p),
            TableKey::Name(name) => TableKey::Name(name.clone()),
            TableKey::Other => TableKey::Other,
        }
    }
}

impl Clone for ScriptValue {
    fn clone(&self) -> (copy: ScriptValue)
        ensures
            copy@ == self@,
        decreases self,
    {
        match self {
            ScriptValue::Nil => ScriptValue::Nil,
            ScriptValue::Bool(b) => ScriptValue::Bool(*b),
            ScriptValue::Number(n) => ScriptValue::Number(*n),
            ScriptValue::Text(s) => ScriptValue::Text(s.clone()),
            ScriptValue::List(items) => {
                let mut copies: Vec<ScriptValue> = Vec::new();
                let mut i: usize = 0;
                while i < items.len()
                    invariant
                        self->List_0 == *items,
                        self is List,
                        i <= items.len(),
                        copies.len() == i,
                        forall|j: int| 0 <= j < i ==> copies@[j]@ == items@[j]@,
                    decreases items.len() - i,
                {
                    proof {
                        assert(decreases_to!(*self => self->List_0));
                        assert(decreases_to!(items => items[i as int]));
                    }
                    let copy = items[i].clone();
                    copies.push(copy);
                    i += 1;
                }
                let copy = ScriptValue::List(copies);
                proof {
                    assert(copy@->List_0 =~= self@->List_0);
                }
                copy
            },
            ScriptValue::Record(fields) => {
                let mut copies: Vec<(String, ScriptValue)> = Vec::new();
                let mut i: usize = 0;
                while i < fields.len()
                    invariant
                        self->Record_0 == *fields,
                        self is Record,
                        i <= fields.len(),
                        copies.len() == i,
                        forall|j: int|
                            0 <= j < i ==> copies@[j].0@ == fields@[j].0@ && copies@[j].1@
                                == fields@[j].1@,
                    decreases fields.len() - i,
                {
                    proof {
                        assert(decreases_to!(*self => self->Record_0));
                        assert(decreases_to!(fields => fields[i as int]));
                        assert(decreases_to!(fields[i as int] => fields[i as int].1));
                    }
                    let copy = fields[i].1.clone();
                    copies.push((fields[i].0.clone(), copy));
                    i += 1;
                }
                let copy = ScriptValue::Record(copies);
                proof {
                    assert(copy@->Record_0 =~= self@->Record_0);
                }
                copy
            },
            ScriptValue::Error(message) => ScriptValue::Error(message.clone()),
        }
    }
}

impl Clone for InterpreterValue {
    fn clone(&self) -> (copy: InterpreterValue)
        ensures
            copy@ == self@,
        decreases self,
    {
        match self {
            InterpreterValue::Nil => InterpreterValue::Nil,
            InterpreterValue::Boolean(b) => InterpreterValue::Boolean(*b),
            InterpreterValue::Integer(n) => InterpreterValue::Integer(*n),
            InterpreterValue::Text(s) => InterpreterValue::Text(s.clone()),
            InterpreterValue::Table(entries) => {
                let mut copies: Vec<(TableKey, InterpreterValue)> = Vec::new();
                let mut i: usize = 0;
                while i < entries.len()
                    invariant
                        self->Table_0 == *entries,
                        self is Table,
                        i <= entries.len(),
                        copies.len() == i,
                        forall|j: int|
                            0 <= j < i ==> copies@[j].0@ == entries@[j].0@ && copies@[j].1@
                                == entries@[j].1@,
                    decreases entries.len() - i,
                {
                    proof {
                        assert(decreases_to!(*self => self->Table_0));
                        assert(decreases_to!(entries => entries[i as int]));
                        assert(decreases_to!(entries[i as int] => entries[i as int].1));
                    }
                    let copy = entries[i].1.clone();
                    copies.push((entries[i].0.clone(), copy));
                    i += 1;
                }
                let copy = InterpreterValue::Table(copies);
                proof {
                    assert(copy@->Table_0 =~= self@->Table_0);
                }
                copy
            },
            InterpreterValue::Opaque => InterpreterValue::Opaque,
        }
    }
}

impl ScriptValue {
    /// The field `name` of a record: the first one, where several have the
    /// name. `None` for a record without such a field and for a value that
    /// is no record.
    pub fn field(&self, name: &str) -> (found: Option<&ScriptValue>)
        ensures
            match found {
                Some(value) => field_named(self@, name@) == Some(value@),
                None => field_named(self@, name@) is None,
            },
    {
        match self {
            ScriptValue::Record(fields) => {
                let ghost model = self@->Record_0;
                let mut i: usize = 0;
                proof {
                    assert(model.skip(0) =~= model);
                }
                while i < fields.len()
                    invariant
                        i <= fields.len(),
                        self->Record_0 == *fields,
                        self is Record,
                        model == self@->Record_0,
                        model.len() == fields@.len(),
                        field_of(model, name@) == field_of(model.skip(i as int), name@),
                    decreases fields.len() - i,
                {
                    proof {
                        let rest = model.skip(i as int);
                        assert(rest.first() == (fields@[i as int].0@, fields@[i as int].1@));
                        assert(rest.drop_first() =~= model.skip(i + 1));
                    }
                    if same_text(fields[i].0.as_str(), name) {
                        return Some(&fields[i].1);
                    }
                    i += 1;
                }
                None
            },
            _ => None,
        }
    }
}

/// Copies a list of values.
pub fn clone_values(values: &Vec<ScriptValue>) -> (copies: Vec<ScriptValue>)
    ensures
        value_views(copies@) == value_views(values@),
{
    let mut copies: Vec<ScriptValue> = Vec::new();
    let mut i: usize = 0;
    while i < values.len()
        invariant
            i <= values.len(),
            copies.len() == i,
            forall|j: int| 0 <= j < i ==> copies@[j]@ == values@[j]@,
        decreases values.len() - i,
    {
        copies.push(values[i].clone());
        i += 1;
    }
    copies
}

/// Writes `s` between double quotes, escaping what must be escaped.
pub fn quote(s: &str) -> (q: String)
    ensures
        q@ == quoted(s@),
{
    let mut q = String::new();
    q.push('"');
    for c in it: s.chars()
        invariant
            it.seq() == s@,
            q@ == seq!['"'] + escaped(it.seq().take(it.index() as int)),
    {
        let ghost before = it.seq().take(it.index() as int);
        let ghost after = it.seq().take(it.index() + 1);
        proof {
            assert(after.drop_last() =~= before);
            assert(seq!['"'] + (escaped(before) + escaped_char(c)) =~= (seq!['"'] + escaped(
                before,
            )) + escaped_char(c));
        }
        if c == '"' {
            q.push('\\');
            q.push('"');
        } else if c == '\\' {
            q.push('\\');
            q.push('\\');
        } else if c == '\n' {
            q.push('\\');
            q.push('n');
        } else if c == '\r' {
            q.push('\\');
            q.push('r');
        } else if c == '\t' {
            q.push('\\');
            q.push('t');
        } else {
            q.push(c);
        }
    }
    proof {
        assert(s@.take(s@.len() as int) =~= s@);
    }
    q.push('"');
    q
}

/// The readable text of `value`, as it stands in a transcript.
pub fn render(value: &ScriptValue) -> (text: String)
    ensures
        text@ == rendered(value@),
    decreases value,
{
    match value {
        ScriptValue::Nil => String::from_str("null"),
        ScriptValue::Bool(b) => if *b {
            String::from_str("true")
        } else {
            String::from_str("false")
        },
        ScriptValue::Number(n) => signed_decimal_text(*n),
        ScriptValue::Text(s) => quote(s.as_str()),
        ScriptValue::List(items) => {
            let mut parts: Vec<String> = Vec::new();
            let mut i: usize = 0;
            while i < items.len()
                invariant
                    value->List_0 == *items,
                    value is List,
                    i <= items.len(),
                    parts.len() == i,
                    forall|j: int| 0 <= j < i ==> parts@[j]@ == rendered(items@[j]@),
                decreases items.len() - i,
            {
                proof {
                    assert(decreases_to!(*value => value->List_0));
                    assert(decreases_to!(items => items[i as int]));
                }
                let part = render(&items[i]);
                parts.push(part);
                i += 1;
            }
            proof {
                assert(views(parts@) =~= rendered_items(value@->List_0));
            }
            let mut text = String::from_str("[");
            text.append(join_texts(&parts, ", ").as_str());
            text.append("]");
            text
        },
        ScriptValue::Record(fields) => {
            let mut parts: Vec<String> = Vec::new();
            let mut i: usize = 0;
            while i < fields.len()
                invariant
                    value->Record_0 == *fields,
                    value is Record,
                    i <= fields.len(),
                    parts.len() == i,
                    forall|j: int|
                        0 <= j < i ==> parts@[j]@ == quoted(fields@[j].0@) + ": "@ + rendered(
                            fields@[j].1@,
                        ),
                decreases fields.len() - i,
            {
                proof {
                    assert(decreases_to!(*value => value->Record_0));
                    assert(decreases_to!(fields => fields[i as int]));
                    assert(decreases_to!(fields[i as int] => fields[i as int].1));
                }
                let mut part = quote(fields[i].0.as_str());
                part.append(": ");
                part.append(render(&fields[i].1).as_str());
                parts.push(part);
                i += 1;
            }
            proof {
                let model = value@->Record_0;
                assert forall|k: int| 0 <= k < model.len() implies views(parts@)[k]
                    == rendered_fields(model)[k] by {}
                assert(views(parts@) =~= rendered_fields(model));
            }
            let mut text = String::from_str("{");
            text.append(join_texts(&parts, ", ").as_str());
            text.append("}");
            text
        },
        ScriptValue::Error(message) => {
            let mut text = String::from_str("error(");
            text.append(quote(message.as_str()).as_str());
            text.append(")");
            text
        },
    }
}

/// Hands a value to the interpreter.
pub fn to_script(value: &ScriptValue) -> (native: InterpreterValue)
    ensures
        native@ == lowered(value@),
    decreases value,
{
    match value {
        ScriptValue::Nil => InterpreterValue::Nil,
        ScriptValue::Bool(b) => InterpreterValue::Boolean(*b),
        ScriptValue::Number(n) => InterpreterValue::Integer(*n),
        ScriptValue::Text(s) => InterpreterValue::Text(s.clone()),
        ScriptValue::List(items) => {
            let mut entries: Vec<(TableKey, InterpreterValue)> = Vec::new();
            let mut i: usize = 0;
            while i < items.len()
                invariant
                    value->List_0 == *items,
                    value is List,
                    i <= items.len(),
                    entries.len() == i,
                    forall|j: int|
                        0 <= j < i ==> entries@[j].0@ == KeyModel::Position(j + 1) && entries@[j].1@
                            == lowered(items@[j]@),
                decreases items.len() - i,
            {
                proof {
                    assert(decreases_to!(*value => value->List_0));
                    assert(decreases_to!(items => items[i as int]));
                }
                let native = to_script(&items[i]);
                let place: u64 = (i + 1) as u64;
                entries.push((TableKey::Position(place), native));
                i += 1;
            }
            let table = InterpreterValue::Table(entries);
            proof {
                assert(table@->Table_0 =~= lowered(value@)->Table_0);
            }
            table
        },
        ScriptValue::Record(fields) => {
            let mut entries: Vec<(TableKey, InterpreterValue)> = Vec::new();
            let mut i: usize = 0;
            while i < fields.len()
                invariant
                    value->Record_0 == *fields,
                    value is Record,
                    i <= fields.len(),
                    entries.len() == i,
                    forall|j: int|
                        0 <= j < i ==> entries@[j].0@ == KeyModel::Name(fields@[j].0@)
                            && entries@[j].1@ == lowered(fields@[j].1@),
                decreases fields.len() - i,
            {
                proof {
                    assert(decreases_to!(*value => value->Record_0));
                    assert(decreases_to!(fields => fields[i as int]));
                    assert(decreases_to!(fields[i as int] => fields[i as int].1));
                }
                let native = to_script(&fields[i].1);
                entries.push((TableKey::Name(fields[i].0.clone()), native));
                i += 1;
            }
            let table = InterpreterValue::Table(entries);
            proof {
                let model = value@->Record_0;
                assert forall|k: int| 0 <= k < model.len() implies table@->Table_0[k] == lowered(
                    value@,
                )->Table_0[k] by {}
                assert(table@->Table_0 =~= lowered(value@)->Table_0);
            }
            table
        },
        ScriptValue::Error(message) => InterpreterValue::Text(message.clone()),
    }
}

fn keys_count_up(entries: &Vec<(TableKey, InterpreterValue)>) -> (yes: bool)
    ensures
        yes == is_sequence(InterpreterValue::Table(*entries)@->Table_0),
{
    let ghost model = InterpreterValue::Table(*entries)@->Table_0;
    let mut i: usize = 0;
    while i < entries.len()
        invariant
            model == InterpreterValue::Table(*entries)@->Table_0,
            i <= entries.len(),
            forall|j: int| 0 <= j < i ==> (#[trigger] model[j]).0 == KeyModel::Position(j + 1),
        decreases entries.len() - i,
    {
        let counts = match &entries[i].0 {
            TableKey::Position(p) => *p == (i + 1) as u64,
            _ => false,
        };
        if !counts {
            proof {
                assert(model[i as int].0 == entries@[i as int].0@);
            }
            return false;
        }
        i += 1;
    }
    true
}

fn keys_are_names(entries: &Vec<(TableKey, InterpreterValue)>) -> (yes: bool)
    ensures
        yes == is_named(InterpreterValue::Table(*entries)@->Table_0),
{
    let ghost model = InterpreterValue::Table(*entries)@->Table_0;
    if entries.len() == 0 {
        return false;
    }
    let mut i: usize = 0;
    while i < entries.len()
        invariant
            model == InterpreterValue::Table(*entries)@->Table_0,
            i <= entries.len(),
            forall|j: int| 0 <= j < i ==> (#[trigger] model[j]).0 is Name,
        decreases entries.len() - i,
    {
        let named = match &entries[i].0 {
            TableKey::Name(_) => true,
            _ => false,
        };
        proof {
            assert(model[i as int].0 == entries@[i as int].0@);
        }
        if !named {
            return false;
        }
        i += 1;
    }
    true
}

/// Takes a value back from the interpreter, or `None` where the interpreter
/// value stands for no value that a command can receive.
pub fn from_script(native: &InterpreterValue) -> (value: Option<ScriptValue>)
    ensures
        match value {
            Some(v) => raised(native@) == Some(v@),
            None => raised(native@) is None,
        },
    decreases native,
{
    match native {
        InterpreterValue::Nil => Some(ScriptValue::Nil),
        InterpreterValue::Boolean(b) => Some(ScriptValue::Bool(*b)),
        InterpreterValue::Integer(n) => Some(ScriptValue::Number(*n)),
        InterpreterValue::Text(s) => Some(ScriptValue::Text(s.clone())),
        InterpreterValue::Table(entries) => {
            let ghost model = native@->Table_0;
            let sequence = keys_count_up(entries);
            let named = keys_are_names(entries);
            let mut items: Vec<ScriptValue> = Vec::new();
            let mut fields: Vec<(String, ScriptValue)> = Vec::new();
            let mut i: usize = 0;
            while i < entries.len()
                invariant
                    native->Table_0 == *entries,
                    native is Table,
                    model == native@->Table_0,
                    named == is_named(model),
                    sequence == is_sequence(model),
                    i <= entries.len(),
                    sequence ==> items.len() == i,
                    !sequence && named ==> fields.len() == i,
                    forall|j: int| 0 <= j < i ==> raised((#[trigger] model[j]).1) is Some,
                    sequence ==> forall|j: int|
                        0 <= j < i ==> Some(items@[j]@) == raised(model[j].1),
                    !sequence && named ==> forall|j: int|
                        0 <= j < i ==> Some(fields@[j].1@) == raised(model[j].1) && fields@[j].0@
                            == model[j].0->Name_0,
                decreases entries.len() - i,
            {
                proof {
                    assert(decreases_to!(*native => native->Table_0));
                    assert(decreases_to!(entries => entries[i as int]));
                    assert(decreases_to!(entries[i as int] => entries[i as int].1));
                    assert(model[i as int].1 == entries@[i as int].1@);
                }
                match from_script(&entries[i].1) {
                    None => {
                        proof {
                            assert(!all_raised(model));
                        }
                        return None;
                    },
                    Some(v) => {
                        if sequence {
                            items.push(v);
                        } else if named {
                            match &entries[i].0 {
                                TableKey::Name(name) => {
                                    fields.push((name.clone(), v));
                                },
                                _ => {},
                            }
                        }
                    },
                }
                i += 1;
            }
            proof {
                assert(all_raised(model));
            }
            if sequence {
                let list = ScriptValue::List(items);
                proof {
                    assert(list@->List_0 =~= raised(native@)->0->List_0);
                }
                Some(list)
            } else if named {
                let record = ScriptValue::Record(fields);
                proof {
                    assert(record@->Record_0 =~= raised(native@)->0->Record_0);
                }
                Some(record)
            } else {
                None
            }
        },
        InterpreterValue::Opaque => None,
    }
}

/// Takes the arguments of a call back from the interpreter, leaving out those
/// that stand for no value.
pub fn gather_arguments(natives: &Vec<InterpreterValue>) -> (values: Vec<ScriptValue>)
    ensures
        value_views(values@) == raised_all(natives@.map_values(|x: InterpreterValue| x@)),
{
    let ghost models = natives@.map_values(|x: InterpreterValue| x@);
    let mut values: Vec<ScriptValue> = Vec::new();
    let mut i: usize = 0;
    while i < natives.len()
        invariant
            models == natives@.map_values(|x: InterpreterValue| x@),
            i <= natives.len(),
            value_views(values@) == raised_all(models.take(i as int)),
        decreases natives.len() - i,
    {
        proof {
            assert(models.take(i + 1).drop_last() =~= models.take(i as int));
        }
        match from_script(&natives[i]) {
            Some(v) => {
                values.push(v);
            },
            None => {},
        }
        i += 1;
    }
    proof {
        assert(models.take(natives.len() as int) =~= models);
    }
    values
}

} // verus!
