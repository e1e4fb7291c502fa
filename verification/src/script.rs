//! The bridge to the Lua interpreter: how values cross it, and how one script
//! is run with the registered commands at its disposal.

use crate::agent::ProgramInfo;
use crate::command::{
    active, contains_text, dispatched, Command, CommandContext, CommandImpl, CommandModel,
    Registry,
};
use crate::error::{error_text, AgentError, ErrorModel};
use crate::text::{join, join_texts, views};
use crate::value::{
    gather_arguments, lowered, quote, quoted, raised_all, to_script, InterpreterModel,
    InterpreterValue, KeyModel, ScriptValue, TableKey, ValueModel,
};
use mlua::{Lua, Table, TablePairs, Value, Variadic};
use vstd::prelude::*;

verus! {

/// `mlua::Lua`, an interpreter. Nothing is known of what it holds.
#[verifier::external_type_specification]
#[verifier::external_body]
pub struct ExLua(mlua::Lua);

/// `mlua::Error`, a failure of the interpreter or of a script.
#[verifier::external_type_specification]
#[verifier::external_body]
pub struct ExLuaError(mlua::Error);

/// `mlua::Value`, a value inside an interpreter.
#[verifier::external_type_specification]
#[verifier::external_body]
pub struct ExLuaValue<'lua>(mlua::Value<'lua>);

/// `mlua::Table`, a handle to a table inside an interpreter.
#[verifier::external_type_specification]
#[verifier::external_body]
pub struct ExLuaTable<'lua>(mlua::Table<'lua>);

/// `mlua::TablePairs`, a walk over the entries of a table.
#[verifier::external_type_specification]
#[verifier::external_body]
#[verifier::reject_recursive_types(K)]
#[verifier::reject_recursive_types(V)]
pub struct ExLuaTablePairs<'lua, K, V>(mlua::TablePairs<'lua, K, V>);

/// How deep tables may nest inside a value that crosses the bridge. A table
/// can hold itself; past this depth a table counts as opaque.
pub const MAX_DEPTH: usize = 64;

/// One layer of a Lua value: what kind it is, and what it holds.
enum Peeled<'lua> {
    Nil,
    Boolean(bool),
    Integer(i64),
    /// A number that is not stored as an integer.
    Fraction,
    Text(String),
    Table(Table<'lua>),
    Other,
}

/// One layer of a value that is to become a Lua value.
enum Layer<'lua> {
    Nil,
    Boolean(bool),
    Integer(i64),
    Text(String),
    Table(Table<'lua>),
}

/// Tells the variants of `mlua::Value` apart. A string that is not UTF-8, a
/// function, a coroutine and foreign data are `Other`.
#[verifier::external_body]
fn peel<'lua>(value: &Value<'lua>) -> Peeled<'lua> {
    match value {
        Value::Nil => Peeled::Nil,
        Value::Boolean(b) => Peeled::Boolean(*b),
        Value::Integer(n) => Peeled::Integer(*n),
        Value::Number(_) => Peeled::Fraction,
        Value::String(s) => match s.to_str() {
            Ok(text) => Peeled::Text(text.to_string()),
            Err(_) => Peeled::Other,
        },
        Value::Table(table) => Peeled::Table(table.clone()),
        _ => Peeled::Other,
    }
}

/// `Lua::coerce_integer`: the integer that a number stands for exactly, if
/// there is one.
#[verifier::external_body]
fn whole_number<'lua>(lua: &'lua Lua, value: &Value<'lua>) -> Option<i64> {
    lua.coerce_integer(value.clone()).ok().flatten()
}

/// `Table::pairs`: a walk over the entries of a table in the order in
/// which the interpreter walks them, read without metamethods. The walk
/// holds the table and the key it has come to, and no entry.
#[verifier::external_body]
fn start_walk<'lua>(table: &Table<'lua>) -> TablePairs<'lua, Value<'lua>, Value<'lua>> {
    table.clone().pairs()
}

/// `TablePairs::next`: the entry that the walk comes to next, or `None`
/// where the table has no further entry or the interpreter cannot go on.
#[verifier::external_body]
fn next_pair<'lua>(walk: &mut TablePairs<'lua, Value<'lua>, Value<'lua>>) -> Option<
    (Value<'lua>, Value<'lua>),
> {
    match walk.next() {
        Some(Ok(pair)) => Some(pair),
        _ => None,
    }
}

/// `Lua::create_table`: a new table without entries.
#[verifier::external_body]
fn new_table<'lua>(lua: &'lua Lua) -> Result<Table<'lua>, mlua::Error> {
    lua.create_table()
}

/// `Table::raw_set`: puts `value` under `key` into the table, without
/// metamethods.
#[verifier::external_body]
fn table_put<'lua>(table: &Table<'lua>, key: Value<'lua>, value: Value<'lua>) -> Result<
    (),
    mlua::Error,
> {
    table.raw_set(key, value)
}

/// Builds a `mlua::Value` from one layer, with `Lua::create_string` for a
/// text. The other layers are variants of `mlua::Value` that are built
/// without a call, so that nothing can fail for them.
#[verifier::external_body]
fn pack<'lua>(lua: &'lua Lua, layer: Layer<'lua>) -> (value: Result<Value<'lua>, mlua::Error>)
    ensures
        layer is Nil || layer is Boolean || layer is Integer ==> value is Ok,
{
    Ok(match layer {
        Layer::Nil => Value::Nil,
        Layer::Boolean(b) => Value::Boolean(b),
        Layer::Integer(n) => Value::Integer(n),
        Layer::Text(text) => Value::String(lua.create_string(&text)?),
        Layer::Table(table) => Value::Table(table),
    })
}

/// `Table::raw_get` with an integer key: what the table holds at `place`,
/// read without metamethods; `nil` where it holds nothing.
#[verifier::external_body]
fn table_item<'lua>(table: &Table<'lua>, place: i64) -> Value<'lua> {
    table.raw_get(place).unwrap_or(Value::Nil)
}

/// The largest place that the interpreter can count to.
pub const LAST_PLACE: u64 = 0x7fff_ffff_ffff_ffff;

/// The key that an integer is when it stands as the key of a table entry:
/// a place if it is positive, else `Other`.
pub open spec fn integer_key(n: i64) -> KeyModel {
    if n > 0 {
        KeyModel::Position(n as int)
    } else {
        KeyModel::Other
    }
}

/// The key for an integer that stands as the key of a table entry.
fn place_key(n: i64) -> (key: TableKey)
    ensures
        key@ == integer_key(n),
{
    if n > 0 {
        TableKey::Position(n as u64)
    } else {
        TableKey::Other
    }
}

/// Whether a key is one that a table read from the interpreter can have: a
/// place is a positive integer that the interpreter can count to.
pub open spec fn key_in_reach(key: KeyModel) -> bool {
    key matches KeyModel::Position(p) ==> 1 <= p <= LAST_PLACE
}

/// The key of a table entry in the library's own form: a place for a
/// positive integer, a name for a text, `Other` for anything else. Whatever
/// the interpreter holds, a place that comes out is within its reach.
fn lift_key<'lua>(key: &Value<'lua>) -> (lifted: TableKey)
    ensures
        key_in_reach(lifted@),
{
    match peel(key) {
        Peeled::Integer(n) => place_key(n),
        Peeled::Text(name) => TableKey::Name(name),
        _ => TableKey::Other,
    }
}

/// Whether a value has the form of one that was read from the interpreter
/// `depth` tables deep: its tables nest no deeper than that, and their
/// places are within the interpreter's reach.
pub open spec fn read_form(x: InterpreterModel, depth: nat) -> bool
    decreases x,
{
    match x {
        InterpreterModel::Table(entries) => depth > 0 && forall|i: int|
            0 <= i < entries.len() ==> key_in_reach((#[trigger] entries[i]).0) && read_form(
                entries[i].1,
                (depth - 1) as nat,
            ),
        _ => true,
    }
}

/// The number of entries of a table, counted on a walk that holds one entry
/// at a time.
fn count_entries<'lua>(table: &Table<'lua>) -> (count: usize) {
    let mut walk = start_walk(table);
    let mut count: usize = 0;
    while count < usize::MAX
        invariant
            count <= usize::MAX,
        decreases usize::MAX - count,
    {
        match next_pair(&mut walk) {
            Some(_) => {
                count += 1;
            },
            None => {
                return count;
            },
        }
    }
    count
}

/// Whether `entries` are entries as they are read from the interpreter
/// `depth` tables deep: each key is within reach, and each value has the
/// form of one that was read.
pub open spec fn entries_read(entries: Seq<(TableKey, InterpreterValue)>, depth: nat) -> bool {
    forall|i: int|
        0 <= i < entries.len() ==> key_in_reach((#[trigger] entries[i]).0@) && read_form(
            entries[i].1@,
            depth,
        )
}

/// Whether `entries` stand under the places 1, 2, .. in this order.
pub open spec fn in_places(entries: Seq<(TableKey, InterpreterValue)>) -> bool {
    forall|i: int|
        0 <= i < entries.len() ==> (#[trigger] entries[i]).0@ == KeyModel::Position(i + 1)
}

/// The items of a table that is a sequence, each read down to `depth` tables
/// deep: what it holds at the places 1, 2, .. up to `count`, the number of
/// its entries, if it holds something at each of them. Then these are all
/// its entries. A table without entries is the sequence without items; no
/// table is a sequence of more items than the interpreter can count. The
/// items are read one at a time.
fn sequence_items<'lua>(lua: &'lua Lua, table: &Table<'lua>, count: usize, depth: usize) -> (items:
    Option<Vec<(TableKey, InterpreterValue)>>)
    ensures
        items matches Some(list) ==> list@.len() == count && in_places(list@) && entries_read(
            list@,
            depth as nat,
        ),
        count == 0 ==> items is Some,
        count > LAST_PLACE ==> items is None,
    decreases depth, 1nat,
{
    let mut items: Vec<(TableKey, InterpreterValue)> = Vec::new();
    let mut i: usize = 0;
    while i < count
        invariant
            i <= count,
            i <= LAST_PLACE,
            items@.len() == i,
            in_places(items@),
            entries_read(items@, depth as nat),
        decreases count - i,
    {
        let place: u64 = (i + 1) as u64;
        if place > LAST_PLACE {
            return None;
        }
        let item = table_item(table, place as i64);
        match peel(&item) {
            Peeled::Nil => {
                return None;
            },
            _ => {},
        }
        let held = lift(lua, &item, depth);
        items.push((TableKey::Position(place), held));
        i += 1;
    }
    Some(items)
}

/// The entries of a table in the order in which the interpreter walks them,
/// each read down to `depth` tables deep and one at a time.
fn keyed_entries<'lua>(lua: &'lua Lua, table: &Table<'lua>, depth: usize) -> (entries: Vec<
    (TableKey, InterpreterValue),
>)
    ensures
        entries_read(entries@, depth as nat),
    decreases depth, 1nat,
{
    let mut walk = start_walk(table);
    let mut entries: Vec<(TableKey, InterpreterValue)> = Vec::new();
    while entries.len() < usize::MAX
        invariant
            entries_read(entries@, depth as nat),
        decreases usize::MAX - entries@.len(),
    {
        let (key, value) = match next_pair(&mut walk) {
            Some(pair) => pair,
            None => {
                return entries;
            },
        };
        let name = lift_key(&key);
        let held = lift(lua, &value, depth);
        entries.push((name, held));
    }
    entries
}

/// Reads a Lua value into the library's own form, down to `depth` tables
/// deep; a table below that depth is opaque. The entries of a table that is
/// a sequence come in the order of their places, those of any other table in
/// the order in which the interpreter walks them.
fn lift<'lua>(lua: &'lua Lua, value: &Value<'lua>, depth: usize) -> (native: InterpreterValue)
    ensures
        read_form(native@, depth as nat),
    decreases depth, 0nat,
{
    match peel(value) {
        Peeled::Nil => InterpreterValue::Nil,
        Peeled::Boolean(b) => InterpreterValue::Boolean(b),
        Peeled::Integer(n) => InterpreterValue::Integer(n),
        Peeled::Fraction => match whole_number(lua, value) {
            Some(n) => InterpreterValue::Integer(n),
            None => InterpreterValue::Opaque,
        },
        Peeled::Text(text) => InterpreterValue::Text(text),
        Peeled::Table(table) => {
            if depth == 0 {
                return InterpreterValue::Opaque;
            }
            let ghost below = (depth - 1) as nat;
            let count = count_entries(&table);
            let entries = match sequence_items(lua, &table, count, depth - 1) {
                Some(items) => items,
                None => keyed_entries(lua, &table, depth - 1),
            };
            let native = InterpreterValue::Table(entries);
            proof {
                let model = native@->Table_0;
                assert(model.len() == entries@.len());
                assert forall|j: int| 0 <= j < model.len() implies key_in_reach(
                    (#[trigger] model[j]).0,
                ) && read_form(model[j].1, below) by {
                    assert(key_in_reach(entries@[j].0@));
                    assert(model[j] == (entries@[j].0@, entries@[j].1@));
                }
            }
            native
        },
        Peeled::Other => InterpreterValue::Opaque,
    }
}

/// Whether a value is built in the interpreter without a call that can fail:
/// it is no text and no table.
pub open spec fn built_without_call(native: InterpreterValue) -> bool {
    native is Nil || native is Boolean || native is Integer || native is Opaque
}

/// Builds the Lua value that `native` describes. An opaque value becomes
/// `nil`; a table entry whose key the interpreter cannot take is left out.
/// A table is filled one entry at a time.
/// Only a text or a table can fail to be built: the interpreter has to make
/// room for them.
fn lower<'lua>(lua: &'lua Lua, native: &InterpreterValue) -> (value: Result<
    Value<'lua>,
    mlua::Error,
>)
    ensures
        built_without_call(*native) ==> value is Ok,
    decreases native,
{
    match native {
        InterpreterValue::Nil => pack(lua, Layer::Nil),
        InterpreterValue::Boolean(b) => pack(lua, Layer::Boolean(*b)),
        InterpreterValue::Integer(n) => pack(lua, Layer::Integer(*n)),
        InterpreterValue::Text(text) => pack(lua, Layer::Text(text.clone())),
        InterpreterValue::Table(entries) => {
            let table = new_table(lua)?;
            let mut i: usize = 0;
            while i < entries.len()
                invariant
                    native->Table_0 == *entries,
                    native is Table,
                    i <= entries.len(),
                decreases entries.len() - i,
            {
                proof {
                    assert(decreases_to!(*native => native->Table_0));
                    assert(decreases_to!(entries => entries[i as int]));
                    assert(decreases_to!(entries[i as int] => entries[i as int].1));
                }
                let key = match &entries[i].0 {
                    TableKey::Position(p) => if *p <= LAST_PLACE {
                        Some(Layer::Integer(*p as i64))
                    } else {
                        None
                    },
                    TableKey::Name(name) => Some(Layer::Text(name.clone())),
                    TableKey::Other => None,
                };
                match key {
                    Some(layer) => {
                        let k = pack(lua, layer)?;
                        let v = lower(lua, &entries[i].1)?;
                        table_put(&table, k, v)?;
                    },
                    None => {},
                }
                i += 1;
            }
            pack(lua, Layer::Table(table))
        },
        InterpreterValue::Opaque => pack(lua, Layer::Nil),
    }
}

/// The line of Lua that makes the command `name` a global function of that
/// name: the function hands its arguments to the dispatcher.
pub open spec fn prelude_line(name: Seq<char>) -> Seq<char> {
    "_G["@ + quoted(name) + "] = function(...) return __command("@ + quoted(name)
        + ", ...) end\n"@
}

/// The lines that expose `commands` to a script, one for each, in order.
pub open spec fn prelude(commands: Seq<CommandModel>) -> Seq<char>
    decreases commands.len(),
{
    if commands.len() == 0 {
        Seq::empty()
    } else {
        prelude(commands.drop_last()) + prelude_line(commands.last().name)
    }
}

/// Writes the Lua lines that expose every command that is not disabled as a
/// global function of the command's name.
pub fn script_prelude<R: CommandImpl>(registry: &Registry<R>, disabled: &Vec<String>) -> (lines:
    String)
    ensures
        lines@ == prelude(active(registry@, views(disabled@))),
{
    let listed = registry.list(disabled);
    let ghost models = listed@.map_values(|c: &Command<R>| c@);
    let mut lines = String::new();
    let mut i: usize = 0;
    while i < listed.len()
        invariant
            i <= listed.len(),
            models == listed@.map_values(|c: &Command<R>| c@),
            lines@ == prelude(models.take(i as int)),
        decreases listed.len() - i,
    {
        proof {
            assert(models.take(i + 1).drop_last() =~= models.take(i as int));
        }
        let q = quote(listed[i].name.as_str());
        lines.append("_G[");
        lines.append(q.as_str());
        lines.append("] = function(...) return __command(");
        lines.append(q.as_str());
        lines.append(", ...) end\n");
        i += 1;
    }
    proof {
        assert(models.take(listed.len() as int) =~= models);
    }
    lines
}

/// The arguments that a command gets when a script calls it with `natives`:
/// the values that they stand for, without those that stand for nothing.
pub open spec fn script_arguments(natives: Seq<InterpreterValue>) -> Seq<ValueModel> {
    raised_all(natives.map_values(|x: InterpreterValue| x@))
}

/// Whether `reply` is what a script gets for `outcome`: the result as the
/// interpreter holds it, or the text of the failure.
pub open spec fn answers(
    reply: Result<InterpreterValue, String>,
    outcome: Result<ScriptValue, AgentError>,
) -> bool {
    match outcome {
        Ok(value) => reply is Ok && reply->Ok_0@ == lowered(value@),
        Err(e) => reply is Err && reply->Err_0@ == error_text(e@),
    }
}

/// Whether one call of a script was made: `natives` are the arguments as the
/// interpreter held them, `before` and `after` the context around the call,
/// and `reply` what the script gets. A disabled command counts as unknown and
/// leaves the context as it was; any other call is dispatched.
pub open spec fn call_served<R: CommandImpl>(
    registry: Registry<R>,
    disabled: Seq<Seq<char>>,
    before: CommandContext,
    name: Seq<char>,
    natives: Seq<InterpreterValue>,
    after: CommandContext,
    reply: Result<InterpreterValue, String>,
) -> bool {
    if disabled.contains(name) {
        after == before && reply is Err && reply->Err_0@ == error_text(
            ErrorModel::CommandNotFound(name),
        )
    } else {
        exists|outcome: Result<ScriptValue, AgentError>|
            {
                &&& #[trigger] dispatched(
                    registry,
                    before,
                    name,
                    script_arguments(natives),
                    after,
                    outcome,
                )
                &&& answers(reply, outcome)
            }
    }
}

/// One call that a script makes: the arguments are taken back from the
/// interpreter (those that stand for nothing are left out), the command is
/// dispatched, and its result is handed to the interpreter. A failure comes
/// back as its text. A disabled command counts as unknown.
pub fn call_from_script<R: CommandImpl>(
    registry: &Registry<R>,
    disabled: &Vec<String>,
    context: &mut CommandContext,
    name: &str,
    natives: &Vec<InterpreterValue>,
) -> (reply: Result<InterpreterValue, String>)
    ensures
        call_served(
            *registry,
            views(disabled@),
            *old(context),
            name@,
            natives@,
            *final(context),
            reply,
        ),
{
    if contains_text(disabled, name) {
        let e = AgentError::CommandNotFound(String::from_str(name));
        return Err(e.message());
    }
    let args = gather_arguments(natives);
    let outcome = registry.dispatch(context, name, args);
    let reply = match &outcome {
        Ok(value) => Ok(to_script(value)),
        Err(e) => Err(e.message()),
    };
    proof {
        assert(dispatched(
            *registry,
            *old(context),
            name@,
            script_arguments(natives@),
            *context,
            outcome,
        ));
        assert(answers(reply, outcome));
    }
    reply
}

/// `mlua::Error::RuntimeError`: the error that a script sees when a command
/// fails, carrying the failure's text.
#[verifier::external_body]
fn runtime_error(text: String) -> mlua::Error {
    mlua::Error::RuntimeError(text)
}

/// The text of an interpreter error, as its `Display` writes it.
#[verifier::external_body]
fn lua_error_text(error: &mlua::Error) -> String {
    error.to_string()
}

/// Whether a call of a script with `count` arguments was answered: the
/// arguments were read as `natives`, one for each and each down to
/// [`MAX_DEPTH`] tables deep, the call was served with them and came to
/// `served`, and the script got a value (`answered`) or an error. A failure of
/// the call is an error for the script; a result that is built without a call
/// of the interpreter reaches the script as a value.
pub open spec fn call_answered<R: CommandImpl>(
    registry: Registry<R>,
    disabled: Seq<Seq<char>>,
    before: CommandContext,
    name: Seq<char>,
    count: nat,
    natives: Seq<InterpreterValue>,
    served: Result<InterpreterValue, String>,
    after: CommandContext,
    answered: bool,
) -> bool {
    &&& natives.len() == count
    &&& forall|i: int|
        0 <= i < natives.len() ==> read_form((#[trigger] natives[i])@, MAX_DEPTH as nat)
    &&& call_served(registry, disabled, before, name, natives, after, served)
    &&& served is Err ==> !answered
    &&& served matches Ok(native) ==> built_without_call(native) ==> answered
}

/// Serves one call of a script: reads the arguments, makes the call, and
/// builds the Lua value of the result or the error that the script is to see.
fn answer_call<'lua, R: CommandImpl>(
    registry: &Registry<R>,
    disabled: &Vec<String>,
    context: &mut CommandContext,
    lua: &'lua Lua,
    name: &str,
    args: Vec<Value<'lua>>,
) -> (reply: Result<Value<'lua>, mlua::Error>)
    ensures
        exists|natives: Seq<InterpreterValue>, served: Result<InterpreterValue, String>| #[trigger]
            call_answered(
                *registry,
                views(disabled@),
                *old(context),
                name@,
                args@.len(),
                natives,
                served,
                *final(context),
                reply is Ok,
            ),
        views(disabled@).contains(name@) ==> *final(context) == *old(context) && reply is Err,
{
    let mut natives: Vec<InterpreterValue> = Vec::new();
    let mut i: usize = 0;
    while i < args.len()
        invariant
            i <= args.len(),
            natives@.len() == i,
            forall|j: int| 0 <= j < i ==> read_form((#[trigger] natives@[j])@, MAX_DEPTH as nat),
        decreases args.len() - i,
    {
        natives.push(lift(lua, &args[i], MAX_DEPTH));
        i += 1;
    }
    let served = call_from_script(registry, disabled, context, name, &natives);
    let ghost came = served;
    let reply = match served {
        Ok(native) => lower(lua, &native),
        Err(text) => Err(runtime_error(text)),
    };
    proof {
        assert(call_answered(
            *registry,
            views(disabled@),
            *old(context),
            name@,
            args@.len(),
            natives@,
            came,
            *context,
            reply is Ok,
        ));
    }
    reply
}

/// Whether the context `after` is what one call of a script made of the
/// context `before`.
pub open spec fn one_call_apart<R: CommandImpl>(
    registry: Registry<R>,
    disabled: Seq<Seq<char>>,
    before: CommandContext,
    after: CommandContext,
) -> bool {
    exists|
        name: Seq<char>,
        natives: Seq<InterpreterValue>,
        served: Result<InterpreterValue, String>,
        answered: bool,
    | #[trigger]
        call_answered(
            registry,
            disabled,
            before,
            name,
            natives.len(),
            natives,
            served,
            after,
            answered,
        )
}

/// Whether each context of `steps` but the first is what one call of a
/// script made of the one before it.
pub open spec fn calls_in_turn<R: CommandImpl>(
    registry: Registry<R>,
    disabled: Seq<Seq<char>>,
    steps: Seq<CommandContext>,
) -> bool {
    forall|i: int|
        0 <= i < steps.len() - 1 ==> one_call_apart(
            registry,
            disabled,
            #[trigger] steps[i],
            steps[i + 1],
        )
}

/// Whether a script may have left the context `after` when it began with
/// `before`: nothing changes the context but the calls that the script
/// makes, one after the other.
pub open spec fn script_ran<R: CommandImpl>(
    registry: Registry<R>,
    disabled: Seq<Seq<char>>,
    before: CommandContext,
    after: CommandContext,
) -> bool {
    exists|steps: Seq<CommandContext>|
        steps.len() > 0 && steps.first() == before && steps.last() == after
            && #[trigger] calls_in_turn(registry, disabled, steps)
}

/// Runs `prelude` and then `code` in a fresh interpreter (`Lua::new`) in
/// which the global named `dispatcher` serves calls through [`answer_call`]
/// (`Scope::create_function_mut`, `Table::set` on `Lua::globals`), and hands
/// back what `Chunk::exec` returned. Does not return if the script does not
/// end.
///
/// The interpreter decides which calls are made and how the run ends. The
/// context is lent to the serving function alone, which the interpreter runs
/// once for each call of the script and never a second time before the
/// first has returned: so the context changes by those calls, in their
/// order, and by nothing else.
#[verifier::external_body]
fn run_chunk<R: CommandImpl>(
    registry: &Registry<R>,
    disabled: &Vec<String>,
    context: &mut CommandContext,
    dispatcher: &str,
    prelude: &str,
    code: &str,
) -> (ran: Result<(), mlua::Error>)
    ensures
        script_ran(*registry, views(disabled@), *old(context), *final(context)),
{
    let lua = Lua::new();
    lua.scope(|scope| {
        let serve = scope.create_function_mut(|lua, (name, args): (String, Variadic<Value>)| {
            answer_call(registry, disabled, &mut *context, lua, &name, args.into_iter().collect())
        })?;
        lua.globals().set(dispatcher, serve)?;
        lua.load(prelude).exec()?;
        lua.load(code).exec()
    })
}

/// The entries of `out` from `from` on, one below the other.
pub open spec fn transcript_since(out: Seq<String>, from: int) -> Seq<char> {
    if 0 <= from <= out.len() {
        join(views(out.skip(from)), "\n"@)
    } else {
        Seq::empty()
    }
}

/// What a script run comes to: the transcript of the calls that it made if
/// it ran to its end, else the text of what stopped it.
pub fn finish_script(out: &Vec<String>, before: usize, failure: Option<String>) -> (outcome:
    Result<String, AgentError>)
    ensures
        match failure {
            None => outcome is Ok && outcome->Ok_0@ == transcript_since(out@, before as int),
            Some(text) => outcome is Err && outcome->Err_0@
                == ErrorModel::ScriptParseOrRuntimeError(text@),
        },
{
    match failure {
        Some(text) => Err(AgentError::ScriptParseOrRuntimeError(text)),
        None => {
            if before > out.len() {
                return Ok(String::new());
            }
            let mut entries: Vec<String> = Vec::new();
            let mut i: usize = before;
            while i < out.len()
                invariant
                    before <= i <= out.len(),
                    views(entries@) == views(out@.subrange(before as int, i as int)),
                decreases out.len() - i,
            {
                let ghost so_far = views(entries@);
                entries.push(out[i].clone());
                proof {
                    assert(views(out@.subrange(before as int, i + 1)) =~= so_far.push(
                        out@[i as int]@,
                    ));
                }
                i += 1;
            }
            Ok(join_texts(&entries, "\n"))
        },
    }
}

/// Whether running a script may change the context from `before` to `after`
/// and come to `outcome`: the context changes by the calls of the script and
/// by nothing else, and the result is the transcript of those calls if the
/// script ran to its end, else a failure of the script.
pub open spec fn script_came_to<R: CommandImpl>(
    registry: Registry<R>,
    disabled: Seq<Seq<char>>,
    before: CommandContext,
    after: CommandContext,
    outcome: Result<String, AgentError>,
) -> bool {
    &&& script_ran(registry, disabled, before, after)
    &&& match outcome {
        Ok(transcript) => transcript@ == transcript_since(
            after.command_out@,
            before.command_out@.len() as int,
        ),
        Err(e) => e is ScriptParseOrRuntimeError,
    }
}

/// Runs one script with every command that is not disabled at its disposal,
/// each as a global function of the command's name.
///
/// The script's calls run one after the other, in the order of the script,
/// and nothing else changes the context.
/// If the script runs to its end, the result is the transcript of its calls.
/// If it cannot be read, or stops in an error, or a command fails, the
/// result is that failure's text; what the commands did before is not undone.
pub fn run_script<R: CommandImpl, Y, M, P>(program: &mut ProgramInfo<R, Y, M, P>, code: &str) -> (
    outcome: Result<String, AgentError>
)
    ensures
        final(program).registry == old(program).registry,
        final(program).disabled_commands == old(program).disabled_commands,
        final(program).plugins == old(program).plugins,
        final(program).goals == old(program).goals,
        final(program).minion == old(program).minion,
        final(program).model == old(program).model,
        final(program).parser == old(program).parser,
        final(program).name == old(program).name,
        final(program).role == old(program).role,
        final(program).personality == old(program).personality,
        script_came_to(
            old(program).registry,
            views(old(program).disabled_commands@),
            old(program).context,
            final(program).context,
            outcome,
        ),
{
    let lines = script_prelude(&program.registry, &program.disabled_commands);
    let before = program.context.command_out.len();
    let ran = run_chunk(
        &program.registry,
        &program.disabled_commands,
        &mut program.context,
        "__command",
        lines.as_str(),
        code,
    );
    let failure = match ran {
        Ok(()) => None,
        Err(e) => Some(lua_error_text(&e)),
    };
    finish_script(&program.context.command_out, before, failure)
}

} // verus!
