//! Commands, the registry that finds them by name, and the transcript of
//! what they returned.

use crate::error::{AgentError, ErrorModel};
use crate::history::History;
use crate::text::{join, join_texts, same_text, views};
use crate::value::{
    clone_values, render, rendered, rendered_items, value_views, ScriptValue, ValueModel,
};
use vstd::prelude::*;

verus! {

/// The goals that the agent works through, one after the other.
pub struct EndGoals {
    /// The place of the current goal in `goals`.
    pub end_goal: usize,
    pub goals: Vec<String>,
}

impl EndGoals {
    /// The current goal as a text; the empty text once every goal is done.
    pub open spec fn current(&self) -> Seq<char> {
        if self.end_goal < self.goals@.len() {
            self.goals@[self.end_goal as int]@
        } else {
            Seq::empty()
        }
    }

    /// The current goal; the empty text once every goal is done.
    pub fn get(&self) -> (goal: String)
        ensures
            goal@ == self.current(),
    {
        if self.end_goal < self.goals.len() {
            self.goals[self.end_goal].clone()
        } else {
            String::new()
        }
    }

    /// Moves on to the next goal, if one is left to move on from.
    pub fn advance(&mut self)
        ensures
            final(self).goals == old(self).goals,
            final(self).end_goal == if old(self).end_goal < old(self).goals@.len() {
                old(self).end_goal + 1
            } else {
                old(self).end_goal as int
            },
    {
        if self.end_goal < self.goals.len() {
            self.end_goal = self.end_goal + 1;
        }
    }
}

/// What plugins keep between calls, one value for each plugin name.
pub struct PluginStore {
    entries: Vec<(String, ScriptValue)>,
}

/// The map that a list of named values stands for; of two entries with one
/// name the later one counts.
pub open spec fn as_map(entries: Seq<(String, ScriptValue)>) -> Map<Seq<char>, ValueModel>
    decreases entries.len(),
{
    if entries.len() == 0 {
        Map::empty()
    } else {
        as_map(entries.drop_last()).insert(entries.last().0@, entries.last().1@)
    }
}

proof fn lemma_as_map_update(entries: Seq<(String, ScriptValue)>, at: int, entry: (
    String,
    ScriptValue,
))
    requires
        0 <= at < entries.len(),
        entries[at].0@ == entry.0@,
        forall|i: int, j: int|
            0 <= i < j < entries.len() ==> (#[trigger] entries[i]).0@ != (#[trigger] entries[j]).0@,
    ensures
        as_map(entries.update(at, entry)) == as_map(entries).insert(entry.0@, entry.1@),
    decreases entries.len(),
{
    let updated = entries.update(at, entry);
    if at == entries.len() - 1 {
        assert(updated.drop_last() =~= entries.drop_last());
    } else {
        assert(updated.drop_last() =~= entries.drop_last().update(at, entry));
        lemma_as_map_update(entries.drop_last(), at, entry);
    }
}

proof fn lemma_as_map_absent(entries: Seq<(String, ScriptValue)>, name: Seq<char>)
    requires
        forall|i: int| 0 <= i < entries.len() ==> (#[trigger] entries[i]).0@ != name,
    ensures
        !as_map(entries).dom().contains(name),
    decreases entries.len(),
{
    if entries.len() > 0 {
        lemma_as_map_absent(entries.drop_last(), name);
    }
}

proof fn lemma_as_map_present(entries: Seq<(String, ScriptValue)>, at: int)
    requires
        0 <= at < entries.len(),
        forall|i: int, j: int|
            0 <= i < j < entries.len() ==> (#[trigger] entries[i]).0@ != (#[trigger] entries[j]).0@,
    ensures
        as_map(entries).dom().contains(entries[at].0@),
        as_map(entries)[entries[at].0@] == entries[at].1@,
    decreases entries.len(),
{
    if at < entries.len() - 1 {
        lemma_as_map_present(entries.drop_last(), at);
    }
}

impl View for PluginStore {
    type V = Map<Seq<char>, ValueModel>;

    closed spec fn view(&self) -> Map<Seq<char>, ValueModel> {
        as_map(self.entries@)
    }
}

impl PluginStore {
    #[verifier::type_invariant]
    closed spec fn names_differ(&self) -> bool {
        forall|i: int, j: int|
            0 <= i < j < self.entries@.len() ==> (#[trigger] self.entries@[i]).0@ != (
            #[trigger] self.entries@[j]).0@
    }

    /// A store that holds nothing.
    pub fn new() -> (store: PluginStore)
        ensures
            store@ == Map::<Seq<char>, ValueModel>::empty(),
    {
        PluginStore { entries: Vec::new() }
    }

    fn position(&self, plugin: &str) -> (found: Option<usize>)
        ensures
            match found {
                Some(i) => i < self.entries@.len() && self.entries@[i as int].0@ == plugin@,
                None => forall|i: int|
                    0 <= i < self.entries@.len() ==> (#[trigger] self.entries@[i]).0@ != plugin@,
            },
    {
        let mut i: usize = 0;
        while i < self.entries.len()
            invariant
                i <= self.entries.len(),
                forall|k: int| 0 <= k < i ==> (#[trigger] self.entries@[k]).0@ != plugin@,
            decreases self.entries.len() - i,
        {
            if same_text(self.entries[i].0.as_str(), plugin) {
                return Some(i);
            }
            i += 1;
        }
        None
    }

    /// What `plugin` keeps, if it keeps anything.
    pub fn get(&self, plugin: &str) -> (data: Option<ScriptValue>)
        ensures
            match data {
                Some(value) => self@.dom().contains(plugin@) && self@[plugin@] == value@,
                None => !self@.dom().contains(plugin@),
            },
    {
        proof {
            use_type_invariant(self);
        }
        match self.position(plugin) {
            Some(i) => {
                proof {
                    lemma_as_map_present(self.entries@, i as int);
                }
                Some(self.entries[i].1.clone())
            },
            None => {
                proof {
                    lemma_as_map_absent(self.entries@, plugin@);
                }
                None
            },
        }
    }

    /// Keeps `data` for `plugin`, in place of what it kept before.
    pub fn insert(&mut self, plugin: &str, data: ScriptValue)
        ensures
            final(self)@ == old(self)@.insert(plugin@, data@),
    {
        proof {
            use_type_invariant(&*self);
        }
        let found = self.position(plugin);
        let ghost before = self.entries@;
        let mut entries: Vec<(String, ScriptValue)> = Vec::new();
        std::mem::swap(&mut self.entries, &mut entries);
        let entry = (String::from_str(plugin), data);
        match found {
            Some(i) => {
                proof {
                    lemma_as_map_update(before, i as int, entry);
                }
                entries.set(i, entry);
            },
            None => {
                entries.push(entry);
                proof {
                    assert(entries@.drop_last() =~= before);
                }
            },
        }
        self.entries = entries;
    }
}

/// What commands share while they run.
pub struct CommandContext {
    /// The conversation with the model.
    pub history: History,
    /// What plugins keep between calls.
    pub store: PluginStore,
    /// What the commands of the current cycle reported, one entry for each.
    pub command_out: Vec<String>,
    /// The goals that the agent works through.
    pub end_goals: EndGoals,
}

/// What a command does when it is called. A command validates its own
/// arguments; it changes nothing but the context it is handed.
pub trait CommandImpl {
    /// Whether a call with `args` in the context `before` may leave the
    /// context `after` and come to `outcome`.
    ///
    /// This is for an implementation to say, and for the contracts of the
    /// registry to hand on. An implementation that says nothing leaves the
    /// relation as it stands here, where it holds of every call.
    open spec fn may_come_to(
        &self,
        before: CommandContext,
        args: Seq<ValueModel>,
        after: CommandContext,
        outcome: Result<ScriptValue, AgentError>,
    ) -> bool {
        true
    }

    fn invoke(&self, context: &mut CommandContext, args: Vec<ScriptValue>) -> (outcome: Result<
        ScriptValue,
        AgentError,
    >)
        ensures
            self.may_come_to(*old(context), value_views(args@), *final(context), outcome),
    ;
}

/// A command that the model can call by name.
pub struct Command<R> {
    pub name: String,
    /// What the command is for, in a sentence.
    pub purpose: String,
    /// Each argument's name and description, for the model to read.
    pub args: Vec<(String, String)>,
    pub run: R,
}

/// What the model is told of a command.
pub struct CommandModel {
    pub name: Seq<char>,
    pub purpose: Seq<char>,
    pub args: Seq<(Seq<char>, Seq<char>)>,
}

impl<R> View for Command<R> {
    type V = CommandModel;

    open spec fn view(&self) -> CommandModel {
        CommandModel {
            name: self.name@,
            purpose: self.purpose@,
            args: self.args@.map_values(|a: (String, String)| (a.0@, a.1@)),
        }
    }
}

/// A call as a script writes it: the name, then the arguments in brackets.
pub open spec fn call_expression(name: Seq<char>, args: Seq<ValueModel>) -> Seq<char> {
    name + "("@ + join(rendered_items(args), ", "@) + ")"@
}

/// What the transcript says of a call that succeeded.
pub open spec fn transcript_entry(name: Seq<char>, args: Seq<ValueModel>, value: ValueModel) -> Seq<
    char,
> {
    "Command "@ + call_expression(name, args) + " was successful and returned:\n"@ + rendered(
        value,
    )
}

/// Writes a call as a script writes it.
pub fn write_call(name: &str, args: &Vec<ScriptValue>) -> (text: String)
    ensures
        text@ == call_expression(name@, value_views(args@)),
{
    let mut parts: Vec<String> = Vec::new();
    let mut i: usize = 0;
    while i < args.len()
        invariant
            i <= args.len(),
            parts.len() == i,
            forall|j: int| 0 <= j < i ==> parts@[j]@ == rendered(args@[j]@),
        decreases args.len() - i,
    {
        parts.push(render(&args[i]));
        i += 1;
    }
    proof {
        assert(views(parts@) =~= rendered_items(value_views(args@)));
    }
    let mut text = String::from_str(name);
    text.append("(");
    text.append(join_texts(&parts, ", ").as_str());
    text.append(")");
    text
}

/// Notes the outcome of a call in the transcript: a success gets an entry, a
/// failure none. The outcome itself is handed on as it came.
pub fn record_outcome(
    out: &mut Vec<String>,
    name: &str,
    args: &Vec<ScriptValue>,
    outcome: Result<ScriptValue, AgentError>,
) -> (same: Result<ScriptValue, AgentError>)
    ensures
        same == outcome,
        match outcome {
            Ok(value) => views(final(out)@) == views(old(out)@).push(
                transcript_entry(name@, value_views(args@), value@),
            ),
            Err(_) => *final(out) == *old(out),
        },
{
    match &outcome {
        Ok(value) => {
            let mut entry = String::from_str("Command ");
            entry.append(write_call(name, args).as_str());
            entry.append(" was successful and returned:\n");
            entry.append(render(value).as_str());
            out.push(entry);
        },
        Err(_) => {},
    }
    outcome
}

/// Calls one command and notes a success in `out`.
pub fn run_command<R: CommandImpl>(
    out: &mut Vec<String>,
    command: &Command<R>,
    context: &mut CommandContext,
    args: Vec<ScriptValue>,
) -> (outcome: Result<ScriptValue, AgentError>)
    ensures
        command.run.may_come_to(*old(context), value_views(args@), *final(context), outcome),
        match outcome {
            Ok(value) => views(final(out)@) == views(old(out)@).push(
                transcript_entry(command.name@, value_views(args@), value@),
            ),
            Err(_) => *final(out) == *old(out),
        },
{
    let copies = clone_values(&args);
    let outcome = command.run.invoke(context, args);
    record_outcome(out, command.name.as_str(), &copies, outcome)
}

/// Whether `after` is `before` with the outcome of a call noted in its
/// transcript: a new last entry for a success, no change for a failure.
pub open spec fn noted_in(
    before: CommandContext,
    after: CommandContext,
    name: Seq<char>,
    args: Seq<ValueModel>,
    outcome: Result<ScriptValue, AgentError>,
) -> bool {
    match outcome {
        Ok(value) => {
            &&& after.history == before.history
            &&& after.store == before.store
            &&& after.end_goals == before.end_goals
            &&& views(after.command_out@) == views(before.command_out@).push(
                transcript_entry(name, args, value@),
            )
        },
        Err(_) => after == before,
    }
}

/// A command together with the plugin that brought it.
pub struct Registered<R> {
    pub plugin: String,
    pub command: Command<R>,
}

/// What a registry's entry is, as a mathematical value.
pub struct RegisteredModel {
    pub plugin: Seq<char>,
    pub command: CommandModel,
}

impl<R> View for Registered<R> {
    type V = RegisteredModel;

    open spec fn view(&self) -> RegisteredModel {
        RegisteredModel { plugin: self.plugin@, command: self.command@ }
    }
}

/// Whether a command named `name` stands in `entries`.
pub open spec fn has_command(entries: Seq<RegisteredModel>, name: Seq<char>) -> bool {
    exists|i: int| 0 <= i < entries.len() && (#[trigger] entries[i]).command.name == name
}

/// Whether no two of `entries` share a command name.
pub open spec fn names_distinct(entries: Seq<RegisteredModel>) -> bool {
    forall|i: int, j: int|
        0 <= i < j < entries.len() ==> (#[trigger] entries[i]).command.name != (
        #[trigger] entries[j]).command.name
}

/// The commands of `entries` whose names are not in `excluded`, in order.
pub open spec fn active(entries: Seq<RegisteredModel>, excluded: Seq<Seq<char>>) -> Seq<
    CommandModel,
>
    decreases entries.len(),
{
    if entries.len() == 0 {
        Seq::empty()
    } else if excluded.contains(entries.last().command.name) {
        active(entries.drop_last(), excluded)
    } else {
        active(entries.drop_last(), excluded).push(entries.last().command)
    }
}

/// Whether `wanted` is one of `texts`.
pub fn contains_text(texts: &Vec<String>, wanted: &str) -> (found: bool)
    ensures
        found == views(texts@).contains(wanted@),
{
    let mut i: usize = 0;
    while i < texts.len()
        invariant
            i <= texts.len(),
            forall|k: int| 0 <= k < i ==> (#[trigger] views(texts@)[k]) != wanted@,
        decreases texts.len() - i,
    {
        if same_text(texts[i].as_str(), wanted) {
            proof {
                assert(views(texts@)[i as int] == wanted@);
            }
            return true;
        }
        i += 1;
    }
    false
}

/// The commands of all plugins, each under a name of its own.
pub struct Registry<R> {
    entries: Vec<Registered<R>>,
}

impl<R> View for Registry<R> {
    type V = Seq<RegisteredModel>;

    closed spec fn view(&self) -> Seq<RegisteredModel> {
        self.entries@.map_values(|e: Registered<R>| e@)
    }
}

impl<R> Registry<R> {
    #[verifier::type_invariant]
    closed spec fn well_formed(&self) -> bool {
        names_distinct(self.entries@.map_values(|e: Registered<R>| e@))
    }
}

impl<R: CommandImpl> Registry<R> {
    /// What the command at `index` does when it is called.
    pub closed spec fn runner(&self, index: int) -> R {
        self.entries@[index].command.run
    }

    /// No two commands of a registry share a name: a call of this function,
    /// which does nothing when it runs, lets a caller's proof use that.
    pub fn witness_distinct(&self)
        ensures
            names_distinct(self@),
    {
        proof {
            use_type_invariant(self);
        }
    }

    /// A registry without commands.
    pub fn new() -> (registry: Registry<R>)
        ensures
            registry@ == Seq::<RegisteredModel>::empty(),
    {
        let registry = Registry { entries: Vec::new() };
        registry
    }

    /// The number of commands.
    pub fn len(&self) -> (n: usize)
        ensures
            n == self@.len(),
    {
        self.entries.len()
    }

    /// The entry at `index`, in the order of registration.
    pub fn get(&self, index: usize) -> (entry: &Registered<R>)
        requires
            index < self@.len(),
        ensures
            entry@ == self@[index as int],
    {
        &self.entries[index]
    }

    /// Where the command named `name` stands.
    pub fn position(&self, name: &str) -> (found: Option<usize>)
        ensures
            match found {
                Some(i) => i < self@.len() && self@[i as int].command.name == name@,
                None => !has_command(self@, name@),
            },
    {
        let mut i: usize = 0;
        while i < self.entries.len()
            invariant
                i <= self.entries.len(),
                forall|k: int| 0 <= k < i ==> (#[trigger] self@[k]).command.name != name@,
            decreases self.entries.len() - i,
        {
            if same_text(self.entries[i].command.name.as_str(), name) {
                return Some(i);
            }
            i += 1;
        }
        None
    }

    /// Adds a command of the plugin `plugin_name`: it comes last, with what
    /// it does when it is called, and the commands before it stay as they
    /// are. A name that is taken is refused, whichever plugin took it, and
    /// the registry stays as it was.
    pub fn register(&mut self, plugin_name: &str, command: Command<R>) -> (outcome: Result<
        (),
        AgentError,
    >)
        ensures
            match outcome {
                Ok(()) => !has_command(old(self)@, command.name@) && final(self)@ == old(
                    self,
                )@.push(RegisteredModel { plugin: plugin_name@, command: command@ })
                    && final(self).runner(old(self)@.len() as int) == command.run,
                Err(e) => has_command(old(self)@, command.name@) && e@
                    == ErrorModel::DuplicateCommand(command.name@) && final(self)@ == old(self)@,
            },
            forall|i: int|
                0 <= i < old(self)@.len() ==> #[trigger] final(self).runner(i) == old(self).runner(
                    i,
                ),
    {
        proof {
            use_type_invariant(&*self);
        }
        match self.position(command.name.as_str()) {
            Some(_) => Err(AgentError::DuplicateCommand(command.name.clone())),
            None => {
                let ghost before = self@;
                let entry = Registered { plugin: String::from_str(plugin_name), command };
                let mut entries: Vec<Registered<R>> = Vec::new();
                std::mem::swap(&mut self.entries, &mut entries);
                entries.push(entry);
                proof {
                    let after = entries@.map_values(|e: Registered<R>| e@);
                    assert(after =~= before.push(entry@));
                    assert forall|i: int, j: int| 0 <= i < j < after.len() implies (
                    #[trigger] after[i]).command.name != (#[trigger] after[j]).command.name by {
                        if j < before.len() {
                        } else {
                        }
                    }
                }
                self.entries = entries;
                Ok(())
            },
        }
    }

    /// The commands that are not disabled, in the order of registration.
    pub fn list(&self, excluding: &Vec<String>) -> (listed: Vec<&Command<R>>)
        ensures
            listed@.map_values(|c: &Command<R>| c@) == active(self@, views(excluding@)),
    {
        let mut listed: Vec<&Command<R>> = Vec::new();
        let mut i: usize = 0;
        while i < self.entries.len()
            invariant
                i <= self.entries.len(),
                listed@.map_values(|c: &Command<R>| c@) == active(
                    self@.take(i as int),
                    views(excluding@),
                ),
            decreases self.entries.len() - i,
        {
            proof {
                assert(self@.take(i + 1).drop_last() =~= self@.take(i as int));
            }
            let ghost before = listed@.map_values(|c: &Command<R>| c@);
            if !contains_text(excluding, self.entries[i].command.name.as_str()) {
                listed.push(&self.entries[i].command);
                proof {
                    assert(listed@.map_values(|c: &Command<R>| c@) =~= before.push(
                        self.entries@[i as int].command@,
                    ));
                }
            }
            i += 1;
        }
        proof {
            assert(self@.take(self.entries.len() as int) =~= self@);
        }
        listed
    }

    /// Calls the command named `name` with `args`. An unknown name is an error
    /// and changes nothing. A success is noted in the context's transcript;
    /// the command's own failure is handed on as it came.
    pub fn dispatch(&self, context: &mut CommandContext, name: &str, args: Vec<ScriptValue>) -> (
        outcome: Result<ScriptValue, AgentError>
    )
        ensures
            dispatched(*self, *old(context), name@, value_views(args@), *final(context), outcome),
    {
        match self.position(name) {
            None => Err(AgentError::CommandNotFound(String::from_str(name))),
            Some(i) => {
                let copies = clone_values(&args);
                let outcome = self.entries[i].command.run.invoke(context, args);
                let ghost left = *context;
                let same = record_outcome(&mut context.command_out, name, &copies, outcome);
                proof {
                    assert(self.runner(i as int).may_come_to(
                        *old(context),
                        value_views(args@),
                        left,
                        same,
                    ));
                }
                same
            },
        }
    }
}

/// Whether dispatching `name` with `args` in the context `before` may leave
/// the context `after` and come to `outcome`.
///
/// A name that no command has comes to `CommandNotFound` and changes
/// nothing. Else the command of that name is called, and what it comes to
/// is noted in the transcript.
pub open spec fn dispatched<R: CommandImpl>(
    registry: Registry<R>,
    before: CommandContext,
    name: Seq<char>,
    args: Seq<ValueModel>,
    after: CommandContext,
    outcome: Result<ScriptValue, AgentError>,
) -> bool {
    if has_command(registry@, name) {
        exists|index: int, left: CommandContext|
            {
                &&& 0 <= index < registry@.len()
                &&& registry@[index].command.name == name
                &&& #[trigger] registry.runner(index).may_come_to(before, args, left, outcome)
                &&& noted_in(left, after, name, args, outcome)
            }
    } else {
        &&& after == before
        &&& outcome is Err
        &&& outcome->Err_0@ == ErrorModel::CommandNotFound(name)
    }
}

} // verus!
