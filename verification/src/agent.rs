//! The parts of a running agent, and the collaborators that it is given:
//! the language model, the reader of the model's replies, the plugins and the
//! long-term memory.

use crate::command::{CommandContext, PluginStore, Registry};
use crate::error::AgentError;
use crate::history::{message_views, Message, MessageModel};
use crate::value::{ScriptValue, ValueModel};
use vstd::prelude::*;

verus! {

/// One thing that the model learned from the last command.
#[derive(Clone, Debug, PartialEq, Eq)]
pub struct Takeaway {
    pub takeaway: String,
    pub points: Vec<String>,
}

/// Where the model stands with its current goal.
#[derive(Clone, Debug, PartialEq, Eq)]
pub struct GoalInformation {
    pub current_endgoal: String,
    pub plan: Vec<String>,
    pub step: String,
}

/// One command that the model asks for.
#[derive(Clone, Debug, PartialEq, Eq)]
pub struct CommandCall {
    pub name: String,
    pub args: Vec<ScriptValue>,
}

/// A reply of the model, read into its parts.
#[derive(Clone, Debug, PartialEq, Eq)]
pub struct Thought {
    pub summary: Vec<Takeaway>,
    pub goal_information: GoalInformation,
    /// The commands to run in this cycle, in order.
    pub command_query: Vec<CommandCall>,
    /// Whether the current goal is reached once the commands have run.
    pub will_be_done_with_plan: bool,
}

/// The language model behind an agent.
///
/// The two relations are for an implementation to say what its calls may
/// return, and for the contracts of the engine to hand that on. An
/// implementation that says nothing leaves them as they stand here, where
/// they hold of every call.
pub trait LanguageModel {
    /// Whether the model may give `reply` when it is asked to continue
    /// `messages`.
    open spec fn may_reply(
        &self,
        messages: Seq<MessageModel>,
        max_tokens: Option<u16>,
        temperature_percent: Option<u8>,
        reply: Result<String, AgentError>,
    ) -> bool {
        true
    }

    /// Whether the model's tokenizer may make `tokens` tokens of `text`.
    open spec fn may_count(&self, text: Seq<char>, tokens: usize) -> bool {
        true
    }

    /// Asks the model to continue the conversation. `temperature_percent` is
    /// the sampling temperature in hundredths.
    fn get_response(
        &self,
        messages: &Vec<Message>,
        max_tokens: Option<u16>,
        temperature_percent: Option<u8>,
    ) -> (reply: Result<String, AgentError>)
        ensures
            self.may_reply(message_views(messages@), max_tokens, temperature_percent, reply),
    ;

    /// The number of tokens that the model's tokenizer makes of `text`.
    fn count_tokens(&self, text: &str) -> (tokens: usize)
        ensures
            self.may_count(text@, tokens),
    ;
}

/// Reads a reply of the model into a [`Thought`].
///
/// The relation is for an implementation to say what it reads, as those of
/// [`LanguageModel`] are.
pub trait ResponseParser {
    /// Whether `text` may be read as `thought`.
    open spec fn may_read(&self, text: Seq<char>, thought: Option<Thought>) -> bool {
        true
    }

    fn parse_response(&self, text: &str) -> (thought: Option<Thought>)
        ensures
            self.may_read(text@, thought),
    ;
}

/// The text behind an optional reference to a text.
pub open spec fn optional_text(text: Option<&str>) -> Option<Seq<char>> {
    match text {
        Some(t) => Some(t@),
        None => None,
    }
}

/// What a plugin does around the cycles of the agent.
///
/// The relations are for an implementation to say what its calls may do, and
/// for the contracts of the engine to hand that on. An implementation that
/// says nothing leaves them as they stand here, where they hold of every
/// call.
pub trait PluginCycle {
    /// Whether the plugin may keep `data` for a run, made from `value`.
    open spec fn may_create(&self, value: ValueModel, data: Option<ScriptValue>) -> bool {
        true
    }

    /// Whether a call for a fragment may change the store from `before` to
    /// `after` and come to `fragment`.
    open spec fn may_add(
        &self,
        before: PluginStore,
        previous_prompt: Option<Seq<char>>,
        after: PluginStore,
        fragment: Result<Option<String>, AgentError>,
    ) -> bool {
        true
    }

    /// Whether taking note of an exchange may change the store from `before`
    /// to `after` and come to `noted`.
    open spec fn may_note(
        &self,
        before: PluginStore,
        response: Thought,
        followup: Seq<char>,
        is_eviction: bool,
        after: PluginStore,
        noted: Result<(), AgentError>,
    ) -> bool {
        true
    }

    /// What the plugin wants to keep for the run, made from `value`; `None`
    /// where it keeps nothing.
    fn create_data(&self, value: ScriptValue) -> (data: Option<ScriptValue>)
        ensures
            self.may_create(value@, data),
    ;

    /// A fragment for the next prompt, if the plugin has one to give.
    fn create_context(&self, store: &mut PluginStore, previous_prompt: Option<&str>) -> (fragment:
        Result<Option<String>, AgentError>)
        ensures
            self.may_add(*old(store), optional_text(previous_prompt), *final(store), fragment),
    ;

    /// Takes note of an exchange that is about to leave the history.
    fn apply_removed_response(
        &self,
        store: &mut PluginStore,
        response: &Thought,
        followup: &str,
        is_eviction: bool,
    ) -> (noted: Result<(), AgentError>)
        ensures
            self.may_note(*old(store), *response, followup@, is_eviction, *final(store), noted),
    ;
}

/// The cycle of a plugin that brings commands and nothing else: it keeps no
/// data, adds nothing to the prompt, and takes no note of what leaves the
/// history.
#[derive(Clone, Copy, Debug, PartialEq, Eq, Structural)]
pub struct PassiveCycle;

impl PluginCycle for PassiveCycle {
    open spec fn may_create(&self, value: ValueModel, data: Option<ScriptValue>) -> bool {
        data is None
    }

    open spec fn may_add(
        &self,
        before: PluginStore,
        previous_prompt: Option<Seq<char>>,
        after: PluginStore,
        fragment: Result<Option<String>, AgentError>,
    ) -> bool {
        after == before && fragment == Ok::<Option<String>, AgentError>(None)
    }

    open spec fn may_note(
        &self,
        before: PluginStore,
        response: Thought,
        followup: Seq<char>,
        is_eviction: bool,
        after: PluginStore,
        noted: Result<(), AgentError>,
    ) -> bool {
        after == before && noted is Ok
    }

    fn create_data(&self, value: ScriptValue) -> (data: Option<ScriptValue>) {
        None
    }

    fn create_context(&self, store: &mut PluginStore, previous_prompt: Option<&str>) -> (fragment:
        Result<Option<String>, AgentError>) {
        Ok(None)
    }

    fn apply_removed_response(
        &self,
        store: &mut PluginStore,
        response: &Thought,
        followup: &str,
        is_eviction: bool,
    ) -> (noted: Result<(), AgentError>) {
        Ok(())
    }
}

/// The long-term memory of an agent.
///
/// The relation is for an implementation to say what storing may do, as those
/// of [`PluginCycle`] are.
pub trait MemoryStore: Sized {
    /// Whether storing `text` may change the memory from `before` to `after`
    /// and come to `stored`.
    open spec fn may_store(&self, text: Seq<char>, after: Self, stored: Result<(), AgentError>) -> bool {
        true
    }

    fn store_memory(&mut self, text: &str) -> (stored: Result<(), AgentError>)
        ensures
            old(self).may_store(text@, *final(self), stored),
    ;
}

/// A plugin: its name, the plugins it cannot run without, and what it does
/// around the cycles. Its commands stand in the [`Registry`].
pub struct Plugin<Y> {
    pub name: String,
    pub dependencies: Vec<String>,
    pub cycle: Y,
}

/// A language model with the conversation that is held with it: a standing
/// prompt, then the messages so far.
pub struct LLM<M> {
    pub prompt: Vec<Message>,
    pub message_history: Vec<Message>,
    pub model: M,
}

impl<M: LanguageModel> LLM<M> {
    /// The standing prompt followed by the messages so far.
    pub fn get_messages(&self) -> (messages: Vec<Message>)
        ensures
            message_views(messages@) == message_views(self.prompt@) + message_views(
                self.message_history@,
            ),
    {
        let mut messages: Vec<Message> = Vec::new();
        let mut i: usize = 0;
        while i < self.prompt.len()
            invariant
                i <= self.prompt.len(),
                message_views(messages@) == message_views(self.prompt@).take(i as int),
            decreases self.prompt.len() - i,
        {
            let ghost before = message_views(messages@);
            messages.push(self.prompt[i].clone());
            proof {
                assert(message_views(self.prompt@).take(i + 1) =~= before.push(
                    self.prompt@[i as int]@,
                ));
            }
            i += 1;
        }
        proof {
            assert(message_views(self.prompt@).take(self.prompt.len() as int) =~= message_views(
                self.prompt@,
            ));
        }
        let mut j: usize = 0;
        while j < self.message_history.len()
            invariant
                j <= self.message_history.len(),
                message_views(messages@) == message_views(self.prompt@) + message_views(
                    self.message_history@,
                ).take(j as int),
            decreases self.message_history.len() - j,
        {
            let ghost before = message_views(messages@);
            messages.push(self.message_history[j].clone());
            proof {
                let next = self.message_history@[j as int]@;
                assert(message_views(self.prompt@) + message_views(self.message_history@).take(
                    j + 1,
                ) =~= before.push(next));
            }
            j += 1;
        }
        proof {
            assert(message_views(self.message_history@).take(self.message_history.len() as int)
                =~= message_views(self.message_history@));
        }
        messages
    }
}

/// A delegated agent: its model and its long-term memory.
pub struct AgentInfo<M, S> {
    pub llm: LLM<M>,
    pub observations: S,
}

/// Everything that one run of the agent works with.
pub struct ProgramInfo<R, Y, M, P> {
    pub name: String,
    pub role: String,
    pub goals: Vec<String>,
    pub personality: String,
    pub plugins: Vec<Plugin<Y>>,
    pub registry: Registry<R>,
    pub disabled_commands: Vec<String>,
    pub context: CommandContext,
    /// The model that drives the run loop.
    pub model: M,
    /// The reader of that model's replies.
    pub parser: P,
    /// The delegated sub-agent that writes and runs scripts.
    pub minion: LLM<M>,
}

} // verus!
