//! One cycle of the agent: the prompt is written, the model is asked, its
//! commands are run, and the exchange enters the history. Around the cycle:
//! eviction before it, and a reset when the model fails too often.

use crate::agent::{
    CommandCall, LanguageModel, Plugin, PluginCycle, ProgramInfo, ResponseParser, Thought,
};
use crate::command::{
    dispatched, has_command, CommandContext, CommandImpl, EndGoals, PluginStore, Registry,
};
use crate::conversation::{
    evict_under_pressure, failure_of, pass_made, reset_after_failure, reset_ends_at, unreadable,
    EvictionReport, ResetReport, TOKEN_BUDGET,
};
use crate::document::{json_parsed, json_read, yaml_text, yaml_write};
use crate::error::{AgentError, ErrorModel, NoThoughtError};
use crate::history::{message_views, paired, answered, History, Message, MessageModel, Role};
use crate::prompt::{generate_prompt, prompt_written};
use crate::text::{
    join, join_texts, prefix, same_text, take_prefix, trim, trimmed, views,
};
use crate::value::{clone_values, quote, quoted, value_views, ScriptValue, ValueModel};
use vstd::prelude::*;
use vstd::utf8::encode_utf8;

verus! {

/// The number of times that a cycle is tried before the conversation is
/// started over.
pub const CYCLE_ATTEMPTS: usize = 5;

/// The number of characters that a printed report may have.
pub const REPORT_LIMIT: usize = 1500;

/// The goal that the agent has moved on to.
#[derive(Clone, Debug, PartialEq, Eq)]
pub struct NewEndGoal {
    pub new_end_goal: String,
}

/// What the history says when the agent moves on to `goal`.
pub open spec fn moved_on_text(goal: Seq<char>) -> Seq<char> {
    "You have moved onto your next endgoal: "@ + goal
}

impl NewEndGoal {
    /// What the history says of the move.
    pub fn message(&self) -> (text: String)
        ensures
            text@ == moved_on_text(self.new_end_goal@),
    {
        let mut text = String::from_str("You have moved onto your next endgoal: ");
        text.append(self.new_end_goal.as_str());
        text
    }
}

/// What closes the results of every cycle.
pub const CONTINUATION_HINT: &'static str = "\nAll commands have finished successfully.\n\
    Remember that you can use multiple commands in one query, and you can use the output of one command in another.\n\
    Take advantage of this! Try to do as much as possible in one query.\n\
    You may have up to three commands!\nContinue.";

/// What closes the results of every cycle.
pub open spec fn continuation_hint() -> Seq<char> {
    CONTINUATION_HINT@
}

/// What the last message of a request says of the current goal.
pub open spec fn endgoal_reminder(goal: Seq<char>) -> Seq<char> {
    "\n\nYour current endgoal is "@ + quoted(goal)
        + " Ensure the response can be parsed by Python json.loads"@
}

/// `messages` with `prompt` as the user's leading message.
pub open spec fn led_by(messages: Seq<MessageModel>, prompt: Seq<char>) -> Seq<MessageModel> {
    let leading = MessageModel { role: Role::User, content: prompt };
    if messages.len() == 0 {
        seq![leading]
    } else {
        messages.update(0, leading)
    }
}

/// What the model is sent: the history with `prompt` in the first place and
/// the reminder of the goal at the end of the last message.
pub open spec fn request_messages(
    history: Seq<MessageModel>,
    prompt: Seq<char>,
    goal: Seq<char>,
) -> Seq<MessageModel> {
    let led = led_by(history, prompt);
    let last = led.len() - 1;
    led.update(
        last,
        MessageModel {
            role: led[last].role,
            content: led[last].content + endgoal_reminder(goal),
        },
    )
}

/// The history after a cycle: what the model was sent, its reply, the
/// results of its commands, and a note where the agent moved on to a goal.
pub open spec fn committed(
    request: Seq<MessageModel>,
    reply: Seq<char>,
    results: Seq<char>,
    moved_on_to: Option<Seq<char>>,
) -> Seq<MessageModel> {
    let exchange = request.push(MessageModel { role: Role::Assistant, content: reply }).push(
        MessageModel { role: Role::User, content: results },
    );
    match moved_on_to {
        Some(goal) => exchange.push(
            MessageModel { role: Role::User, content: moved_on_text(goal) },
        ),
        None => exchange,
    }
}

/// The texts of the messages that the assistant wrote, in order.
pub open spec fn assistant_texts(messages: Seq<MessageModel>) -> Seq<Seq<char>>
    decreases messages.len(),
{
    if messages.len() == 0 {
        Seq::empty()
    } else if messages.last().role == Role::Assistant {
        assistant_texts(messages.drop_last()).push(messages.last().content)
    } else {
        assistant_texts(messages.drop_last())
    }
}

/// The replies of the assistant so far, one below the other; `None` while
/// the history holds no more than the standing message.
pub fn previous_replies(history: &History) -> (replies: Option<String>)
    ensures
        match replies {
            Some(text) => history@.len() > 1 && text@ == join(assistant_texts(history@), "\n"@),
            None => history@.len() <= 1,
        },
{
    if history.len() <= 1 {
        return None;
    }
    let mut replies: Vec<String> = Vec::new();
    let mut i: usize = 0;
    while i < history.len()
        invariant
            i <= history@.len(),
            views(replies@) == assistant_texts(history@.take(i as int)),
        decreases history@.len() - i,
    {
        proof {
            assert(history@.take(i + 1).drop_last() =~= history@.take(i as int));
        }
        let message = history.get(i);
        if message.is_assistant() {
            replies.push(message.content());
        }
        i += 1;
    }
    proof {
        assert(history@.take(history@.len() as int) =~= history@);
    }
    Some(join_texts(&replies, "\n"))
}

/// Builds what the model is sent.
pub fn build_request(history: &History, prompt: &str, goal: &str) -> (request: Vec<Message>)
    ensures
        message_views(request@) == request_messages(history@, prompt@, goal@),
        paired(message_views(request@)),
{
    history.witness_pairing();
    let mut request = history.messages();
    let leading = Message::User(String::from_str(prompt));
    if request.len() == 0 {
        request.push(leading);
    } else {
        request.set(0, leading);
    }
    let ghost led = message_views(request@);
    let last = request.len() - 1;
    let mut closing = request[last].clone();
    let mut text = closing.content();
    text.append("\n\nYour current endgoal is ");
    text.append(quote(goal).as_str());
    text.append(" Ensure the response can be parsed by Python json.loads");
    proof {
        assert(text@ =~= led[last as int].content + endgoal_reminder(goal@));
    }
    closing.set_content(text.as_str());
    request.set(last, closing);
    proof {
        let sent = message_views(request@);
        assert(sent =~= led.update(
            last as int,
            MessageModel { role: led[last as int].role, content: text@ },
        ));
        assert forall|i: int| 0 <= i < sent.len() implies #[trigger] answered(sent, i) by {
            if history@.len() > 0 {
                assert(answered(history@, i));
            }
        }
    }
    request
}

/// Whether running `calls` in order in the context `before` may leave the
/// context `after` and end in `failure` or in none: each call is dispatched
/// in the context that the one before it left, and the first failure ends the
/// run.
pub open spec fn query_ran<R: CommandImpl>(
    registry: Registry<R>,
    before: CommandContext,
    calls: Seq<CommandCall>,
    after: CommandContext,
    failure: Option<AgentError>,
) -> bool
    decreases calls.len(),
{
    if calls.len() == 0 {
        after == before && failure is None
    } else {
        exists|left: CommandContext, first: Result<ScriptValue, AgentError>|
            {
                &&& #[trigger] dispatched(
                    registry,
                    before,
                    calls[0].name@,
                    value_views(calls[0].args@),
                    left,
                    first,
                )
                &&& match first {
                    Ok(_) => query_ran(registry, left, calls.skip(1), after, failure),
                    Err(e) => after == left && failure == Some(e),
                }
            }
    }
}

/// Runs the commands that the model asked for, in order. The first failure
/// ends the run and is handed on as it came.
pub fn run_query<R: CommandImpl>(
    registry: &Registry<R>,
    context: &mut CommandContext,
    query: &Vec<CommandCall>,
) -> (outcome: Result<(), AgentError>)
    ensures
        query_ran(*registry, *old(context), query@, *final(context), failure_of(outcome)),
{
    let mut i: usize = 0;
    proof {
        assert(query@.skip(0) =~= query@);
    }
    while i < query.len()
        invariant
            i <= query.len(),
            forall|after: CommandContext, failure: Option<AgentError>| #[trigger]
                query_ran(*registry, *context, query@.skip(i as int), after, failure)
                    ==> query_ran(*registry, *old(context), query@, after, failure),
        decreases query.len() - i,
    {
        let ghost here = *context;
        let ghost rest = query@.skip(i as int);
        let args = clone_values(&query[i].args);
        let first = registry.dispatch(context, query[i].name.as_str(), args);
        proof {
            assert(rest[0] == query@[i as int]);
            assert(rest.skip(1) =~= query@.skip(i + 1));
            assert(dispatched(
                *registry,
                here,
                rest[0].name@,
                value_views(rest[0].args@),
                *context,
                first,
            ));
        }
        match first {
            Ok(_) => {
                proof {
                    assert forall|after: CommandContext, failure: Option<AgentError>| #[trigger]
                        query_ran(
                            *registry,
                            *context,
                            query@.skip(i + 1),
                            after,
                            failure,
                        ) implies query_ran(*registry, *old(context), query@, after, failure) by {
                        assert(query_ran(*registry, here, rest, after, failure));
                    }
                }
            },
            Err(e) => {
                proof {
                    assert(query_ran(*registry, here, rest, *context, Some(e)));
                }
                return Err(e);
            },
        }
        i += 1;
    }
    proof {
        assert(query_ran(*registry, *context, query@.skip(i as int), *context, None));
    }
    Ok(())
}

/// What one cycle did.
#[derive(Clone, Debug, PartialEq, Eq)]
pub struct CycleReport {
    /// The model's reply, read into its parts.
    pub thought: Thought,
    /// The prompt that opened the cycle.
    pub prompt: String,
    /// The model's reply as it came.
    pub reply: String,
    /// What the commands reported, closed by the standing hint.
    pub results: String,
    /// The goal that the agent moved on to, if it moved on.
    pub moved_on_to: Option<NewEndGoal>,
}

/// The results of a cycle as one text: the entries of the transcript and the
/// standing hint, one below the other.
pub open spec fn results_text(out: Seq<Seq<char>>) -> Seq<char> {
    join(out.push(continuation_hint()), "\n"@)
}

/// Closes the transcript of a cycle with the standing hint and writes it as
/// one text.
pub fn close_results(out: &mut Vec<String>) -> (results: String)
    ensures
        views(final(out)@) == views(old(out)@).push(continuation_hint()),
        results@ == results_text(views(old(out)@)),
{
    let ghost before = views(out@);
    out.push(String::from_str(CONTINUATION_HINT));
    proof {
        assert(views(out@) =~= before.push(continuation_hint()));
    }
    join_texts(out, "\n")
}

/// The goals after a cycle that ran with the goals `ran`: the agent has
/// moved on to the next goal where the cycle reached the current one and a
/// goal was left to move on from.
pub open spec fn goals_after(ran: EndGoals, after: EndGoals, reached: bool) -> bool {
    &&& after.goals == ran.goals
    &&& after.end_goal == if reached && ran.end_goal < ran.goals@.len() {
        ran.end_goal + 1
    } else {
        ran.end_goal as int
    }
}

/// What the plugins are told of the cycles before: the replies of the
/// assistant so far, and nothing while the history holds no more than the
/// standing message.
pub open spec fn previous_prompt_of(history: Seq<MessageModel>) -> Option<Seq<char>> {
    if history.len() > 1 {
        Some(join(assistant_texts(history), "\n"@))
    } else {
        None
    }
}

/// Whether a cycle that went through may have changed the program from
/// `before` to `after` and come to `report`, by way of the context `asked`
/// in which the commands began to run and the context `ran` that they left.
pub open spec fn cycle_went_through<
    R: CommandImpl,
    Y: PluginCycle,
    M: LanguageModel,
    P: ResponseParser,
>(
    before: ProgramInfo<R, Y, M, P>,
    asked: CommandContext,
    ran: CommandContext,
    after: ProgramInfo<R, Y, M, P>,
    report: CycleReport,
) -> bool {
    let goal = before.context.end_goals.current();
    let request = request_messages(before.context.history@, report.prompt@, goal);
    let reached = report.thought.will_be_done_with_plan;
    &&& prompt_written(
        before.registry,
        before.plugins@,
        views(before.disabled_commands@),
        before.context.store,
        before.name@,
        before.role@,
        goal,
        previous_prompt_of(before.context.history@),
        asked.store,
        Ok(report.prompt),
    )
    &&& before.model.may_reply(request, None, None, Ok(report.reply))
    &&& before.parser.may_read(report.reply@, Some(report.thought))
    &&& asked.history == before.context.history
    &&& asked.end_goals == before.context.end_goals
    &&& asked.command_out@.len() == 0
    &&& query_ran(before.registry, asked, report.thought.command_query@, ran, None)
    &&& report.results@ == results_text(views(ran.command_out@))
    &&& after.context.store == ran.store
    &&& views(after.context.command_out@) == views(ran.command_out@).push(continuation_hint())
    &&& goals_after(ran.end_goals, after.context.end_goals, reached)
    &&& report.moved_on_to is Some == reached
    &&& report.moved_on_to matches Some(next) ==> next.new_end_goal@
        == after.context.end_goals.current()
    &&& after.context.history@ == committed(
        request,
        report.reply@,
        report.results@,
        match report.moved_on_to {
            Some(next) => Some(next.new_end_goal@),
            None => None,
        },
    )
}

/// Where a cycle failed, with what it had come to by then.
pub enum FailedAt {
    /// The prompt could not be written.
    Prompt,
    /// The model gave no reply to the request with this prompt.
    Model { prompt: String },
    /// The model's reply could not be read.
    Reply { prompt: String, reply: String },
    /// A command failed: the commands began to run in the context `asked`
    /// and left the context `ran`.
    Query { prompt: String, reply: String, thought: Thought, asked: CommandContext, ran: CommandContext },
}

/// Whether writing the prompt of a cycle may leave the store `store` and
/// come to `prompt`.
pub open spec fn prompt_begun<R: CommandImpl, Y: PluginCycle, M, P>(
    before: ProgramInfo<R, Y, M, P>,
    store: PluginStore,
    prompt: Result<String, AgentError>,
) -> bool {
    prompt_written(
        before.registry,
        before.plugins@,
        views(before.disabled_commands@),
        before.context.store,
        before.name@,
        before.role@,
        before.context.end_goals.current(),
        previous_prompt_of(before.context.history@),
        store,
        prompt,
    )
}

/// Whether `after` differs from `before` in nothing but what the plugins
/// keep.
pub open spec fn only_store_changed(before: CommandContext, after: CommandContext) -> bool {
    &&& after.history == before.history
    &&& after.end_goals == before.end_goals
    &&& after.command_out == before.command_out
}

/// Whether a cycle that failed at `at` with `e` may have changed the program
/// from `before` to `after`.
///
/// A failed cycle leaves the history as it was. Where the prompt could not
/// be written, the model gave no reply or the reply could not be read,
/// nothing has changed but what the plugins keep, and the failure is the
/// one of the plugin or of the model, as it came, or says that no thought
/// was found. Where a command failed, its failure is handed on as it came,
/// and the store, the transcript and the goals are what the commands left.
pub open spec fn cycle_failed<R: CommandImpl, Y: PluginCycle, M: LanguageModel, P: ResponseParser>(
    before: ProgramInfo<R, Y, M, P>,
    at: FailedAt,
    after: ProgramInfo<R, Y, M, P>,
    e: AgentError,
) -> bool {
    let goal = before.context.end_goals.current();
    &&& after.context.history@ == before.context.history@
    &&& match at {
        FailedAt::Prompt => {
            &&& prompt_begun(before, after.context.store, Err(e))
            &&& only_store_changed(before.context, after.context)
        },
        FailedAt::Model { prompt } => {
            &&& prompt_begun(before, after.context.store, Ok(prompt))
            &&& before.model.may_reply(
                request_messages(before.context.history@, prompt@, goal),
                None,
                None,
                Err(e),
            )
            &&& only_store_changed(before.context, after.context)
        },
        FailedAt::Reply { prompt, reply } => {
            &&& prompt_begun(before, after.context.store, Ok(prompt))
            &&& before.model.may_reply(
                request_messages(before.context.history@, prompt@, goal),
                None,
                None,
                Ok(reply),
            )
            &&& before.parser.may_read(reply@, None)
            &&& e@ == unreadable()
            &&& only_store_changed(before.context, after.context)
        },
        FailedAt::Query { prompt, reply, thought, asked, ran } => {
            &&& prompt_begun(before, asked.store, Ok(prompt))
            &&& before.model.may_reply(
                request_messages(before.context.history@, prompt@, goal),
                None,
                None,
                Ok(reply),
            )
            &&& before.parser.may_read(reply@, Some(thought))
            &&& asked.history == before.context.history
            &&& asked.end_goals == before.context.end_goals
            &&& asked.command_out@.len() == 0
            &&& query_ran(before.registry, asked, thought.command_query@, ran, Some(e))
            &&& after.context.store == ran.store
            &&& after.context.command_out == ran.command_out
            &&& after.context.end_goals == ran.end_goals
        },
    }
}

/// A query whose first call names no command of the registry runs nothing:
/// it ends in `CommandNotFound` with that name, and the context is as it was.
pub proof fn lemma_unknown_command_runs_nothing<R: CommandImpl>(
    registry: Registry<R>,
    before: CommandContext,
    calls: Seq<CommandCall>,
    after: CommandContext,
    failure: Option<AgentError>,
)
    requires
        query_ran(registry, before, calls, after, failure),
        calls.len() > 0,
        !has_command(registry@, calls[0].name@),
    ensures
        after == before,
        failure is Some,
        failure->0@ == ErrorModel::CommandNotFound(calls[0].name@),
{
    let (left, first) = choose|left: CommandContext, first: Result<ScriptValue, AgentError>|
        {
            &&& #[trigger] dispatched(
                registry,
                before,
                calls[0].name@,
                value_views(calls[0].args@),
                left,
                first,
            )
            &&& match first {
                Ok(_) => query_ran(registry, left, calls.skip(1), after, failure),
                Err(e) => after == left && failure == Some(e),
            }
        };
}

/// A cycle that fails because the first command it is to run is unknown
/// fails with `CommandNotFound`, and leaves the history, the goals and the
/// store of the plugins as they were when the commands were to run.
pub proof fn lemma_cycle_with_unknown_command<
    R: CommandImpl,
    Y: PluginCycle,
    M: LanguageModel,
    P: ResponseParser,
>(before: ProgramInfo<R, Y, M, P>, at: FailedAt, after: ProgramInfo<R, Y, M, P>, e: AgentError)
    requires
        cycle_failed(before, at, after, e),
        at is Query,
        at->Query_thought.command_query@.len() > 0,
        !has_command(before.registry@, at->Query_thought.command_query@[0].name@),
    ensures
        e@ == ErrorModel::CommandNotFound(at->Query_thought.command_query@[0].name@),
        after.context.history@ == before.context.history@,
        after.context.end_goals == before.context.end_goals,
        after.context.store == at->Query_asked.store,
        after.context.command_out@.len() == 0,
{
    lemma_unknown_command_runs_nothing(
        before.registry,
        at->Query_asked,
        at->Query_thought.command_query@,
        at->Query_ran,
        Some(e),
    );
}

/// One cycle of the agent.
///
/// The prompt is written from the current goal, the fragments of the plugins
/// and the commands that are not disabled. The model is sent the history
/// with the prompt in the first place. Its reply is read, the commands it
/// asks for are run, and only then the history changes: it becomes what the
/// model was sent, followed by the reply and the results; where the reply
/// says that the goal is reached, the agent moves on to the next goal and
/// the history notes it. A cycle that fails leaves no exchange behind: the
/// history is then as it was before the cycle.
pub fn apply_process<R: CommandImpl, Y: PluginCycle, M: LanguageModel, P: ResponseParser>(
    program: &mut ProgramInfo<R, Y, M, P>,
) -> (outcome: Result<CycleReport, AgentError>)
    ensures
        same_parts(*old(program), *final(program)),
        final(program).minion == old(program).minion,
        paired(final(program).context.history@),
        match outcome {
            Ok(report) => exists|asked: CommandContext, ran: CommandContext| #[trigger]
                cycle_went_through(*old(program), asked, ran, *final(program), report),
            Err(e) => exists|at: FailedAt| #[trigger]
                cycle_failed(*old(program), at, *final(program), e),
        },
{
    let previous = previous_replies(&program.context.history);
    let goal = program.context.end_goals.get();
    let previous_prompt: Option<&str> = match &previous {
        Some(text) => Some(text.as_str()),
        None => None,
    };
    program.context.history.witness_pairing();
    let written = generate_prompt(
        &mut program.context.store,
        program.name.as_str(),
        program.role.as_str(),
        goal.as_str(),
        &program.disabled_commands,
        &program.registry,
        &program.plugins,
        previous_prompt,
    );
    let prompt = match written {
        Ok(prompt) => prompt,
        Err(e) => {
            proof {
                assert(cycle_failed(*old(program), FailedAt::Prompt, *program, e));
            }
            return Err(e);
        },
    };
    let mut messages = build_request(&program.context.history, prompt.as_str(), goal.as_str());
    let ghost request = message_views(messages@);
    let reply = match program.model.get_response(&messages, None, None) {
        Ok(reply) => reply,
        Err(e) => {
            proof {
                assert(cycle_failed(*old(program), FailedAt::Model { prompt }, *program, e));
            }
            return Err(e);
        },
    };
    let thought = match program.parser.parse_response(reply.as_str()) {
        Some(thought) => thought,
        None => {
            let e = AgentError::ResponseParseError(NoThoughtError.message());
            proof {
                assert(cycle_failed(
                    *old(program),
                    FailedAt::Reply { prompt, reply },
                    *program,
                    e,
                ));
            }
            return Err(e);
        },
    };
    let kept = program.context.history.messages();
    program.context.command_out.clear();
    let ghost asked = program.context;
    let query_outcome = run_query(&program.registry, &mut program.context, &thought.command_query);
    let ghost ran = program.context;
    match query_outcome {
        Ok(()) => {},
        Err(e) => {
            program.context.history = History::from_paired(kept);
            proof {
                assert(cycle_failed(
                    *old(program),
                    FailedAt::Query { prompt, reply, thought, asked, ran },
                    *program,
                    e,
                ));
            }
            return Err(e);
        },
    }
    let results = close_results(&mut program.context.command_out);
    messages.push(Message::Assistant(reply.clone()));
    messages.push(Message::User(results.clone()));
    let moved_on_to = if thought.will_be_done_with_plan {
        program.context.end_goals.advance();
        let next = NewEndGoal { new_end_goal: program.context.end_goals.get() };
        messages.push(Message::User(next.message()));
        Some(next)
    } else {
        None
    };
    proof {
        let after = message_views(messages@);
        let moved = if moved_on_to is Some {
            Some(moved_on_to->0.new_end_goal@)
        } else {
            None
        };
        assert(after =~= committed(request, reply@, results@, moved));
        assert forall|i: int| 0 <= i < after.len() implies #[trigger] answered(after, i) by {
            if i < request.len() {
                assert(answered(request, i));
            }
        }
    }
    program.context.history = History::from_paired(messages);
    let report = CycleReport { thought, prompt, reply, results, moved_on_to };
    proof {
        assert(cycle_went_through(*old(program), asked, ran, *program, report));
    }
    Ok(report)
}

/// How a round of the run loop ended.
#[derive(Clone, Debug, PartialEq, Eq)]
pub enum CycleOutcome {
    /// A cycle went through, after the attempts before it had failed with
    /// `failures`.
    Completed { report: CycleReport, failures: Vec<AgentError>, eviction: EvictionReport },
    /// Every attempt failed, with `failures` in this order, and the
    /// conversation was started over.
    Reset { failures: Vec<AgentError>, reset: ResetReport, eviction: EvictionReport },
}

/// Whether `at` differs from `before` in nothing but its context and its
/// sub-agent.
pub open spec fn same_parts<R, Y, M, P>(
    before: ProgramInfo<R, Y, M, P>,
    at: ProgramInfo<R, Y, M, P>,
) -> bool {
    &&& at.registry == before.registry
    &&& at.plugins == before.plugins
    &&& at.disabled_commands == before.disabled_commands
    &&& at.model == before.model
    &&& at.parser == before.parser
    &&& at.name == before.name
    &&& at.role == before.role
    &&& at.goals == before.goals
    &&& at.personality == before.personality
}

/// Whether the attempts at a cycle that failed with `failures`, in this
/// order, may have changed the program from `from` to `to`: each attempt is
/// a failed cycle, and begins where the one before it ended.
pub open spec fn attempts_failed<
    R: CommandImpl,
    Y: PluginCycle,
    M: LanguageModel,
    P: ResponseParser,
>(from: ProgramInfo<R, Y, M, P>, failures: Seq<AgentError>, to: ProgramInfo<R, Y, M, P>) -> bool
    decreases failures.len(),
{
    if failures.len() == 0 {
        to == from
    } else {
        exists|before: ProgramInfo<R, Y, M, P>, at: FailedAt|
            {
                &&& #[trigger] cycle_failed(before, at, to, failures.last())
                &&& same_parts(before, to)
                &&& to.minion == before.minion
                &&& attempts_failed(from, failures.drop_last(), before)
            }
    }
}

/// Whether a round may begin as `start` when the program was `before`: a
/// pass of eviction has come to `eviction` and left the context `evicted`,
/// and nothing else has changed.
pub open spec fn round_begun<R: CommandImpl, Y: PluginCycle, M: LanguageModel, P: ResponseParser>(
    before: ProgramInfo<R, Y, M, P>,
    evicted: CommandContext,
    eviction: EvictionReport,
    start: ProgramInfo<R, Y, M, P>,
) -> bool {
    &&& same_parts(before, start)
    &&& start.minion == before.minion
    &&& start.context == evicted
    &&& pass_made(
        before.plugins@,
        before.model,
        before.parser,
        TOKEN_BUDGET,
        before.context,
        evicted,
        Ok(eviction),
    )
}

/// Whether a round may have changed the program from `before` to `after` and
/// come to `outcome`, by way of the context `evicted` that the pass of
/// eviction left, the program `start` with which the attempts began and the
/// program `at` the last attempt or the reset.
///
/// The round begins with a pass of eviction. Then come the attempts that
/// failed, as many as there are failures, each a failed cycle. A round that
/// completed ended in a cycle that went through, from the context `asked` in
/// which the commands began to run to the context `ran` that they left. A
/// round that was reset ended, after [`CYCLE_ATTEMPTS`] failures, in a reset
/// that left no message.
pub open spec fn round_went<R: CommandImpl, Y: PluginCycle, M: LanguageModel, P: ResponseParser>(
    before: ProgramInfo<R, Y, M, P>,
    evicted: CommandContext,
    start: ProgramInfo<R, Y, M, P>,
    at: ProgramInfo<R, Y, M, P>,
    asked: CommandContext,
    ran: CommandContext,
    after: ProgramInfo<R, Y, M, P>,
    outcome: CycleOutcome,
) -> bool {
    match outcome {
        CycleOutcome::Completed { report, failures, eviction } => {
            &&& round_begun(before, evicted, eviction, start)
            &&& failures@.len() < CYCLE_ATTEMPTS
            &&& attempts_failed(start, failures@, at)
            &&& cycle_went_through(at, asked, ran, after, report)
        },
        CycleOutcome::Reset { failures, reset, eviction } => {
            &&& round_begun(before, evicted, eviction, start)
            &&& failures@.len() == CYCLE_ATTEMPTS
            &&& attempts_failed(start, failures@, at)
            &&& after.context.history@ == Seq::<MessageModel>::empty()
            &&& after.context.command_out == at.context.command_out
            &&& after.context.end_goals == at.context.end_goals
            &&& reset_ends_at(
                before.plugins@,
                before.parser,
                at.context.history@,
                at.context.store,
                after.context.history@,
                after.context.store,
                None,
            )
        },
    }
}

/// How a round failed.
pub enum RoundFailure<R, Y, M, P> {
    /// The pass of eviction failed.
    Eviction,
    /// The reset failed, after the pass of eviction had come to `eviction`
    /// and left the context `evicted`, and the attempts had failed with
    /// `failures` and changed the program from `start` to `at`.
    Reset {
        evicted: CommandContext,
        eviction: EvictionReport,
        start: ProgramInfo<R, Y, M, P>,
        failures: Seq<AgentError>,
        at: ProgramInfo<R, Y, M, P>,
    },
}

/// Whether a round that failed in the way `how` with `e` may have changed
/// the program from `before` to `after`: the failure is that of the pass of
/// eviction, or that of the reset that followed [`CYCLE_ATTEMPTS`] failed
/// attempts, as it came.
pub open spec fn round_failed<R: CommandImpl, Y: PluginCycle, M: LanguageModel, P: ResponseParser>(
    before: ProgramInfo<R, Y, M, P>,
    how: RoundFailure<R, Y, M, P>,
    after: ProgramInfo<R, Y, M, P>,
    e: AgentError,
) -> bool {
    match how {
        RoundFailure::Eviction => pass_made(
            before.plugins@,
            before.model,
            before.parser,
            TOKEN_BUDGET,
            before.context,
            after.context,
            Err(e),
        ),
        RoundFailure::Reset { evicted, eviction, start, failures, at } => {
            &&& round_begun(before, evicted, eviction, start)
            &&& failures.len() == CYCLE_ATTEMPTS
            &&& attempts_failed(start, failures, at)
            &&& after.context.command_out == at.context.command_out
            &&& after.context.end_goals == at.context.end_goals
            &&& reset_ends_at(
                before.plugins@,
                before.parser,
                at.context.history@,
                at.context.store,
                after.context.history@,
                after.context.store,
                Some(e),
            )
        },
    }
}

/// One round of the run loop.
///
/// First the oldest exchanges leave the history while it is over the token
/// budget. Then the cycle is tried, up to [`CYCLE_ATTEMPTS`] times. When every
/// attempt has failed, the conversation is started over, which is a way on
/// and no failure of the round. The round fails only where a plugin could
/// not be told of an exchange that left the history, or such an exchange
/// could not be read.
pub fn run_cycle<R: CommandImpl, Y: PluginCycle, M: LanguageModel, P: ResponseParser>(
    program: &mut ProgramInfo<R, Y, M, P>,
) -> (outcome: Result<CycleOutcome, AgentError>)
    ensures
        same_parts(*old(program), *final(program)),
        final(program).minion == old(program).minion,
        paired(final(program).context.history@),
        match outcome {
            Ok(made) => exists|
                evicted: CommandContext,
                start: ProgramInfo<R, Y, M, P>,
                at: ProgramInfo<R, Y, M, P>,
                asked: CommandContext,
                ran: CommandContext,
            | #[trigger]
                round_went(*old(program), evicted, start, at, asked, ran, *final(program), made),
            Err(e) => {
                &&& e@ == unreadable() || e is CollaboratorNotificationFailed
                &&& exists|how: RoundFailure<R, Y, M, P>| #[trigger]
                    round_failed(*old(program), how, *final(program), e)
            },
        },
{
    let eviction = match evict_under_pressure(
        &mut program.context,
        TOKEN_BUDGET,
        &program.plugins,
        &program.model,
        &program.parser,
    ) {
        Ok(report) => report,
        Err(e) => {
            proof {
                assert(round_failed(*old(program), RoundFailure::Eviction, *program, e));
            }
            return Err(e);
        },
    };
    let ghost evicted = program.context;
    let ghost start = *program;
    let mut failures: Vec<AgentError> = Vec::new();
    while failures.len() < CYCLE_ATTEMPTS
        invariant
            failures@.len() <= CYCLE_ATTEMPTS,
            same_parts(*old(program), *program),
            program.minion == old(program).minion,
            paired(program.context.history@),
            round_begun(*old(program), evicted, eviction, start),
            attempts_failed(start, failures@, *program),
        decreases CYCLE_ATTEMPTS - failures@.len(),
    {
        let ghost at = *program;
        let ghost so_far = failures@;
        match apply_process(program) {
            Ok(report) => {
                let made = CycleOutcome::Completed { report, failures, eviction };
                proof {
                    let (asked, ran) = choose|asked: CommandContext, ran: CommandContext| #[trigger]
                        cycle_went_through(at, asked, ran, *program, report);
                    assert(round_went(
                        *old(program),
                        evicted,
                        start,
                        at,
                        asked,
                        ran,
                        *program,
                        made,
                    ));
                }
                return Ok(made);
            },
            Err(e) => {
                failures.push(e);
                proof {
                    let way = choose|way: FailedAt| #[trigger]
                        cycle_failed(at, way, *program, e);
                    assert(failures@.drop_last() =~= so_far);
                    assert(failures@.last() == e);
                    assert(cycle_failed(at, way, *program, failures@.last()));
                    assert(attempts_failed(start, failures@, *program));
                }
            },
        }
    }
    let ghost at = *program;
    let reset = match reset_after_failure(
        &mut program.context,
        &program.plugins,
        &program.parser,
    ) {
        Ok(report) => report,
        Err(e) => {
            proof {
                assert(round_failed(
                    *old(program),
                    RoundFailure::Reset { evicted, eviction, start, failures: failures@, at },
                    *program,
                    e,
                ));
            }
            return Err(e);
        },
    };
    let made = CycleOutcome::Reset { failures, reset, eviction };
    proof {
        assert(round_went(
            *old(program),
            evicted,
            start,
            at,
            at.context,
            at.context,
            *program,
            made,
        ));
    }
    Ok(made)
}

/// Whether asking `plugins` in order what they want to keep for the run may
/// change what the store holds from `before` to `after`: what a plugin
/// creates is kept under the plugin's name.
pub open spec fn data_created<Y: PluginCycle>(
    plugins: Seq<Plugin<Y>>,
    before: Map<Seq<char>, ValueModel>,
    after: Map<Seq<char>, ValueModel>,
) -> bool
    decreases plugins.len(),
{
    if plugins.len() == 0 {
        after == before
    } else {
        exists|data: Option<ScriptValue>|
            {
                &&& #[trigger] plugins[0].cycle.may_create(ValueModel::Bool(true), data)
                &&& data_created(
                    plugins.skip(1),
                    match data {
                        Some(kept) => before.insert(plugins[0].name@, kept@),
                        None => before,
                    },
                    after,
                )
            }
    }
}

/// Asks every plugin, in order, what it wants to keep for the run, and keeps
/// it in `store` under the plugin's name.
pub fn create_plugin_data<Y: PluginCycle>(plugins: &Vec<Plugin<Y>>, store: &mut PluginStore)
    ensures
        data_created(plugins@, old(store)@, final(store)@),
{
    let mut i: usize = 0;
    proof {
        assert(plugins@.skip(0) =~= plugins@);
    }
    while i < plugins.len()
        invariant
            i <= plugins.len(),
            forall|after: Map<Seq<char>, ValueModel>| #[trigger]
                data_created(plugins@.skip(i as int), store@, after) ==> data_created(
                    plugins@,
                    old(store)@,
                    after,
                ),
        decreases plugins.len() - i,
    {
        let ghost here = store@;
        let ghost rest = plugins@.skip(i as int);
        let data = plugins[i].cycle.create_data(ScriptValue::Bool(true));
        let ghost made = data;
        proof {
            assert(rest[0] == plugins@[i as int]);
            assert(rest.skip(1) =~= plugins@.skip(i + 1));
            assert(rest[0].cycle.may_create(ValueModel::Bool(true), made));
        }
        match data {
            Some(kept) => store.insert(plugins[i].name.as_str(), kept),
            None => {},
        }
        proof {
            assert forall|after: Map<Seq<char>, ValueModel>| #[trigger]
                data_created(plugins@.skip(i + 1), store@, after) implies data_created(
                plugins@,
                old(store)@,
                after,
            ) by {
                assert(data_created(rest, here, after));
            }
        }
        i += 1;
    }
    proof {
        assert(data_created(plugins@.skip(i as int), store@, store@));
    }
}

/// Where a dependency stands that names no plugin: the place of the plugin
/// and the place of the dependency in it.
pub open spec fn is_missing<Y>(plugins: Seq<Plugin<Y>>, at: int, dependency: int) -> bool {
    &&& 0 <= at < plugins.len()
    &&& 0 <= dependency < plugins[at].dependencies@.len()
    &&& forall|k: int|
        0 <= k < plugins.len() ==> (#[trigger] plugins[k]).name@
            != plugins[at].dependencies@[dependency]@
}

fn names_a_plugin<Y>(plugins: &Vec<Plugin<Y>>, wanted: &str) -> (found: bool)
    ensures
        found == exists|k: int| 0 <= k < plugins@.len() && (#[trigger] plugins@[k]).name@ == wanted@,
{
    let mut k: usize = 0;
    while k < plugins.len()
        invariant
            k <= plugins.len(),
            forall|j: int| 0 <= j < k ==> (#[trigger] plugins@[j]).name@ != wanted@,
        decreases plugins.len() - k,
    {
        if same_text(plugins[k].name.as_str(), wanted) {
            return true;
        }
        k += 1;
    }
    false
}

/// The first dependency that names no plugin, if there is one: a run cannot
/// start while a plugin lacks what it depends on.
pub fn first_missing_dependency<Y>(plugins: &Vec<Plugin<Y>>) -> (missing: Option<(usize, usize)>)
    ensures
        match missing {
            Some((at, dependency)) => {
                &&& is_missing(plugins@, at as int, dependency as int)
                &&& forall|a: int, d: int| 0 <= a < at ==> !is_missing(plugins@, a, d)
                &&& forall|d: int| 0 <= d < dependency ==> !is_missing(plugins@, at as int, d)
            },
            None => forall|at: int, dependency: int| !is_missing(plugins@, at, dependency),
        },
{
    let mut at: usize = 0;
    while at < plugins.len()
        invariant
            at <= plugins.len(),
            forall|a: int, d: int| 0 <= a < at ==> !is_missing(plugins@, a, d),
        decreases plugins.len() - at,
    {
        let mut dependency: usize = 0;
        while dependency < plugins[at as usize].dependencies.len()
            invariant
                at < plugins.len(),
                dependency <= plugins@[at as int].dependencies@.len(),
                forall|a: int, d: int| 0 <= a < at ==> !is_missing(plugins@, a, d),
                forall|d: int| 0 <= d < dependency ==> !is_missing(plugins@, at as int, d),
            decreases plugins@[at as int].dependencies@.len() - dependency,
        {
            let wanted = plugins[at].dependencies[dependency].as_str();
            if !names_a_plugin(plugins, wanted) {
                return Some((at, dependency));
            }
            dependency += 1;
        }
        at += 1;
    }
    None
}

/// The YAML text for the JSON text `json`: what the YAML writer makes of the
/// document that the JSON parser reads; `None` where either fails.
pub open spec fn yaml_rendering(json: Seq<char>) -> Option<Seq<char>> {
    match json_parsed(json) {
        Some(doc) => yaml_text(doc),
        None => None,
    }
}

/// Reads `json` and writes what it holds as YAML.
fn json_as_yaml(json: &str) -> (yaml: Option<String>)
    ensures
        match yaml {
            Some(text) => yaml_rendering(json@) == Some(text@),
            None => yaml_rendering(json@) is None,
        },
{
    match json_read(json) {
        Some(value) => yaml_write(&value),
        None => None,
    }
}

/// A report as the terminal shows it: cut after [`REPORT_LIMIT`] characters,
/// with a note of the cut, where its UTF-8 form is longer than that many
/// bytes.
pub open spec fn shortened(report: Seq<char>) -> Seq<char> {
    if encode_utf8(report).len() > REPORT_LIMIT {
        prefix(report, REPORT_LIMIT as nat) + "... (chopped off at 1,500 characters)"@
    } else {
        report
    }
}

/// Shortens a report for the terminal.
pub fn shorten_report(report: &str) -> (short: String)
    ensures
        short@ == shortened(report@),
{
    if report.as_bytes().len() > REPORT_LIMIT {
        let mut short = take_prefix(report, REPORT_LIMIT);
        short.append("... (chopped off at 1,500 characters)");
        short
    } else {
        String::from_str(report)
    }
}

/// Turns the JSON results of a command into the YAML text that the terminal
/// shows: without white space at either end, and shortened.
pub fn debug_yaml(results: &str) -> (outcome: Result<String, AgentError>)
    ensures
        match yaml_rendering(results@) {
            Some(yaml) => outcome is Ok && outcome->Ok_0@ == shortened(trimmed(yaml)),
            None => outcome is Err && outcome->Err_0@ == ErrorModel::ResponseParseError(
                results@,
            ),
        },
{
    match json_as_yaml(results) {
        Some(yaml) => {
            let tidy = trim(yaml.as_str());
            Ok(shorten_report(tidy.as_str()))
        },
        None => Err(AgentError::ResponseParseError(String::from_str(results))),
    }
}

} // verus!
