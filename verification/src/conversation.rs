//! Keeping the conversation inside the model's token budget, and starting it
//! over after the model has failed too often.

use crate::agent::{LanguageModel, Plugin, PluginCycle, ResponseParser, Thought};
use crate::command::{CommandContext, PluginStore};
use crate::error::{error_text, AgentError, ErrorModel, NoThoughtError};
use crate::history::{
    answered, assistant_turns, contents, oldest_unit, paired, whole_text, without_oldest, Evicted,
    History, MessageModel, Role,
};
use crate::text::concat_all;
use vstd::prelude::*;

verus! {

/// The number of tokens that a conversation may hold before the oldest
/// exchanges are taken out.
pub const TOKEN_BUDGET: usize = 3200;

/// Once more tokens than this have been saved in one pass, and at least
/// [`MIN_STEPS`] steps were made, the pass ends.
pub const SAVINGS_THRESHOLD: usize = 2000;

/// The number of steps before which a pass over budget does not end early.
pub const MIN_STEPS: usize = 2;

/// What one pass of eviction did.
#[derive(Clone, Copy, Debug, PartialEq, Eq, Structural)]
pub struct EvictionReport {
    /// The number of eviction steps.
    pub steps: usize,
    /// The number of messages that left the history.
    pub removed: usize,
    /// The number of exchanges among them.
    pub exchanges: usize,
    /// The number of times a plugin was told of an exchange that left.
    pub notifications: u128,
    /// The token count before the first step.
    pub tokens_before: usize,
    /// The token count after the last step.
    pub tokens_after: usize,
    /// The sum of what the single steps saved.
    pub saved: usize,
}

/// What a reset did.
#[derive(Clone, Copy, Debug, PartialEq, Eq, Structural)]
pub struct ResetReport {
    /// The number of eviction steps before the history was cleared.
    pub steps: usize,
    /// The number of exchanges that plugins were told of.
    pub exchanges: usize,
    /// The number of times a plugin was told of an exchange that left.
    pub notifications: u128,
}

/// Whether a pass may end although the budget is still exceeded.
pub open spec fn savings_suffice_spec(saved: nat, steps: nat) -> bool {
    saved > SAVINGS_THRESHOLD && steps >= MIN_STEPS
}

/// Whether a pass may end although the budget is still exceeded: enough was
/// saved, and not in one step alone.
pub fn savings_suffice(saved: usize, steps: usize) -> (enough: bool)
    ensures
        enough == savings_suffice_spec(saved as nat, steps as nat),
{
    saved > SAVINGS_THRESHOLD && steps >= MIN_STEPS
}

/// What one step saved: the fall of the token count, and nothing where the
/// count did not fall.
pub fn step_savings(before: usize, after: usize) -> (saved: usize)
    ensures
        saved == if after <= before {
            before - after
        } else {
            0
        },
{
    if after <= before {
        before - after
    } else {
        0
    }
}

/// Whether another eviction step is due: the budget is exceeded, something
/// but the standing message is left to take, and the pass has not yet saved
/// enough in enough steps.
pub open spec fn eviction_due_spec(
    tokens: nat,
    budget: nat,
    saved: nat,
    steps: nat,
    messages: nat,
) -> bool {
    tokens > budget && messages > 1 && !savings_suffice_spec(saved, steps)
}

/// Whether another eviction step is due.
pub fn eviction_due(tokens: usize, budget: usize, saved: usize, steps: usize, messages: usize) -> (due:
    bool)
    ensures
        due == eviction_due_spec(
            tokens as nat,
            budget as nat,
            saved as nat,
            steps as nat,
            messages as nat,
        ),
{
    tokens > budget && messages > 1 && !savings_suffice(saved, steps)
}

/// The number of tokens that the model's tokenizer makes of the whole
/// conversation.
pub fn token_count<M: LanguageModel>(history: &History, model: &M) -> (tokens: usize)
    ensures
        model.may_count(whole_text(history@), tokens),
{
    let whole = history.text();
    model.count_tokens(whole.as_str())
}

proof fn lemma_concat_all_len(a: Seq<Seq<char>>, b: Seq<Seq<char>>)
    ensures
        concat_all(a + b).len() == concat_all(a).len() + concat_all(b).len(),
    decreases b.len(),
{
    if b.len() > 0 {
        assert((a + b).drop_last() =~= a + b.drop_last());
        lemma_concat_all_len(a, b.drop_last());
    }
}

proof fn lemma_turns_add(a: Seq<MessageModel>, b: Seq<MessageModel>)
    ensures
        assistant_turns(a + b) == assistant_turns(a) + assistant_turns(b),
    decreases b.len(),
{
    if b.len() > 0 {
        assert((a + b).drop_last() =~= a + b.drop_last());
        lemma_turns_add(a, b.drop_last());
    }
}

proof fn lemma_turns_of_one(m: MessageModel)
    ensures
        assistant_turns(seq![m]) == if m.role == Role::Assistant {
            1nat
        } else {
            0nat
        },
{
    assert(seq![m].drop_last() =~= Seq::<MessageModel>::empty());
    assert(assistant_turns(Seq::<MessageModel>::empty()) == 0);
}

/// The text that one eviction step takes out of `messages`.
pub open spec fn evicted_text_len(messages: Seq<MessageModel>) -> nat {
    if oldest_unit(messages) == 0 {
        0
    } else if oldest_unit(messages) == 1 {
        messages[1].content.len()
    } else {
        messages[1].content.len() + messages[2].content.len()
    }
}

/// After a step the history is paired again.
pub proof fn lemma_step_keeps_pairs(messages: Seq<MessageModel>)
    requires
        paired(messages),
    ensures
        paired(without_oldest(messages, oldest_unit(messages))),
{
    let gone = oldest_unit(messages);
    let after = without_oldest(messages, gone);
    if gone > 0 {
        assert(answered(messages, 1));
        assert forall|i: int| 0 <= i < after.len() implies #[trigger] answered(after, i) by {
            if i >= 1 {
                assert(answered(messages, i + gone));
            }
        }
    }
}

/// One eviction step shortens the text of the conversation by exactly the
/// text of the messages that it takes out.
pub proof fn lemma_step_shrinks_text(messages: Seq<MessageModel>)
    requires
        paired(messages),
    ensures
        whole_text(without_oldest(messages, oldest_unit(messages))).len() + evicted_text_len(
            messages,
        ) == whole_text(messages).len(),
{
    let gone = oldest_unit(messages);
    if gone > 0 {
        assert(answered(messages, 1));
        let head = contents(messages.take(1));
        let middle = contents(messages.subrange(1, 1 + gone as int));
        let rest = contents(messages.skip(1 + gone as int));
        assert(contents(messages) =~= head + middle + rest);
        assert(contents(without_oldest(messages, gone)) =~= head + rest);
        lemma_concat_all_len(head + middle, rest);
        lemma_concat_all_len(head, middle);
        lemma_concat_all_len(head, rest);
        let nothing = Seq::<Seq<char>>::empty();
        let one = seq![messages[1].content];
        assert(one.drop_last() =~= nothing);
        assert(concat_all(nothing) =~= Seq::<char>::empty());
        assert(concat_all(one) =~= messages[1].content);
        if gone == 1 {
            assert(middle =~= one);
        } else {
            assert(middle.drop_last() =~= one);
        }
    }
}

/// With a count that grows with the length of the text, a step that takes out
/// a message with text lowers the token count.
pub proof fn lemma_step_lowers_token_count(
    messages: Seq<MessageModel>,
    count: spec_fn(Seq<char>) -> nat,
)
    requires
        paired(messages),
        messages.len() > 1,
        evicted_text_len(messages) > 0,
        forall|a: Seq<char>, b: Seq<char>| a.len() < b.len() ==> #[trigger] count(a) < #[trigger] count(b),
    ensures
        count(whole_text(without_oldest(messages, oldest_unit(messages)))) < count(
            whole_text(messages),
        ),
{
    lemma_step_shrinks_text(messages);
}

/// A step takes out as many turns of the assistant as exchanges: one where
/// the oldest message is the assistant's, else none.
pub proof fn lemma_step_turns(messages: Seq<MessageModel>)
    requires
        paired(messages),
    ensures
        assistant_turns(without_oldest(messages, oldest_unit(messages))) + (if oldest_unit(
            messages,
        ) == 2 {
            1nat
        } else {
            0nat
        }) == assistant_turns(messages),
{
    let gone = oldest_unit(messages);
    if gone > 0 {
        assert(answered(messages, 1));
        let head = messages.take(1);
        let middle = messages.subrange(1, 1 + gone as int);
        let rest = messages.skip(1 + gone as int);
        assert(messages =~= head + middle + rest);
        lemma_turns_add(head + middle, rest);
        lemma_turns_add(head, middle);
        lemma_turns_add(head, rest);
        if gone == 1 {
            assert(middle =~= seq![messages[1]]);
            lemma_turns_of_one(messages[1]);
        } else {
            assert(middle =~= seq![messages[1]] + seq![messages[2]]);
            lemma_turns_add(seq![messages[1]], seq![messages[2]]);
            lemma_turns_of_one(messages[1]);
            lemma_turns_of_one(messages[2]);
        }
    }
}

/// Steps add up: taking `first` messages and then `second` is taking
/// `first + second`.
pub proof fn lemma_steps_add_up(messages: Seq<MessageModel>, first: nat, second: nat)
    requires
        1 + first + second <= messages.len(),
    ensures
        without_oldest(without_oldest(messages, first), second) == without_oldest(
            messages,
            first + second,
        ),
{
    assert(without_oldest(without_oldest(messages, first), second) =~= without_oldest(
        messages,
        first + second,
    ));
}

/// The failure of an outcome, if it is one.
pub open spec fn failure_of<T>(outcome: Result<T, AgentError>) -> Option<AgentError> {
    match outcome {
        Ok(_) => None,
        Err(e) => Some(e),
    }
}

/// Whether telling `plugins` in order of an exchange that has left the
/// history may change the store from `before` to `after` and end in
/// `failure`: each plugin is told once, with the store that the one before it
/// left, and the first that fails ends the round in a failed notification.
pub open spec fn all_told<Y: PluginCycle>(
    plugins: Seq<Plugin<Y>>,
    before: PluginStore,
    response: Thought,
    followup: Seq<char>,
    after: PluginStore,
    failure: Option<AgentError>,
) -> bool
    decreases plugins.len(),
{
    if plugins.len() == 0 {
        after == before && failure is None
    } else {
        exists|left: PluginStore, noted: Result<(), AgentError>|
            {
                &&& #[trigger] plugins[0].cycle.may_note(
                    before,
                    response,
                    followup,
                    true,
                    left,
                    noted,
                )
                &&& match noted {
                    Ok(()) => all_told(plugins.skip(1), left, response, followup, after, failure),
                    Err(e) => after == left && failure is Some && failure->0@
                        == ErrorModel::CollaboratorNotificationFailed(error_text(e@)),
                }
            }
    }
}

/// Tells every plugin, in order, of an exchange that has left the history.
/// The first plugin that fails ends the round; its failure is handed on as a
/// failed notification.
pub fn notify_all<Y: PluginCycle>(
    plugins: &Vec<Plugin<Y>>,
    store: &mut PluginStore,
    response: &Thought,
    followup: &str,
) -> (outcome: Result<usize, AgentError>)
    ensures
        all_told(plugins@, *old(store), *response, followup@, *final(store), failure_of(outcome)),
        outcome matches Ok(told) ==> told == plugins@.len(),
{
    let mut i: usize = 0;
    proof {
        assert(plugins@.skip(0) =~= plugins@);
    }
    while i < plugins.len()
        invariant
            i <= plugins.len(),
            forall|after: PluginStore, failure: Option<AgentError>| #[trigger]
                all_told(plugins@.skip(i as int), *store, *response, followup@, after, failure)
                    ==> all_told(plugins@, *old(store), *response, followup@, after, failure),
        decreases plugins.len() - i,
    {
        let ghost here = *store;
        let ghost rest = plugins@.skip(i as int);
        let noted = plugins[i].cycle.apply_removed_response(store, response, followup, true);
        proof {
            assert(rest[0] == plugins@[i as int]);
            assert(rest.skip(1) =~= plugins@.skip(i + 1));
            assert(rest[0].cycle.may_note(here, *response, followup@, true, *store, noted));
        }
        match noted {
            Ok(()) => {
                proof {
                    assert forall|after: PluginStore, failure: Option<AgentError>| #[trigger]
                        all_told(
                            plugins@.skip(i + 1),
                            *store,
                            *response,
                            followup@,
                            after,
                            failure,
                        ) implies all_told(
                        plugins@,
                        *old(store),
                        *response,
                        followup@,
                        after,
                        failure,
                    ) by {
                        assert(all_told(rest, here, *response, followup@, after, failure));
                    }
                }
            },
            Err(e) => {
                let failed = AgentError::CollaboratorNotificationFailed(e.message());
                proof {
                    assert(all_told(rest, here, *response, followup@, *store, Some(failed)));
                }
                return Err(failed);
            },
        }
        i += 1;
    }
    proof {
        assert(all_told(plugins@.skip(i as int), *store, *response, followup@, *store, None));
    }
    Ok(i)
}

/// The failure of a reply that could not be read.
pub open spec fn unreadable() -> ErrorModel {
    ErrorModel::ResponseParseError("no thought detected."@)
}

/// Whether settling what a step takes out of `messages` may change the store
/// from `before` to `after` and end in `failure`: where an exchange leaves,
/// the assistant's message is read and every plugin is told of it; where a
/// single message leaves, nothing else happens.
pub open spec fn unit_settled<Y: PluginCycle, P: ResponseParser>(
    plugins: Seq<Plugin<Y>>,
    parser: P,
    messages: Seq<MessageModel>,
    before: PluginStore,
    after: PluginStore,
    failure: Option<AgentError>,
) -> bool {
    if oldest_unit(messages) == 2 {
        exists|thought: Option<Thought>|
            {
                &&& #[trigger] parser.may_read(messages[1].content, thought)
                &&& match thought {
                    Some(response) => all_told(
                        plugins,
                        before,
                        response,
                        messages[2].content,
                        after,
                        failure,
                    ),
                    None => after == before && failure is Some && failure->0@ == unreadable(),
                }
            }
    } else {
        after == before && failure is None
    }
}

/// Settles what a step took out of `messages`, and returns the number of
/// messages, of exchanges and of notifications.
fn settle<Y: PluginCycle, P: ResponseParser>(
    evicted: Evicted,
    Ghost(messages): Ghost<Seq<MessageModel>>,
    store: &mut PluginStore,
    plugins: &Vec<Plugin<Y>>,
    parser: &P,
) -> (outcome: Result<(usize, usize, usize), AgentError>)
    requires
        match evicted {
            Evicted::Nothing => oldest_unit(messages) == 0,
            Evicted::Single(_) => oldest_unit(messages) == 1,
            Evicted::Exchange { assistant, followup } => oldest_unit(messages) == 2
                && messages.len() > 2 && assistant@ == messages[1].content && followup@
                == messages[2].content,
        },
    ensures
        unit_settled(plugins@, *parser, messages, *old(store), *final(store), failure_of(outcome)),
        outcome matches Ok((taken, exchanges, told)) ==> {
            &&& taken == oldest_unit(messages)
            &&& taken == 2 ==> exchanges == 1 && told == plugins@.len()
            &&& taken != 2 ==> exchanges == 0 && told == 0
        },
{
    match evicted {
        Evicted::Nothing => Ok((0, 0, 0)),
        Evicted::Single(_) => Ok((1, 0, 0)),
        Evicted::Exchange { assistant, followup } => {
            let thought = parser.parse_response(assistant.as_str());
            proof {
                assert(parser.may_read(messages[1].content, thought));
            }
            match thought {
                None => Err(AgentError::ResponseParseError(NoThoughtError.message())),
                Some(response) => {
                    match notify_all(plugins, store, &response, followup.as_str()) {
                        Ok(told) => Ok((2, 1, told)),
                        Err(e) => Err(e),
                    }
                },
            }
        },
    }
}

/// The savings of a pass after one more step: what was saved before and
/// what the step saved, or the largest number where the sum is larger.
pub open spec fn savings_after(saved: usize, before: usize, after: usize) -> usize {
    let step = if after <= before {
        before - after
    } else {
        0
    };
    if saved + step > usize::MAX {
        usize::MAX
    } else {
        (saved + step) as usize
    }
}

/// Where a pass stands: the messages, what the plugins keep, the token count,
/// the savings and the steps so far.
pub struct PassState {
    pub messages: Seq<MessageModel>,
    pub store: PluginStore,
    pub tokens: usize,
    pub saved: usize,
    pub steps: usize,
}

/// Whether a pass that stands at `from` may end at `to`, in `failure` or in
/// none.
///
/// A pass ends where no step is due. Where one is due, the oldest unit leaves
/// the messages and is settled. Where that fails, the pass ends there, in
/// that failure; else the model counts what is left, and the pass goes on.
pub open spec fn pass_ends_at<Y: PluginCycle, M: LanguageModel, P: ResponseParser>(
    plugins: Seq<Plugin<Y>>,
    model: M,
    parser: P,
    budget: usize,
    from: PassState,
    to: PassState,
    failure: Option<AgentError>,
) -> bool
    decreases from.messages.len(),
{
    let left = without_oldest(from.messages, oldest_unit(from.messages));
    if !eviction_due_spec(
        from.tokens as nat,
        budget as nat,
        from.saved as nat,
        from.steps as nat,
        from.messages.len(),
    ) {
        to == from && failure is None
    } else if left.len() >= from.messages.len() || from.steps == usize::MAX {
        false
    } else {
        exists|store: PluginStore, failed: Option<AgentError>|
            {
                &&& #[trigger] unit_settled(
                    plugins,
                    parser,
                    from.messages,
                    from.store,
                    store,
                    failed,
                )
                &&& match failed {
                    Some(e) => failure == Some(e) && to.messages == left && to.store == store,
                    None => exists|now: usize| #[trigger]
                        model.may_count(whole_text(left), now) && pass_ends_at(
                            plugins,
                            model,
                            parser,
                            budget,
                            PassState {
                                messages: left,
                                store,
                                tokens: now,
                                saved: savings_after(from.saved, from.tokens, now),
                                steps: (from.steps + 1) as usize,
                            },
                            to,
                            failure,
                        ),
                }
            }
    }
}

/// Whether a pass of eviction may have changed the context from `before` to
/// `after` and come to `outcome`: the model has counted the tokens of the
/// history, and the pass has gone from there as [`pass_ends_at`] says.
pub open spec fn pass_made<Y: PluginCycle, M: LanguageModel, P: ResponseParser>(
    plugins: Seq<Plugin<Y>>,
    model: M,
    parser: P,
    budget: usize,
    before: CommandContext,
    after: CommandContext,
    outcome: Result<EvictionReport, AgentError>,
) -> bool {
    exists|from: PassState, to: PassState|
        {
            &&& from.messages == before.history@
            &&& from.store == before.store
            &&& from.saved == 0
            &&& from.steps == 0
            &&& model.may_count(whole_text(from.messages), from.tokens)
            &&& to.messages == after.history@
            &&& to.store == after.store
            &&& #[trigger] pass_ends_at(plugins, model, parser, budget, from, to, failure_of(outcome))
            &&& outcome matches Ok(report) ==> {
                &&& from.tokens == report.tokens_before
                &&& to.tokens == report.tokens_after
                &&& to.saved == report.saved
                &&& to.steps == report.steps
            }
        }
}

proof fn lemma_product_step(exchanges: nat, plugins: nat)
    ensures
        exchanges * plugins + plugins == (exchanges + 1) * plugins,
{
    assert(exchanges * plugins + plugins == (exchanges + 1) * plugins) by (nonlinear_arith);
}

proof fn lemma_product_fits(exchanges: nat, plugins: nat)
    requires
        exchanges <= usize::MAX,
        plugins <= usize::MAX,
    ensures
        exchanges * plugins <= u128::MAX,
{
    assert(exchanges * plugins <= 0xffff_ffff_ffff_ffff * 0xffff_ffff_ffff_ffff) by (nonlinear_arith)
        requires
            exchanges <= 0xffff_ffff_ffff_ffff,
            plugins <= 0xffff_ffff_ffff_ffff,
    ;
}

/// Takes the oldest messages out of the history while the conversation holds
/// more than `budget` tokens.
///
/// Each step takes out what follows the standing message: an exchange as a
/// whole, of which every plugin is told, or a single message. The tokens are
/// counted anew after each step, and a step is made while one is due
/// ([`eviction_due`]): the pass ends when the budget is met, when only the
/// standing message is left, or when more than [`SAVINGS_THRESHOLD`] tokens
/// were saved in at least [`MIN_STEPS`] steps.
/// A reply that cannot be read, or a plugin that fails, ends the pass in an
/// error; the exchange in question has left the history by then.
pub fn evict_under_pressure<Y: PluginCycle, M: LanguageModel, P: ResponseParser>(
    context: &mut CommandContext,
    budget: usize,
    plugins: &Vec<Plugin<Y>>,
    model: &M,
    parser: &P,
) -> (outcome: Result<EvictionReport, AgentError>)
    ensures
        paired(final(context).history@),
        final(context).command_out == old(context).command_out,
        final(context).end_goals == old(context).end_goals,
        exists|gone: nat|
            gone < old(context).history@.len() + 1 && final(context).history@ == without_oldest(
                old(context).history@,
                gone,
            ),
        pass_made(plugins@, *model, *parser, budget, *old(context), *final(context), outcome),
        match outcome {
            Ok(report) => {
                &&& final(context).history@ == without_oldest(
                    old(context).history@,
                    report.removed as nat,
                )
                &&& report.steps <= report.removed <= old(context).history@.len()
                &&& report.exchanges <= report.steps
                &&& report.notifications == report.exchanges * plugins@.len()
                &&& model.may_count(whole_text(final(context).history@), report.tokens_after)
            },
            Err(e) => e@ == unreadable() || e is CollaboratorNotificationFailed,
        },
{
    let ghost start = context.history@;
    context.history.witness_pairing();
    let initial_len: usize = context.history.len();
    let plugin_count: usize = plugins.len();
    let tokens_before = token_count(&context.history, model);
    let ghost from = PassState {
        messages: start,
        store: context.store,
        tokens: tokens_before,
        saved: 0,
        steps: 0,
    };
    let mut tokens: usize = tokens_before;
    let mut saved: usize = 0;
    let mut steps: usize = 0;
    let mut removed: usize = 0;
    let mut exchanges: usize = 0;
    let mut notifications: u128 = 0;
    while eviction_due(tokens, budget, saved, steps, context.history.len())
        invariant
            paired(context.history@),
            context.command_out == old(context).command_out,
            context.end_goals == old(context).end_goals,
            start == old(context).history@,
            start.len() == initial_len,
            plugins@.len() == plugin_count,
            context.history@ == without_oldest(start, removed as nat),
            removed == 0 || 1 + removed <= start.len(),
            exchanges <= steps <= removed,
            notifications == exchanges * plugins@.len(),
            from.messages == start,
            from.store == old(context).store,
            from.tokens == tokens_before,
            from.saved == 0,
            from.steps == 0,
            model.may_count(whole_text(start), tokens_before),
            model.may_count(whole_text(context.history@), tokens),
            forall|to: PassState, failure: Option<AgentError>| #[trigger]
                pass_ends_at(
                    plugins@,
                    *model,
                    *parser,
                    budget,
                    PassState {
                        messages: context.history@,
                        store: context.store,
                        tokens,
                        saved,
                        steps,
                    },
                    to,
                    failure,
                ) ==> pass_ends_at(plugins@, *model, *parser, budget, from, to, failure),
        decreases context.history@.len(),
    {
        let ghost current = context.history@;
        let ghost here = PassState {
            messages: current,
            store: context.store,
            tokens,
            saved,
            steps,
        };
        let evicted = context.history.evict_oldest();
        proof {
            lemma_step_keeps_pairs(current);
            lemma_steps_add_up(start, removed as nat, oldest_unit(current));
        }
        let settled = settle(evicted, Ghost(current), &mut context.store, plugins, parser);
        let (taken, pairs, told) = match settled {
            Ok(counts) => counts,
            Err(e) => {
                proof {
                    let to = PassState {
                        messages: context.history@,
                        store: context.store,
                        tokens,
                        saved,
                        steps,
                    };
                    assert(unit_settled(
                        plugins@,
                        *parser,
                        current,
                        here.store,
                        context.store,
                        Some(e),
                    ));
                    assert(pass_ends_at(plugins@, *model, *parser, budget, here, to, Some(e)));
                    assert(pass_ends_at(plugins@, *model, *parser, budget, from, to, Some(e)));
                    assert(pass_made(
                        plugins@,
                        *model,
                        *parser,
                        budget,
                        *old(context),
                        *context,
                        Err::<EvictionReport, AgentError>(e),
                    ));
                    lemma_settled_failure(plugins@, *parser, current, here.store, context.store, e);
                }
                return Err(e);
            },
        };
        proof {
            if pairs == 1 {
                lemma_product_step(exchanges as nat, plugins@.len());
            }
            lemma_product_fits((exchanges + pairs) as nat, plugins@.len());
            assert(notifications + told == (exchanges + pairs) * plugins@.len());
        }
        removed = removed + taken;
        exchanges = exchanges + pairs;
        notifications = notifications + told as u128;
        steps = steps + 1;
        let now = token_count(&context.history, model);
        saved = saved.saturating_add(step_savings(tokens, now));
        tokens = now;
        proof {
            let there = PassState {
                messages: context.history@,
                store: context.store,
                tokens,
                saved,
                steps,
            };
            assert forall|to: PassState, failure: Option<AgentError>| #[trigger]
                pass_ends_at(plugins@, *model, *parser, budget, there, to, failure) implies pass_ends_at(
                plugins@,
                *model,
                *parser,
                budget,
                from,
                to,
                failure,
            ) by {
                assert(unit_settled(plugins@, *parser, current, here.store, there.store, None));
                assert(model.may_count(whole_text(there.messages), now));
                assert(pass_ends_at(plugins@, *model, *parser, budget, here, to, failure));
            }
        }
    }
    let report = EvictionReport {
        steps,
        removed,
        exchanges,
        notifications,
        tokens_before,
        tokens_after: tokens,
        saved,
    };
    proof {
        let to = PassState { messages: context.history@, store: context.store, tokens, saved, steps };
        assert(pass_ends_at(plugins@, *model, *parser, budget, to, to, None));
        assert(pass_ends_at(plugins@, *model, *parser, budget, from, to, None));
        assert(pass_made(
            plugins@,
            *model,
            *parser,
            budget,
            *old(context),
            *context,
            Ok::<EvictionReport, AgentError>(report),
        ));
    }
    Ok(report)
}

proof fn lemma_told_failure<Y: PluginCycle>(
    plugins: Seq<Plugin<Y>>,
    before: PluginStore,
    response: Thought,
    followup: Seq<char>,
    after: PluginStore,
    e: AgentError,
)
    requires
        all_told(plugins, before, response, followup, after, Some(e)),
    ensures
        e is CollaboratorNotificationFailed,
    decreases plugins.len(),
{
    if plugins.len() > 0 {
        let (left, noted) = choose|left: PluginStore, noted: Result<(), AgentError>|
            {
                &&& #[trigger] plugins[0].cycle.may_note(
                    before,
                    response,
                    followup,
                    true,
                    left,
                    noted,
                )
                &&& match noted {
                    Ok(()) => all_told(plugins.skip(1), left, response, followup, after, Some(e)),
                    Err(cause) => after == left && e@ == ErrorModel::CollaboratorNotificationFailed(
                        error_text(cause@),
                    ),
                }
            };
        if noted is Ok {
            lemma_told_failure(plugins.skip(1), left, response, followup, after, e);
        }
    }
}

proof fn lemma_settled_failure<Y: PluginCycle, P: ResponseParser>(
    plugins: Seq<Plugin<Y>>,
    parser: P,
    messages: Seq<MessageModel>,
    before: PluginStore,
    after: PluginStore,
    e: AgentError,
)
    requires
        unit_settled(plugins, parser, messages, before, after, Some(e)),
    ensures
        e@ == unreadable() || e is CollaboratorNotificationFailed,
{
    if oldest_unit(messages) == 2 {
        let thought = choose|thought: Option<Thought>|
            {
                &&& #[trigger] parser.may_read(messages[1].content, thought)
                &&& match thought {
                    Some(response) => all_told(
                        plugins,
                        before,
                        response,
                        messages[2].content,
                        after,
                        Some(e),
                    ),
                    None => after == before && e@ == unreadable(),
                }
            };
        if thought is Some {
            lemma_told_failure(plugins, before, thought->0, messages[2].content, after, e);
        }
    }
}

/// Whether a reset of `messages` may change the store from `before` to
/// `after`, leave `left`, and end in `failure` or in none.
///
/// While more than the standing message is there, the oldest unit leaves and
/// is settled. Where that fails, the reset ends there, in that failure, and
/// what is left stays. Where nothing fails, no message is left at the end.
pub open spec fn reset_ends_at<Y: PluginCycle, P: ResponseParser>(
    plugins: Seq<Plugin<Y>>,
    parser: P,
    messages: Seq<MessageModel>,
    before: PluginStore,
    left: Seq<MessageModel>,
    after: PluginStore,
    failure: Option<AgentError>,
) -> bool
    decreases messages.len(),
{
    let rest = without_oldest(messages, oldest_unit(messages));
    if messages.len() <= 1 {
        left == Seq::<MessageModel>::empty() && after == before && failure is None
    } else if rest.len() >= messages.len() {
        false
    } else {
        exists|store: PluginStore, failed: Option<AgentError>|
            {
                &&& #[trigger] unit_settled(plugins, parser, messages, before, store, failed)
                &&& match failed {
                    Some(e) => failure == Some(e) && left == rest && after == store,
                    None => reset_ends_at(plugins, parser, rest, store, left, after, failure),
                }
            }
    }
}

/// Starts the conversation over after the model has failed too often.
///
/// The history is taken apart step by step, as under token pressure, and
/// every plugin is told of every exchange, until only the standing message is
/// left; then the history is cleared. A reply that cannot be read, or a
/// plugin that fails, ends the reset in an error and leaves the rest of the
/// history in place.
pub fn reset_after_failure<Y: PluginCycle, P: ResponseParser>(
    context: &mut CommandContext,
    plugins: &Vec<Plugin<Y>>,
    parser: &P,
) -> (outcome: Result<ResetReport, AgentError>)
    ensures
        paired(final(context).history@),
        final(context).command_out == old(context).command_out,
        final(context).end_goals == old(context).end_goals,
        reset_ends_at(
            plugins@,
            *parser,
            old(context).history@,
            old(context).store,
            final(context).history@,
            final(context).store,
            failure_of(outcome),
        ),
        match outcome {
            Ok(report) => {
                &&& final(context).history@ == Seq::<MessageModel>::empty()
                &&& report.steps <= old(context).history@.len()
                &&& old(context).history@.len() > 0 ==> report.steps < old(context).history@.len()
                &&& report.exchanges == assistant_turns(old(context).history@)
                &&& report.notifications == report.exchanges * plugins@.len()
            },
            Err(e) => {
                &&& e@ == unreadable() || e is CollaboratorNotificationFailed
                &&& exists|gone: nat|
                    gone < old(context).history@.len() && final(context).history@
                        == without_oldest(old(context).history@, gone)
            },
        },
{
    let ghost start = context.history@;
    context.history.witness_pairing();
    let initial_len: usize = context.history.len();
    let plugin_count: usize = plugins.len();
    let mut steps: usize = 0;
    let mut removed: usize = 0;
    let mut exchanges: usize = 0;
    let mut notifications: u128 = 0;
    while context.history.len() > 1
        invariant
            paired(context.history@),
            context.command_out == old(context).command_out,
            context.end_goals == old(context).end_goals,
            start == old(context).history@,
            start.len() == initial_len,
            plugins@.len() == plugin_count,
            context.history@ == without_oldest(start, removed as nat),
            removed == 0 || 1 + removed <= start.len(),
            exchanges <= steps <= removed,
            exchanges + assistant_turns(context.history@) == assistant_turns(start),
            notifications == exchanges * plugins@.len(),
            forall|left: Seq<MessageModel>, after: PluginStore, failure: Option<AgentError>| #[trigger]
                reset_ends_at(
                    plugins@,
                    *parser,
                    context.history@,
                    context.store,
                    left,
                    after,
                    failure,
                ) ==> reset_ends_at(
                    plugins@,
                    *parser,
                    start,
                    old(context).store,
                    left,
                    after,
                    failure,
                ),
        decreases context.history@.len(),
    {
        let ghost current = context.history@;
        let ghost kept = context.store;
        let evicted = context.history.evict_oldest();
        proof {
            lemma_step_keeps_pairs(current);
            lemma_step_turns(current);
            lemma_steps_add_up(start, removed as nat, oldest_unit(current));
        }
        let settled = settle(evicted, Ghost(current), &mut context.store, plugins, parser);
        let (taken, pairs, told) = match settled {
            Ok(counts) => counts,
            Err(e) => {
                proof {
                    let gone = removed as nat + oldest_unit(current);
                    assert(context.history@ == without_oldest(start, gone));
                    assert(unit_settled(plugins@, *parser, current, kept, context.store, Some(e)));
                    assert(reset_ends_at(
                        plugins@,
                        *parser,
                        current,
                        kept,
                        context.history@,
                        context.store,
                        Some(e),
                    ));
                    lemma_settled_failure(plugins@, *parser, current, kept, context.store, e);
                }
                return Err(e);
            },
        };
        proof {
            if pairs == 1 {
                lemma_product_step(exchanges as nat, plugins@.len());
            }
            lemma_product_fits((exchanges + pairs) as nat, plugins@.len());
            assert(notifications + told == (exchanges + pairs) * plugins@.len());
            assert forall|left: Seq<MessageModel>, after: PluginStore, failure: Option<AgentError>| #[trigger]
                reset_ends_at(
                    plugins@,
                    *parser,
                    context.history@,
                    context.store,
                    left,
                    after,
                    failure,
                ) implies reset_ends_at(
                plugins@,
                *parser,
                start,
                old(context).store,
                left,
                after,
                failure,
            ) by {
                assert(unit_settled(plugins@, *parser, current, kept, context.store, None));
                assert(reset_ends_at(plugins@, *parser, current, kept, left, after, failure));
            }
        }
        removed = removed + taken;
        exchanges = exchanges + pairs;
        notifications = notifications + told as u128;
        steps = steps + 1;
    }
    proof {
        let left = context.history@;
        if left.len() == 1 {
            lemma_turns_of_one(left[0]);
            assert(left =~= seq![left[0]]);
        } else {
            assert(left =~= Seq::<MessageModel>::empty());
        }
        assert(reset_ends_at(
            plugins@,
            *parser,
            left,
            context.store,
            Seq::<MessageModel>::empty(),
            context.store,
            None,
        ));
    }
    context.history.clear();
    Ok(ResetReport { steps, exchanges, notifications })
}

} // verus!
