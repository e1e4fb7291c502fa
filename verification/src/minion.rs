//! The delegated sub-agent: it writes a script for a task, runs it, tries
//! again when the script fails, and reports what it found and changed.

use crate::agent::{LanguageModel, PluginCycle, ProgramInfo, ResponseParser, LLM};
use crate::command::{active, CommandContext, CommandImpl, Registry};
use crate::error::{error_text, AgentError};
use crate::findings::{
    lemma_sought_report_is_read, points_text, reply_report, report_sought, to_points,
    try_parse_report, FindingsReport, ReplyFormat, ReportModel,
};
use crate::history::{message_views, Message, MessageModel, Role};
use crate::prompt::{commands_text, generate_commands};
use crate::script::{run_script, script_came_to};
use crate::text::views;
use vstd::prelude::*;

verus! {

/// The number of scripts that the sub-agent may write for one task.
pub const SCRIPT_ATTEMPTS: usize = 3;

/// The number of replies that the sub-agent may give when asked to sum up.
pub const SUMMARY_ATTEMPTS: usize = 3;

/// A part of what the sub-agent is told when it is to write a script.
pub const SCRIPT_REQUEST_OPENING: &'static str = "\nUsing these commands and ONLY these commands:\n";

/// A part of what the sub-agent is told when it is to write a script.
pub const SCRIPT_REQUEST_MIDDLE: &'static str = "\n\nWrite a script to complete the following task:\n";

/// A part of what the sub-agent is told when it is to write a script.
pub const SCRIPT_REQUEST_CLOSING: &'static str = "\n\nUse the exact commands mentioned in the task.\n\n\
    Keep it as SIMPLE, MINIMAL, and SHORT as possible. IT MUST BE VERY SIMPLE AND SHORT.\n\
    Pay very close attention to the TYPE of each command.\n\
    Whenever you save a file, use \".txt\" for the extension.\n\n\
    Your script will be in the LUA Scripting Language. LUA.\n        ";

/// A part of what the sub-agent is told after a script of its own has failed.
pub const FEEDBACK_OPENING: &'static str = "Unfortunately, that did not work. \nThe error was: ";

/// A part of what the sub-agent is told after a script of its own has failed.
pub const FEEDBACK_CLOSING: &'static str = "\n\n\nPlease try again in the exact same format with a fixed LUA script\n\
    Respond ONLY with a LUA script. \n\
    You may provide additional commentary on the fixes in code comments.\n\
    Ensure your response is exactly valid LUA and can be parsed as valid LUA.";

/// What the sub-agent is told when it is to sum up what its script did.
pub const SUMMARY_REQUEST: &'static str = "First, create a list of concise points about your findings from the commands.\n\n\
    Then, create a list of long-lasting changes that were executed (i.e. writing to a file, posting a tweet.) Use quotes when discussing specific details.\n\
    \nKeep your findings list very brief.\n\nIn this format:\n\n```yml\nfindings:\n- A\n\
    - B\n\nchanges:\n- A\n- B\n```";

/// A part of the letter in which the sub-agent reports.
pub const LETTER_OPENING: &'static str = "Dear Boss,\n\nI have completed the tasks you assigned to me. These are my findings:\n";

/// A part of the letter in which the sub-agent reports.
pub const LETTER_MIDDLE: &'static str = "\n\nThese are the changes I had to carry out:\n";

/// A part of the letter in which the sub-agent reports.
pub const LETTER_CLOSING: &'static str = "\n\nSincerely, Your Employee.";

/// What the sub-agent found, and what it changed for good.
#[derive(Clone, Debug, PartialEq, Eq)]
pub struct MinionResponse {
    pub findings: Vec<String>,
    pub changes: Vec<String>,
}

impl View for MinionResponse {
    type V = ReportModel;

    open spec fn view(&self) -> ReportModel {
        ReportModel { findings: views(self.findings@), changes: views(self.changes@) }
    }
}

/// What the sub-agent is told when it is to write a script: the commands it
/// may use, and the task.
pub open spec fn script_request_text(commands: Seq<char>, task: Seq<char>) -> Seq<char> {
    SCRIPT_REQUEST_OPENING@ + commands + SCRIPT_REQUEST_MIDDLE@ + task + SCRIPT_REQUEST_CLOSING@
}

/// Writes what the sub-agent is told when it is to write a script.
pub fn script_request(commands: &str, task: &str) -> (text: String)
    ensures
        text@ == script_request_text(commands@, task@),
{
    let mut text = String::from_str(SCRIPT_REQUEST_OPENING);
    text.append(commands);
    text.append(SCRIPT_REQUEST_MIDDLE);
    text.append(task);
    text.append(SCRIPT_REQUEST_CLOSING);
    text
}

/// What the sub-agent is told after a script of its own has failed.
pub open spec fn failure_feedback_text(failure: Seq<char>) -> Seq<char> {
    FEEDBACK_OPENING@ + failure + FEEDBACK_CLOSING@
}

/// Writes what the sub-agent is told after a script of its own has failed.
pub fn failure_feedback(failure: &str) -> (text: String)
    ensures
        text@ == failure_feedback_text(failure@),
{
    let mut text = String::from_str(FEEDBACK_OPENING);
    text.append(failure);
    text.append(FEEDBACK_CLOSING);
    text
}

/// What the sub-agent is told when it is to sum up what its script did.
pub open spec fn summary_request_text() -> Seq<char> {
    SUMMARY_REQUEST@
}

/// Writes what the sub-agent is told when it is to sum up.
pub fn summary_request() -> (text: String)
    ensures
        text@ == summary_request_text(),
{
    String::from_str(SUMMARY_REQUEST)
}

/// The letter in which the sub-agent reports: every finding behind a dash
/// under the findings, every change behind a dash under the changes, each in
/// its order.
pub open spec fn letter_text(report: ReportModel) -> Seq<char> {
    LETTER_OPENING@ + points_text(report.findings) + LETTER_MIDDLE@ + points_text(report.changes) + LETTER_CLOSING@
}

/// Writes the letter in which the sub-agent reports.
pub fn write_letter(report: &MinionResponse) -> (letter: String)
    ensures
        letter@ == letter_text(report@),
{
    let mut letter = String::from_str(LETTER_OPENING);
    letter.append(to_points(report.findings.as_slice()).as_str());
    letter.append(LETTER_MIDDLE);
    letter.append(to_points(report.changes.as_slice()).as_str());
    letter.append(LETTER_CLOSING);
    letter
}

/// The conversation that the sub-agent is to continue when it sums up: the
/// request and the transcript of its script.
pub open spec fn summary_opening(transcript: Seq<char>) -> Seq<MessageModel> {
    seq![
        MessageModel { role: Role::System, content: summary_request_text() },
        MessageModel { role: Role::User, content: transcript },
    ]
}

/// The sub-agent's conversation once it has summed up: the request, the
/// transcript of its script, and its reply.
pub open spec fn summary_exchange(transcript: Seq<char>, reply: Seq<char>) -> Seq<MessageModel> {
    summary_opening(transcript).push(MessageModel { role: Role::Assistant, content: reply })
}

/// Whether summing up may have left the sub-agent as `after` and come to
/// `outcome`, by way of `sought`, what the search for a report in the
/// model's replies to the request and the transcript came to.
///
/// The sub-agent has no standing prompt any more. Where the search failed,
/// its failure is the result, and the conversation is the request and the
/// transcript. Else the reply has joined them, the report is the one that
/// the reply holds, and the letter is written from it.
pub open spec fn summed_up<M: LanguageModel>(
    model: M,
    transcript: Seq<char>,
    sought: Result<(String, FindingsReport), AgentError>,
    after: LLM<M>,
    outcome: Result<(String, MinionResponse), AgentError>,
) -> bool {
    &&& report_sought(
        model,
        summary_opening(transcript),
        SUMMARY_ATTEMPTS as nat,
        Some(1000u16),
        ReplyFormat::Yaml,
        Seq::empty(),
        sought,
    )
    &&& after.model == model
    &&& after.prompt@.len() == 0
    &&& match sought {
        Err(e) => {
            &&& message_views(after.message_history@) == summary_opening(transcript)
            &&& outcome is Err
            &&& outcome->Err_0 == e
        },
        Ok(found) => {
            &&& message_views(after.message_history@) == summary_exchange(transcript, found.0@)
            &&& reply_report(found.0@, ReplyFormat::Yaml) == Some(found.1@)
            &&& outcome is Ok
            &&& outcome->Ok_0.1@ == found.1@
            &&& outcome->Ok_0.0@ == letter_text(found.1@)
        },
    }
}

/// Asks the sub-agent to sum up what its script did, and writes the letter.
///
/// The sub-agent's conversation is started over with the request and the
/// transcript; its reply is added once it holds a report.
pub fn summarize<M: LanguageModel>(minion: &mut LLM<M>, transcript: String) -> (outcome: Result<
    (String, MinionResponse),
    AgentError,
>)
    ensures
        exists|sought: Result<(String, FindingsReport), AgentError>| #[trigger]
            summed_up(old(minion).model, transcript@, sought, *final(minion), outcome),
{
    minion.prompt.clear();
    minion.message_history.clear();
    minion.message_history.push(Message::System(summary_request()));
    minion.message_history.push(Message::User(transcript));
    proof {
        assert(message_views(minion.prompt@) + message_views(minion.message_history@)
            =~= summary_opening(transcript@));
        assert(message_views(minion.message_history@) =~= summary_opening(transcript@));
    }
    let sought = try_parse_report(&*minion, SUMMARY_ATTEMPTS, Some(1000), ReplyFormat::Yaml);
    let ghost came = sought;
    let (reply, read) = match sought {
        Ok(pair) => pair,
        Err(e) => {
            let outcome = Err(e);
            proof {
                assert(summed_up(old(minion).model, transcript@, came, *minion, outcome));
            }
            return outcome;
        },
    };
    minion.message_history.push(Message::Assistant(reply));
    proof {
        lemma_sought_report_is_read(
            old(minion).model,
            summary_opening(transcript@),
            SUMMARY_ATTEMPTS as nat,
            Some(1000u16),
            ReplyFormat::Yaml,
            Seq::empty(),
            came,
        );
        assert(message_views(minion.message_history@) =~= summary_exchange(
            transcript@,
            came->Ok_0.0@,
        ));
    }
    let report = MinionResponse { findings: read.findings, changes: read.changes };
    let letter = write_letter(&report);
    let outcome = Ok((letter, report));
    proof {
        assert(summed_up(old(minion).model, transcript@, came, *minion, outcome));
    }
    outcome
}

/// What follows when a script of the sub-agent has run.
#[derive(Debug, PartialEq, Eq)]
pub enum AfterScript {
    /// The script ran to its end: the sub-agent sums up this transcript.
    SumUp(String),
    /// The script failed: the sub-agent is told so and writes another one.
    TryAgain(String),
    /// The last script failed: the sub-agent is told so, and the failure is
    /// the result.
    GiveUp(String, AgentError),
}

/// What the sub-agent is told about the failure `f` of its script.
pub open spec fn feedback_on(f: AgentError) -> MessageModel {
    MessageModel { role: Role::User, content: failure_feedback_text(error_text(f@)) }
}

/// Whether `next` is what follows the outcome `ran` of the script of the
/// given attempt: the first script that runs to its end is summed up; a
/// failed script is answered with the failure's text, and the failure of the
/// last attempt is handed on as it came.
pub open spec fn follows_script(ran: Result<String, AgentError>, attempt: nat, next: AfterScript) -> bool {
    match ran {
        Ok(transcript) => next == AfterScript::SumUp(transcript),
        Err(f) => if attempt >= SCRIPT_ATTEMPTS {
            next matches AfterScript::GiveUp(told, failure) && failure == f && told@
                == feedback_on(f).content
        } else {
            next matches AfterScript::TryAgain(told) && told@ == feedback_on(f).content
        },
    }
}

/// Decides what follows when the script of the given attempt has run.
pub fn after_script(ran: Result<String, AgentError>, attempt: usize) -> (next: AfterScript)
    ensures
        follows_script(ran, attempt as nat, next),
{
    match ran {
        Ok(transcript) => AfterScript::SumUp(transcript),
        Err(f) => {
            let told = failure_feedback(f.message().as_str());
            if attempt >= SCRIPT_ATTEMPTS {
                AfterScript::GiveUp(told, f)
            } else {
                AfterScript::TryAgain(told)
            }
        },
    }
}

/// What the sub-agent is told at the start: the request for a script, as its
/// standing prompt.
pub open spec fn script_prompt<R: CommandImpl>(
    registry: Registry<R>,
    disabled: Seq<Seq<char>>,
    task: Seq<char>,
) -> Seq<MessageModel> {
    seq![
        MessageModel {
            role: Role::System,
            content: script_request_text(commands_text(active(registry@, disabled)), task),
        },
    ]
}

/// Whether one script may have been asked for and run: `script` is what the
/// model gave when it was asked, once, to continue the standing prompt
/// `request` and the conversation `history`; where it gave one, `ran` is the
/// context that the script left and `came` what the script came to.
pub open spec fn script_tried<R: CommandImpl, M: LanguageModel>(
    registry: Registry<R>,
    disabled: Seq<Seq<char>>,
    model: M,
    request: Seq<MessageModel>,
    context: CommandContext,
    history: Seq<MessageModel>,
    script: Result<String, AgentError>,
    ran: CommandContext,
    came: Result<String, AgentError>,
) -> bool {
    &&& model.may_reply(request + history, Some(300u16), Some(30u8), script)
    &&& script is Ok ==> script_came_to(registry, disabled, context, ran, came)
}

/// Whether the sub-agent `after` is the one with the model `model`, the
/// standing prompt `request` and the conversation `history`.
pub open spec fn left_with<M>(
    model: M,
    request: Seq<MessageModel>,
    history: Seq<MessageModel>,
    after: LLM<M>,
) -> bool {
    &&& after.model == model
    &&& message_views(after.prompt@) == request
    &&& message_views(after.message_history@) == history
}

/// Whether the sub-agent's work may end in the context `ended`, the
/// sub-agent `after` and `outcome`, when its attempt number `attempt` begins
/// in the context `context` with the conversation `history` behind the
/// standing prompt `request`.
///
/// The model is asked once for a script; where it fails, nothing has changed
/// and its failure is the result, as it came. Else the script is run. The
/// first script that runs to its end ends the attempts: the sub-agent sums up
/// the transcript of that script. A failed script adds what the sub-agent is
/// told about the failure to the conversation; after the last attempt that
/// failure is the result, as it came, and before it the next attempt
/// follows. What the commands of a failed script did stays.
pub open spec fn attempts_end_at<R: CommandImpl, M: LanguageModel>(
    registry: Registry<R>,
    disabled: Seq<Seq<char>>,
    model: M,
    request: Seq<MessageModel>,
    context: CommandContext,
    history: Seq<MessageModel>,
    attempt: nat,
    ended: CommandContext,
    after: LLM<M>,
    outcome: Result<(String, MinionResponse), AgentError>,
) -> bool
    decreases SCRIPT_ATTEMPTS - attempt,
{
    &&& 1 <= attempt <= SCRIPT_ATTEMPTS
    &&& exists|script: Result<String, AgentError>, ran: CommandContext, came: Result<String, AgentError>|
        {
            &&& #[trigger] script_tried(
                registry,
                disabled,
                model,
                request,
                context,
                history,
                script,
                ran,
                came,
            )
            &&& match script {
                Err(e) => {
                    &&& ended == context
                    &&& left_with(model, request, history, after)
                    &&& outcome is Err
                    &&& outcome->Err_0 == e
                },
                Ok(code) => match came {
                    Ok(transcript) => {
                        &&& ended == ran
                        &&& exists|sought: Result<(String, FindingsReport), AgentError>|
                         #[trigger]
                            summed_up(model, transcript@, sought, after, outcome)
                    },
                    Err(f) => if attempt >= SCRIPT_ATTEMPTS {
                        &&& ended == ran
                        &&& left_with(model, request, history.push(feedback_on(f)), after)
                        &&& outcome is Err
                        &&& outcome->Err_0 == f
                    } else {
                        attempts_end_at(
                            registry,
                            disabled,
                            model,
                            request,
                            ran,
                            history.push(feedback_on(f)),
                            attempt + 1,
                            ended,
                            after,
                            outcome,
                        )
                    },
                },
            }
        }
}

/// What the sub-agent hands back when its work succeeds belongs together:
/// the report is the one that a reply of the model holds, and the letter is
/// written from that report.
pub proof fn lemma_minion_reports_what_it_read<R: CommandImpl, M: LanguageModel>(
    registry: Registry<R>,
    disabled: Seq<Seq<char>>,
    model: M,
    request: Seq<MessageModel>,
    context: CommandContext,
    history: Seq<MessageModel>,
    attempt: nat,
    ended: CommandContext,
    after: LLM<M>,
    outcome: Result<(String, MinionResponse), AgentError>,
)
    requires
        attempts_end_at(
            registry,
            disabled,
            model,
            request,
            context,
            history,
            attempt,
            ended,
            after,
            outcome,
        ),
        outcome is Ok,
    ensures
        outcome->Ok_0.0@ == letter_text(outcome->Ok_0.1@),
        exists|reply: Seq<char>| #[trigger]
            reply_report(reply, ReplyFormat::Yaml) == Some(outcome->Ok_0.1@),
    decreases SCRIPT_ATTEMPTS - attempt,
{
    let (script, ran, came) = choose|
        script: Result<String, AgentError>,
        ran: CommandContext,
        came: Result<String, AgentError>,
    |
        {
            &&& #[trigger] script_tried(
                registry,
                disabled,
                model,
                request,
                context,
                history,
                script,
                ran,
                came,
            )
            &&& match script {
                Err(e) => {
                    &&& ended == context
                    &&& left_with(model, request, history, after)
                    &&& outcome is Err
                    &&& outcome->Err_0 == e
                },
                Ok(code) => match came {
                    Ok(transcript) => {
                        &&& ended == ran
                        &&& exists|sought: Result<(String, FindingsReport), AgentError>|
                         #[trigger]
                            summed_up(model, transcript@, sought, after, outcome)
                    },
                    Err(f) => if attempt >= SCRIPT_ATTEMPTS {
                        &&& ended == ran
                        &&& left_with(model, request, history.push(feedback_on(f)), after)
                        &&& outcome is Err
                        &&& outcome->Err_0 == f
                    } else {
                        attempts_end_at(
                            registry,
                            disabled,
                            model,
                            request,
                            ran,
                            history.push(feedback_on(f)),
                            attempt + 1,
                            ended,
                            after,
                            outcome,
                        )
                    },
                },
            }
        };
    match came {
        Ok(transcript) => {
            let sought = choose|sought: Result<(String, FindingsReport), AgentError>| #[trigger]
                summed_up(model, transcript@, sought, after, outcome);
            assert(reply_report(sought->Ok_0.0@, ReplyFormat::Yaml) == Some(outcome->Ok_0.1@));
        },
        Err(f) => {
            lemma_minion_reports_what_it_read(
                registry,
                disabled,
                model,
                request,
                ran,
                history.push(feedback_on(f)),
                attempt + 1,
                ended,
                after,
                outcome,
            );
        },
    }
}

/// Lets the sub-agent work on `task`.
///
/// The sub-agent writes a script and the script is run. When the script
/// fails, the sub-agent is told the failure and writes another one, up to
/// [`SCRIPT_ATTEMPTS`] scripts in all; when the last one fails too, its
/// failure is the result. When a script runs to its end, the sub-agent is
/// asked to sum up, and the result is its letter together with the report
/// that the letter was written from. What the commands of a failed script
/// did is not undone.
pub fn run_minion<R: CommandImpl, Y: PluginCycle, M: LanguageModel, P: ResponseParser>(
    program: &mut ProgramInfo<R, Y, M, P>,
    task: &str,
    new_prompt: bool,
) -> (outcome: Result<(String, MinionResponse), AgentError>)
    ensures
        final(program).registry == old(program).registry,
        final(program).disabled_commands == old(program).disabled_commands,
        final(program).plugins == old(program).plugins,
        final(program).goals == old(program).goals,
        final(program).model == old(program).model,
        final(program).parser == old(program).parser,
        final(program).name == old(program).name,
        final(program).role == old(program).role,
        final(program).personality == old(program).personality,
        attempts_end_at(
            old(program).registry,
            views(old(program).disabled_commands@),
            old(program).minion.model,
            script_prompt(old(program).registry, views(old(program).disabled_commands@), task@),
            old(program).context,
            Seq::empty(),
            1,
            final(program).context,
            final(program).minion,
            outcome,
        ),
{
    let commands = generate_commands(&program.registry, &program.disabled_commands);
    program.minion.prompt.clear();
    program.minion.message_history.clear();
    program.minion.prompt.push(Message::System(script_request(commands.as_str(), task)));
    let ghost registry = program.registry;
    let ghost disabled = views(program.disabled_commands@);
    let ghost model = program.minion.model;
    let ghost request = script_prompt(registry, disabled, task@);
    proof {
        assert(message_views(program.minion.prompt@) =~= request);
        assert(message_views(program.minion.message_history@) =~= Seq::empty());
    }
    let mut attempt: usize = 1;
    loop
        invariant
            1 <= attempt <= SCRIPT_ATTEMPTS,
            program.registry == old(program).registry,
            program.disabled_commands == old(program).disabled_commands,
            program.plugins == old(program).plugins,
            program.goals == old(program).goals,
            program.model == old(program).model,
            program.parser == old(program).parser,
            program.name == old(program).name,
            program.role == old(program).role,
            program.personality == old(program).personality,
            program.minion.model == model,
            registry == old(program).registry,
            disabled == views(old(program).disabled_commands@),
            model == old(program).minion.model,
            request == script_prompt(registry, disabled, task@),
            message_views(program.minion.prompt@) == request,
            forall|ended: CommandContext, after: LLM<M>, o: Result<(String, MinionResponse), AgentError>|
             #[trigger]
                attempts_end_at(
                    registry,
                    disabled,
                    model,
                    request,
                    program.context,
                    message_views(program.minion.message_history@),
                    attempt as nat,
                    ended,
                    after,
                    o,
                ) ==> attempts_end_at(
                    registry,
                    disabled,
                    model,
                    request,
                    old(program).context,
                    Seq::empty(),
                    1,
                    ended,
                    after,
                    o,
                ),
        decreases SCRIPT_ATTEMPTS - attempt,
    {
        let ghost context = program.context;
        let ghost history = message_views(program.minion.message_history@);
        let ghost now = attempt as nat;
        let messages = program.minion.get_messages();
        let script = program.minion.model.get_response(&messages, Some(300), Some(30));
        let ghost given = script;
        let code = match script {
            Ok(code) => code,
            Err(e) => {
                let outcome = Err(e);
                proof {
                    assert(script_tried(
                        registry,
                        disabled,
                        model,
                        request,
                        context,
                        history,
                        given,
                        context,
                        given,
                    ));
                    assert(attempts_end_at(
                        registry,
                        disabled,
                        model,
                        request,
                        context,
                        history,
                        now,
                        program.context,
                        program.minion,
                        outcome,
                    ));
                }
                return outcome;
            },
        };
        let came = run_script(program, code.as_str());
        let ghost ran = program.context;
        let ghost result = came;
        match after_script(came, attempt) {
            AfterScript::SumUp(transcript) => {
                let ghost handed = transcript;
                let outcome = summarize(&mut program.minion, transcript);
                proof {
                    assert(result is Ok && result->Ok_0 == handed);
                    let sought = choose|sought: Result<(String, FindingsReport), AgentError>|
                     #[trigger]
                        summed_up(model, handed@, sought, program.minion, outcome);
                    assert(summed_up(model, handed@, sought, program.minion, outcome));
                    assert(script_tried(
                        registry,
                        disabled,
                        model,
                        request,
                        context,
                        history,
                        given,
                        ran,
                        result,
                    ));
                    assert(attempts_end_at(
                        registry,
                        disabled,
                        model,
                        request,
                        context,
                        history,
                        now,
                        program.context,
                        program.minion,
                        outcome,
                    ));
                }
                return outcome;
            },
            AfterScript::GiveUp(told, failure) => {
                program.minion.message_history.push(Message::User(told));
                let outcome = Err(failure);
                proof {
                    assert(message_views(program.minion.message_history@) =~= history.push(
                        feedback_on(result->Err_0),
                    ));
                    assert(script_tried(
                        registry,
                        disabled,
                        model,
                        request,
                        context,
                        history,
                        given,
                        ran,
                        result,
                    ));
                    assert(attempts_end_at(
                        registry,
                        disabled,
                        model,
                        request,
                        context,
                        history,
                        now,
                        program.context,
                        program.minion,
                        outcome,
                    ));
                }
                return outcome;
            },
            AfterScript::TryAgain(told) => {
                program.minion.message_history.push(Message::User(told));
                proof {
                    assert(message_views(program.minion.message_history@) =~= history.push(
                        feedback_on(result->Err_0),
                    ));
                }
            },
        }
        attempt += 1;
        proof {
            assert forall|
                ended: CommandContext,
                after: LLM<M>,
                o: Result<(String, MinionResponse), AgentError>,
            | #[trigger]
                attempts_end_at(
                    registry,
                    disabled,
                    model,
                    request,
                    program.context,
                    message_views(program.minion.message_history@),
                    attempt as nat,
                    ended,
                    after,
                    o,
                ) implies attempts_end_at(
                registry,
                disabled,
                model,
                request,
                old(program).context,
                Seq::empty(),
                1,
                ended,
                after,
                o,
            ) by {
                assert(script_tried(
                    registry,
                    disabled,
                    model,
                    request,
                    context,
                    history,
                    given,
                    ran,
                    result,
                ));
                assert(attempts_end_at(
                    registry,
                    disabled,
                    model,
                    request,
                    context,
                    history,
                    now,
                    ended,
                    after,
                    o,
                ));
            }
        }
    }
}


} // verus!
