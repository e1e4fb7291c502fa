//! What a delegated agent found and changed: how it is asked, how its reply
//! is read, and how the items are listed.

use crate::agent::{AgentInfo, LanguageModel, MemoryStore, LLM};
use crate::document::{
    braced, fenced, fenced_body, json_body, json_parsed, json_text_lists, texts_under,
    yaml_parsed, yaml_text_lists, DocumentModel,
};
use crate::conversation::failure_of;
use crate::error::{error_text, AgentError, ErrorModel};
use crate::history::{message_views, Message, MessageModel, Role};
use crate::text::{join, join_texts, views};
use crate::value::{field_of, ScriptValue, ValueModel};
use vstd::prelude::*;

verus! {

/// What an agent found, and what it changed for good.
#[derive(Clone, Debug, PartialEq, Eq)]
pub struct FindingsReport {
    pub findings: Vec<String>,
    pub changes: Vec<String>,
}

/// The two lists of a report, as mathematical values.
pub struct ReportModel {
    pub findings: Seq<Seq<char>>,
    pub changes: Seq<Seq<char>>,
}

impl View for FindingsReport {
    type V = ReportModel;

    open spec fn view(&self) -> ReportModel {
        ReportModel { findings: views(self.findings@), changes: views(self.changes@) }
    }
}

/// The format in which a structured reply is written.
#[derive(Clone, Copy, Debug, PartialEq, Eq, Structural)]
pub enum ReplyFormat {
    /// A JSON object, with anything around it.
    Json,
    /// YAML, inside a code fence or bare.
    Yaml,
}

/// The texts of a list of texts; `None` for anything else.
pub open spec fn texts_of(v: ValueModel) -> Option<Seq<Seq<char>>> {
    match v {
        ValueModel::List(items) => if forall|i: int|
            0 <= i < items.len() ==> (#[trigger] items[i]) is Text {
            Some(Seq::new(items.len(), |i: int| items[i]->Text_0))
        } else {
            None
        },
        _ => None,
    }
}

/// The report that a document holds: a record whose fields `findings` and
/// `changes` are lists of texts. Other fields do not count.
pub open spec fn report_of(doc: ValueModel) -> Option<ReportModel> {
    match doc {
        ValueModel::Record(fields) => {
            let findings = field_of(fields, "findings"@);
            let changes = field_of(fields, "changes"@);
            if findings is Some && changes is Some && texts_of(findings->0) is Some && texts_of(
                changes->0,
            ) is Some {
                Some(
                    ReportModel {
                        findings: texts_of(findings->0)->0,
                        changes: texts_of(changes->0)->0,
                    },
                )
            } else {
                None
            }
        },
        _ => None,
    }
}

fn list_of_texts(value: &ScriptValue) -> (texts: Option<Vec<String>>)
    ensures
        match texts {
            Some(list) => texts_of(value@) == Some(views(list@)),
            None => texts_of(value@) is None,
        },
{
    match value {
        ScriptValue::List(items) => {
            let ghost model = value@->List_0;
            let mut texts: Vec<String> = Vec::new();
            let mut i: usize = 0;
            while i < items.len()
                invariant
                    i <= items.len(),
                    value->List_0 == *items,
                    value is List,
                    model == value@->List_0,
                    model.len() == items@.len(),
                    texts.len() == i,
                    forall|j: int| 0 <= j < i ==> (#[trigger] model[j]) is Text,
                    forall|j: int| 0 <= j < i ==> texts@[j]@ == model[j]->Text_0,
                decreases items.len() - i,
            {
                proof {
                    assert(model[i as int] == items@[i as int]@);
                }
                match &items[i] {
                    ScriptValue::Text(text) => texts.push(text.clone()),
                    _ => {
                        return None;
                    },
                }
                i += 1;
            }
            Some(texts)
        },
        _ => None,
    }
}

/// Takes the report out of a document that was read from a reply.
pub fn report_from(doc: &ScriptValue) -> (report: Option<FindingsReport>)
    ensures
        match report {
            Some(r) => report_of(doc@) == Some(r@),
            None => report_of(doc@) is None,
        },
{
    let findings = match doc.field("findings") {
        Some(value) => list_of_texts(value),
        None => None,
    };
    let changes = match doc.field("changes") {
        Some(value) => list_of_texts(value),
        None => None,
    };
    match (findings, changes) {
        (Some(findings), Some(changes)) => Some(FindingsReport { findings, changes }),
        _ => None,
    }
}

/// The document that a reply holds in `format`: for JSON what stands between
/// the first `{` and the last `}`, for YAML the body of the first code
/// fence, or the whole reply where it has no fence.
pub open spec fn reply_document(reply: Seq<char>, format: ReplyFormat) -> Option<DocumentModel> {
    match format {
        ReplyFormat::Json => match braced(reply) {
            Some(body) => json_parsed(body),
            None => None,
        },
        ReplyFormat::Yaml => yaml_parsed(fenced(reply)),
    }
}

/// The report that a reply holds in `format`, if it holds one: the lists of
/// texts under `findings` and under `changes`. What the reply holds besides
/// them does not count.
pub open spec fn reply_report(reply: Seq<char>, format: ReplyFormat) -> Option<ReportModel> {
    let findings = texts_under(reply_document(reply, format), "findings"@);
    let changes = texts_under(reply_document(reply, format), "changes"@);
    if findings is Some && changes is Some {
        Some(ReportModel { findings: findings->0, changes: changes->0 })
    } else {
        None
    }
}

/// Reads the report out of a reply of the model, if the reply holds one.
pub fn read_report(reply: &str, format: ReplyFormat) -> (report: Option<FindingsReport>)
    ensures
        match report {
            Some(r) => reply_report(reply@, format) == Some(r@),
            None => reply_report(reply@, format) is None,
        },
{
    let lists = match format {
        ReplyFormat::Json => match json_body(reply) {
            Some(body) => json_text_lists(body.as_str(), "findings", "changes"),
            None => None,
        },
        ReplyFormat::Yaml => yaml_text_lists(fenced_body(reply).as_str(), "findings", "changes"),
    };
    match lists {
        Some((findings, changes)) => Some(FindingsReport { findings, changes }),
        None => None,
    }
}

/// What comes of one reply of the model when a report is sought.
#[derive(Debug, PartialEq, Eq)]
pub enum Weighed {
    /// The reply holds a report.
    Found(String, FindingsReport),
    /// The reply holds none.
    Unread(String),
    /// The model gave no reply.
    Failed(AgentError),
}

/// What comes of `reply` when a report in `format` is sought: the failure of
/// the model as it came, the reply with the report that it holds, or the
/// reply alone where it holds none.
pub open spec fn weighed(reply: Result<String, AgentError>, format: ReplyFormat, step: Weighed) -> bool {
    match reply {
        Err(e) => step == Weighed::Failed(e),
        Ok(text) => match reply_report(text@, format) {
            Some(report) => step matches Weighed::Found(kept, read) && kept == text && read@
                == report,
            None => step == Weighed::Unread(text),
        },
    }
}

/// Decides what comes of one reply of the model when a report is sought.
pub fn weigh_reply(reply: Result<String, AgentError>, format: ReplyFormat) -> (step: Weighed)
    ensures
        weighed(reply, format, step),
{
    match reply {
        Err(e) => Weighed::Failed(e),
        Ok(text) => match read_report(text.as_str(), format) {
            Some(report) => Weighed::Found(text, report),
            None => Weighed::Unread(text),
        },
    }
}

/// Whether asking the model up to `tries` times to continue `asked` may come
/// to `outcome`, where `last` is the reply before, if there was one.
///
/// A failure of the model ends the attempts at once and is the result, as it
/// came. The first reply that holds a report ends them too: the result is
/// that reply and that report. A reply that holds none uses up one attempt;
/// when none is left, the result is a `ResponseParseError` with the last
/// reply.
pub open spec fn report_sought<M: LanguageModel>(
    model: M,
    asked: Seq<MessageModel>,
    tries: nat,
    max_tokens: Option<u16>,
    format: ReplyFormat,
    last: Seq<char>,
    outcome: Result<(String, FindingsReport), AgentError>,
) -> bool
    decreases tries,
{
    if tries == 0 {
        outcome is Err && outcome->Err_0@ == ErrorModel::ResponseParseError(last)
    } else {
        exists|reply: Result<String, AgentError>, step: Weighed|
            {
                &&& #[trigger] model.may_reply(asked, max_tokens, None, reply)
                &&& #[trigger] weighed(reply, format, step)
                &&& match step {
                    Weighed::Failed(e) => outcome is Err && outcome->Err_0 == e,
                    Weighed::Found(text, report) => outcome is Ok && outcome->Ok_0.0 == text
                        && outcome->Ok_0.1 == report,
                    Weighed::Unread(text) => report_sought(
                        model,
                        asked,
                        (tries - 1) as nat,
                        max_tokens,
                        format,
                        text@,
                        outcome,
                    ),
                }
            }
    }
}

/// A reply and a report that the search for a report comes to belong
/// together: the reply is one that the model may give to what it was asked,
/// and the report is the one that the reply holds.
pub proof fn lemma_sought_report_is_read<M: LanguageModel>(
    model: M,
    asked: Seq<MessageModel>,
    tries: nat,
    max_tokens: Option<u16>,
    format: ReplyFormat,
    last: Seq<char>,
    outcome: Result<(String, FindingsReport), AgentError>,
)
    requires
        report_sought(model, asked, tries, max_tokens, format, last, outcome),
        outcome is Ok,
    ensures
        tries > 0,
        model.may_reply(asked, max_tokens, None, Ok(outcome->Ok_0.0)),
        reply_report(outcome->Ok_0.0@, format) == Some(outcome->Ok_0.1@),
    decreases tries,
{
    let (reply, step) = choose|reply: Result<String, AgentError>, step: Weighed|
        {
            &&& #[trigger] model.may_reply(asked, max_tokens, None, reply)
            &&& #[trigger] weighed(reply, format, step)
            &&& match step {
                Weighed::Failed(e) => outcome is Err && outcome->Err_0 == e,
                Weighed::Found(text, report) => outcome is Ok && outcome->Ok_0.0 == text
                    && outcome->Ok_0.1 == report,
                Weighed::Unread(text) => report_sought(
                    model,
                    asked,
                    (tries - 1) as nat,
                    max_tokens,
                    format,
                    text@,
                    outcome,
                ),
            }
        };
    match step {
        Weighed::Unread(text) => {
            lemma_sought_report_is_read(
                model,
                asked,
                (tries - 1) as nat,
                max_tokens,
                format,
                text@,
                outcome,
            );
        },
        _ => {},
    }
}

/// Asks the model up to `tries` times for a reply that holds a report, and
/// hands back the reply together with the report. A failure of the model
/// ends the attempts at once; replies that hold no report use them up.
pub fn try_parse_report<M: LanguageModel>(
    llm: &LLM<M>,
    tries: usize,
    max_tokens: Option<u16>,
    format: ReplyFormat,
) -> (outcome: Result<(String, FindingsReport), AgentError>)
    ensures
        report_sought(
            llm.model,
            message_views(llm.prompt@) + message_views(llm.message_history@),
            tries as nat,
            max_tokens,
            format,
            Seq::empty(),
            outcome,
        ),
{
    let messages = llm.get_messages();
    let ghost asked = message_views(llm.prompt@) + message_views(llm.message_history@);
    let mut last = String::new();
    let mut attempt: usize = 0;
    while attempt < tries
        invariant
            attempt <= tries,
            message_views(messages@) == asked,
            asked == message_views(llm.prompt@) + message_views(llm.message_history@),
            forall|o: Result<(String, FindingsReport), AgentError>| #[trigger]
                report_sought(
                    llm.model,
                    asked,
                    (tries - attempt) as nat,
                    max_tokens,
                    format,
                    last@,
                    o,
                ) ==> report_sought(
                    llm.model,
                    asked,
                    tries as nat,
                    max_tokens,
                    format,
                    Seq::empty(),
                    o,
                ),
        decreases tries - attempt,
    {
        let ghost left = (tries - attempt) as nat;
        let ghost before = last@;
        let reply = llm.model.get_response(&messages, max_tokens, None);
        let ghost said = reply;
        let step = weigh_reply(reply, format);
        match step {
            Weighed::Failed(e) => {
                let outcome = Err(e);
                proof {
                    assert(llm.model.may_reply(asked, max_tokens, None, said));
                    assert(weighed(said, format, step));
                    assert(report_sought(
                        llm.model,
                        asked,
                        left,
                        max_tokens,
                        format,
                        before,
                        outcome,
                    ));
                }
                return outcome;
            },
            Weighed::Found(text, report) => {
                let outcome = Ok((text, report));
                proof {
                    assert(llm.model.may_reply(asked, max_tokens, None, said));
                    assert(weighed(said, format, step));
                    assert(report_sought(
                        llm.model,
                        asked,
                        left,
                        max_tokens,
                        format,
                        before,
                        outcome,
                    ));
                }
                return outcome;
            },
            Weighed::Unread(text) => {
                last = text;
                proof {
                    assert forall|o: Result<(String, FindingsReport), AgentError>| #[trigger]
                        report_sought(
                            llm.model,
                            asked,
                            (tries - (attempt + 1)) as nat,
                            max_tokens,
                            format,
                            last@,
                            o,
                        ) implies report_sought(
                        llm.model,
                        asked,
                        tries as nat,
                        max_tokens,
                        format,
                        Seq::empty(),
                        o,
                    ) by {
                        assert(llm.model.may_reply(asked, max_tokens, None, said));
                        assert(weighed(said, format, step));
                        assert(report_sought(
                            llm.model,
                            asked,
                            left,
                            max_tokens,
                            format,
                            before,
                            o,
                        ));
                    }
                }
            },
        }
        attempt += 1;
    }
    let outcome = Err(AgentError::ResponseParseError(last));
    proof {
        assert(report_sought(
            llm.model,
            asked,
            (tries - attempt) as nat,
            max_tokens,
            format,
            last@,
            outcome,
        ));
    }
    outcome
}

/// The number of replies that an agent may give when asked for its findings.
pub const FINDINGS_ATTEMPTS: usize = 2;

/// What the model is told when it is asked for its findings.
pub const FINDINGS_PROMPT: &'static str = "First, create a list of concise points about your findings from the commands.

Then, create a list of long-lasting changes that were executed (i.e. writing to a file, posting a tweet.) Use quotes when discussing specific details.

Keep your findings list very brief.

Respond in this exact format:

```json
{
    \"findings\": [
      \"A\",
      \"B\"
    ],
    \"changes\": [
      \"A\",
      \"B\"
    ]
}
```

Ensure your response is fully valid JSON.";

/// What the model is told when it is asked for its findings.
pub open spec fn findings_prompt() -> Seq<char> {
    FINDINGS_PROMPT@
}

/// What the model is told when it is asked for its findings.
pub fn create_findings_prompt() -> (prompt: String)
    ensures
        prompt@ == findings_prompt(),
{
    String::from_str(FINDINGS_PROMPT)
}

/// Each of `points` behind a dash.
pub open spec fn dashed(points: Seq<Seq<char>>) -> Seq<Seq<char>> {
    points.map_values(|p: Seq<char>| "- "@ + p)
}

/// `points` as a list: one line for each, a dash in front, in order.
pub open spec fn points_text(points: Seq<Seq<char>>) -> Seq<char> {
    join(dashed(points), "\n"@)
}

/// Writes `points` as a list: one line for each, a dash in front, in order.
pub fn to_points(points: &[String]) -> (text: String)
    ensures
        text@ == points_text(views(points@)),
{
    let mut lines: Vec<String> = Vec::new();
    let mut i: usize = 0;
    while i < points.len()
        invariant
            i <= points.len(),
            lines.len() == i,
            forall|j: int| 0 <= j < i ==> lines@[j]@ == "- "@ + points@[j]@,
        decreases points.len() - i,
    {
        let mut line = String::from_str("- ");
        line.append(points[i].as_str());
        lines.push(line);
        i += 1;
    }
    proof {
        assert(views(lines@) =~= dashed(views(points@)));
    }
    join_texts(&lines, "\n")
}

/// Whether storing `items` in order may change the memory from `before` to
/// `after` and end in `failure` or in none: each item is stored once, and the
/// first that is not taken ends the round in the failure that the memory
/// gave, as it came. What was stored before stays stored.
pub open spec fn all_stored<S: MemoryStore>(
    before: S,
    items: Seq<Seq<char>>,
    after: S,
    failure: Option<AgentError>,
) -> bool
    decreases items.len(),
{
    if items.len() == 0 {
        after == before && failure is None
    } else {
        exists|left: S, stored: Result<(), AgentError>|
            {
                &&& #[trigger] before.may_store(items[0], left, stored)
                &&& match stored {
                    Ok(()) => all_stored(left, items.skip(1), after, failure),
                    Err(e) => after == left && failure == Some(e),
                }
            }
    }
}

/// Stores `items` in order in the memory.
pub fn store_all<S: MemoryStore>(memory: &mut S, items: &Vec<String>) -> (stored: Result<
    (),
    AgentError,
>)
    ensures
        all_stored(*old(memory), views(items@), *final(memory), failure_of(stored)),
{
    let mut i: usize = 0;
    proof {
        assert(views(items@).skip(0) =~= views(items@));
    }
    while i < items.len()
        invariant
            i <= items.len(),
            forall|after: S, failure: Option<AgentError>| #[trigger]
                all_stored(*memory, views(items@).skip(i as int), after, failure) ==> all_stored(
                    *old(memory),
                    views(items@),
                    after,
                    failure,
                ),
        decreases items.len() - i,
    {
        let ghost here = *memory;
        let ghost rest = views(items@).skip(i as int);
        let stored = memory.store_memory(items[i].as_str());
        proof {
            assert(rest[0] == items@[i as int]@);
            assert(rest.skip(1) =~= views(items@).skip(i + 1));
            assert(here.may_store(rest[0], *memory, stored));
        }
        match stored {
            Ok(()) => {
                proof {
                    assert forall|after: S, failure: Option<AgentError>| #[trigger]
                        all_stored(
                            *memory,
                            views(items@).skip(i + 1),
                            after,
                            failure,
                        ) implies all_stored(*old(memory), views(items@), after, failure) by {
                        assert(all_stored(here, rest, after, failure));
                    }
                }
            },
            Err(e) => {
                proof {
                    assert(all_stored(here, rest, *memory, Some(e)));
                }
                return Err(e);
            },
        }
        i += 1;
    }
    proof {
        assert(all_stored(*memory, views(items@).skip(i as int), *memory, None));
    }
    Ok(())
}

/// Whether keeping the items of `report` may change the memory from
/// `before` to `after` and come to `outcome`: the findings are stored, then
/// the changes, each in order. The first item that the memory does not take
/// ends it in the memory's failure, and no later item is stored; else the
/// result is the report.
pub open spec fn report_kept<S: MemoryStore>(
    before: S,
    report: FindingsReport,
    between: S,
    first: Option<AgentError>,
    second: Option<AgentError>,
    after: S,
    outcome: Result<FindingsReport, AgentError>,
) -> bool {
    &&& all_stored(before, views(report.findings@), between, first)
    &&& match first {
        Some(e) => after == between && outcome is Err && outcome->Err_0 == e,
        None => {
            &&& all_stored(between, views(report.changes@), after, second)
            &&& match second {
                Some(e) => outcome is Err && outcome->Err_0 == e,
                None => outcome is Ok && outcome->Ok_0 == report,
            }
        },
    }
}

/// The conversation that the model is to continue when an agent is asked for
/// its findings: the agent's own, with the question at its end.
pub open spec fn findings_question<M, S>(agent: AgentInfo<M, S>) -> Seq<MessageModel> {
    message_views(agent.llm.prompt@) + message_views(agent.llm.message_history@).push(
        MessageModel { role: Role::User, content: findings_prompt() },
    )
}

/// Whether asking an agent for its findings may have changed its memory to
/// `after` and come to `outcome`, by way of `sought`, what the search for a
/// report in the model's replies came to. The model gets two attempts at a
/// reply in JSON. Where the search fails, its failure is the result and the
/// memory is untouched; else the report that the reply holds is kept.
pub open spec fn findings_asked<M: LanguageModel, S: MemoryStore>(
    before: AgentInfo<M, S>,
    sought: Result<(String, FindingsReport), AgentError>,
    after: S,
    outcome: Result<FindingsReport, AgentError>,
) -> bool {
    &&& report_sought(
        before.llm.model,
        findings_question(before),
        FINDINGS_ATTEMPTS as nat,
        Some(300u16),
        ReplyFormat::Json,
        Seq::empty(),
        sought,
    )
    &&& match sought {
        Err(e) => after == before.observations && outcome is Err && outcome->Err_0 == e,
        Ok(found) => exists|between: S, first: Option<AgentError>, second: Option<AgentError>|
            #[trigger] report_kept(
                before.observations,
                found.1,
                between,
                first,
                second,
                after,
                outcome,
            ),
    }
}

/// Asks an agent what it found and changed, and keeps every item in the
/// agent's long-term memory: the findings first, then the changes, each in
/// order.
///
/// The question is added to the agent's history. The model gets two attempts
/// at a reply that holds a report.
pub fn ask_for_findings<M: LanguageModel, S: MemoryStore>(agent: &mut AgentInfo<M, S>) -> (outcome:
    Result<FindingsReport, AgentError>)
    ensures
        final(agent).llm.prompt == old(agent).llm.prompt,
        final(agent).llm.model == old(agent).llm.model,
        message_views(final(agent).llm.message_history@) == message_views(
            old(agent).llm.message_history@,
        ).push(MessageModel { role: Role::User, content: findings_prompt() }),
        exists|sought: Result<(String, FindingsReport), AgentError>| #[trigger]
            findings_asked(*old(agent), sought, final(agent).observations, outcome),
{
    let ghost before = message_views(agent.llm.message_history@);
    let question = Message::User(create_findings_prompt());
    agent.llm.message_history.push(question);
    proof {
        assert(message_views(agent.llm.message_history@) =~= before.push(
            MessageModel { role: Role::User, content: findings_prompt() },
        ));
    }
    let sought = try_parse_report(&agent.llm, FINDINGS_ATTEMPTS, Some(300), ReplyFormat::Json);
    let ghost came = sought;
    let report = match sought {
        Ok((_, report)) => report,
        Err(e) => {
            let outcome = Err(e);
            proof {
                assert(findings_asked(*old(agent), came, agent.observations, outcome));
            }
            return outcome;
        },
    };
    let first = store_all(&mut agent.observations, &report.findings);
    let ghost between = agent.observations;
    let ghost first_failure = failure_of(first);
    match first {
        Ok(()) => {},
        Err(e) => {
            let outcome = Err(e);
            proof {
                assert(report_kept(
                    old(agent).observations,
                    report,
                    between,
                    first_failure,
                    None,
                    agent.observations,
                    outcome,
                ));
                assert(findings_asked(*old(agent), came, agent.observations, outcome));
            }
            return outcome;
        },
    }
    let second = store_all(&mut agent.observations, &report.changes);
    let ghost second_failure = failure_of(second);
    let outcome = match second {
        Ok(()) => Ok(report),
        Err(e) => Err(e),
    };
    proof {
        assert(report_kept(
            old(agent).observations,
            came->Ok_0.1,
            between,
            first_failure,
            second_failure,
            agent.observations,
            outcome,
        ));
        assert(findings_asked(*old(agent), came, agent.observations, outcome));
    }
    outcome
}

} // verus!
