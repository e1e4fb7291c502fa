use std::cell::RefCell;
use std::collections::VecDeque;

use smartgpt::agent::{
    AgentInfo, CommandCall, GoalInformation, LanguageModel, MemoryStore, Plugin, PluginCycle,
    ProgramInfo, ResponseParser, Takeaway, Thought, LLM,
};
use smartgpt::command::{
    Command, CommandContext, CommandImpl, EndGoals, PluginStore, Registry,
};
use smartgpt::cycle::{
    apply_process, build_request, close_results, first_missing_dependency, previous_replies,
    run_cycle, run_query, CycleOutcome, NewEndGoal, CYCLE_ATTEMPTS,
};
use smartgpt::error::AgentError;
use smartgpt::findings::{
    ask_for_findings, create_findings_prompt, store_all, try_parse_report, weigh_reply,
    FindingsReport, ReplyFormat, Weighed,
};
use smartgpt::history::{History, Message};
use smartgpt::minion::{
    after_script, failure_feedback, run_minion, script_request, summarize, summary_request,
    write_letter, AfterScript, MinionResponse,
};
use smartgpt::prompt::{generate_commands, generate_prompt};
use smartgpt::value::ScriptValue;

const HINT: &str = "\nAll commands have finished successfully.\nRemember that you can use multiple commands in one query, and you can use the output of one command in another.\nTake advantage of this! Try to do as much as possible in one query.\nYou may have up to three commands!\nContinue.";

struct Scripted {
    replies: RefCell<VecDeque<Result<String, AgentError>>>,
    asked: RefCell<Vec<(Vec<Message>, Option<u16>, Option<u8>)>>,
}

impl Scripted {
    fn new(replies: Vec<Result<&str, AgentError>>) -> Scripted {
        Scripted {
            replies: RefCell::new(
                replies.into_iter().map(|r| r.map(|s| s.to_string())).collect(),
            ),
            asked: RefCell::new(vec![]),
        }
    }
}

impl LanguageModel for Scripted {
    fn get_response(
        &self,
        messages: &Vec<Message>,
        max_tokens: Option<u16>,
        temperature_percent: Option<u8>,
    ) -> Result<String, AgentError> {
        self.asked
            .borrow_mut()
            .push((messages.clone(), max_tokens, temperature_percent));
        self.replies
            .borrow_mut()
            .pop_front()
            .unwrap_or(Err(AgentError::ModelCallFailed("no reply left".to_string())))
    }

    fn count_tokens(&self, text: &str) -> usize {
        text.split_whitespace().count()
    }
}

struct Memory {
    items: Vec<String>,
    refuses: Option<&'static str>,
}

impl MemoryStore for Memory {
    fn store_memory(&mut self, text: &str) -> Result<(), AgentError> {
        if self.refuses == Some(text) {
            return Err(AgentError::MemoryStoreFailed("full".to_string()));
        }
        self.items.push(text.to_string());
        Ok(())
    }
}

enum Action {
    WriteNote,
    Fail,
    Scribble,
}

impl CommandImpl for Action {
    fn invoke(
        &self,
        context: &mut CommandContext,
        args: Vec<ScriptValue>,
    ) -> Result<ScriptValue, AgentError> {
        match self {
            Action::WriteNote => {
                let mut notes = match context.store.get("notes") {
                    Some(ScriptValue::List(notes)) => notes,
                    _ => vec![],
                };
                notes.extend(args);
                context.store.insert("notes", ScriptValue::List(notes));
                Ok(ScriptValue::Text("saved".to_string()))
            }
            Action::Fail => Err(AgentError::CommandInvocationFailed("no network".to_string())),
            Action::Scribble => {
                let refused = context.history.append(Message::User("scribbled".to_string()));
                assert!(refused.is_none());
                context.end_goals.end_goal = 1;
                Ok(ScriptValue::Nil)
            }
        }
    }
}

struct Quiet;

impl PluginCycle for Quiet {
    fn create_data(&self, _value: ScriptValue) -> Option<ScriptValue> {
        None
    }

    fn create_context(
        &self,
        _store: &mut PluginStore,
        _previous_prompt: Option<&str>,
    ) -> Result<Option<String>, AgentError> {
        Ok(None)
    }

    fn apply_removed_response(
        &self,
        store: &mut PluginStore,
        _response: &Thought,
        followup: &str,
        _is_eviction: bool,
    ) -> Result<(), AgentError> {
        store.insert("last_removed", ScriptValue::Text(followup.to_string()));
        Ok(())
    }
}

/// Reads replies of the form `call <name> <arg>; ...` with an optional
/// leading `done:`; anything else is no thought.
struct Lines;

impl ResponseParser for Lines {
    fn parse_response(&self, text: &str) -> Option<Thought> {
        let (done, rest) = match text.strip_prefix("done:") {
            Some(rest) => (true, rest),
            None => (false, text),
        };
        let mut query = vec![];
        for part in rest.split(';').map(str::trim).filter(|p| !p.is_empty()) {
            let mut words = part.split_whitespace();
            if words.next() != Some("call") {
                return None;
            }
            let name = words.next()?.to_string();
            let args = words.map(|w| ScriptValue::Text(w.to_string())).collect();
            query.push(CommandCall { name, args });
        }
        Some(Thought {
            summary: vec![Takeaway { takeaway: "t".to_string(), points: vec![] }],
            goal_information: GoalInformation {
                current_endgoal: "g".to_string(),
                plan: vec![],
                step: "s".to_string(),
            },
            command_query: query,
            will_be_done_with_plan: done,
        })
    }
}

fn user(s: &str) -> Message {
    Message::User(s.to_string())
}

fn assistant(s: &str) -> Message {
    Message::Assistant(s.to_string())
}

fn system(s: &str) -> Message {
    Message::System(s.to_string())
}

fn registry() -> Registry<Action> {
    let mut registry = Registry::new();
    for (name, run) in [("write_note", Action::WriteNote), ("fail", Action::Fail)] {
        registry
            .register(
                "files",
                Command {
                    name: name.to_string(),
                    purpose: format!("purpose of {name}"),
                    args: vec![("text".to_string(), "the text".to_string())],
                    run,
                },
            )
            .unwrap();
    }
    registry
}

fn program(
    model: Vec<Result<&str, AgentError>>,
    minion: Vec<Result<&str, AgentError>>,
    history: Vec<Message>,
) -> ProgramInfo<Action, Quiet, Scripted, Lines> {
    ProgramInfo {
        name: "Ada".to_string(),
        role: "a helper".to_string(),
        goals: vec!["Take notes".to_string(), "Rest".to_string()],
        personality: "plain".to_string(),
        plugins: vec![Plugin { name: "files".to_string(), dependencies: vec![], cycle: Quiet }],
        registry: registry(),
        disabled_commands: vec![],
        context: CommandContext {
            history: History::from_messages(history).unwrap(),
            store: PluginStore::new(),
            command_out: vec!["stale".to_string()],
            end_goals: EndGoals {
                end_goal: 0,
                goals: vec!["Take notes".to_string(), "Rest".to_string()],
            },
        },
        model: Scripted::new(model),
        parser: Lines,
        minion: LLM {
            prompt: vec![system("old prompt")],
            message_history: vec![user("old message")],
            model: Scripted::new(minion),
        },
    }
}

fn notes(program: &ProgramInfo<Action, Quiet, Scripted, Lines>) -> Option<ScriptValue> {
    program.context.store.get("notes")
}

fn texts(items: &[&str]) -> Vec<String> {
    items.iter().map(|s| s.to_string()).collect()
}

const SUMMARY: &str = "```yml\nfindings:\n- The note was saved\n\nchanges:\n- Saved \"hello\"\n- Nothing else\n```";

#[test]
fn minion_runs_a_script_and_reports() {
    let mut program = program(vec![], vec![Ok("write_note(\"hello\")"), Ok(SUMMARY)], vec![]);
    let (letter, report) = run_minion(&mut program, "Save a greeting", false).unwrap();
    assert_eq!(
        report,
        MinionResponse {
            findings: texts(&["The note was saved"]),
            changes: texts(&["Saved \"hello\"", "Nothing else"]),
        }
    );
    assert_eq!(
        letter,
        "Dear Boss,\n\nI have completed the tasks you assigned to me. These are my findings:\n- The note was saved\n\nThese are the changes I had to carry out:\n- Saved \"hello\"\n- Nothing else\n\nSincerely, Your Employee."
    );
    assert_eq!(
        notes(&program),
        Some(ScriptValue::List(vec![ScriptValue::Text("hello".to_string())]))
    );
    let asked = program.minion.model.asked.borrow();
    assert_eq!(asked.len(), 2);
    let commands = generate_commands(&program.registry, &program.disabled_commands);
    assert_eq!(
        asked[0],
        (vec![system(&script_request(&commands, "Save a greeting"))], Some(300), Some(30))
    );
    let transcript = "Command write_note(\"hello\") was successful and returned:\n\"saved\"";
    assert_eq!(
        asked[1],
        (vec![system(&summary_request()), user(transcript)], Some(1000), None)
    );
    assert!(program.minion.prompt.is_empty());
    assert_eq!(
        program.minion.message_history,
        vec![system(&summary_request()), user(transcript), assistant(SUMMARY)]
    );
}

#[test]
fn minion_is_told_why_its_script_failed() {
    let mut program = program(
        vec![],
        vec![
            Ok("write_note(\"first\")\nerror(\"second statement\")"),
            Ok("write_note(\"again\")"),
            Ok(SUMMARY),
        ],
        vec![],
    );
    let outcome = run_minion(&mut program, "Save twice", true);
    assert!(outcome.is_ok());
    assert_eq!(
        notes(&program),
        Some(ScriptValue::List(vec![
            ScriptValue::Text("first".to_string()),
            ScriptValue::Text("again".to_string()),
        ]))
    );
    let asked = program.minion.model.asked.borrow();
    assert_eq!(asked.len(), 3);
    let second = &asked[1].0;
    assert_eq!(second.len(), 2);
    assert_eq!(second[0], asked[0].0[0]);
    match &second[1] {
        Message::User(feedback) => {
            assert!(feedback.starts_with("Unfortunately, that did not work. \nThe error was: "));
            assert!(feedback.contains("second statement"), "{feedback}");
            assert!(feedback.ends_with(
                "Ensure your response is exactly valid LUA and can be parsed as valid LUA."
            ));
        }
        other => panic!("unexpected message: {other:?}"),
    }
}

#[test]
fn minion_hands_on_the_failure_of_its_last_script() {
    let mut program = program(
        vec![],
        vec![Ok("error(\"one\")"), Ok("error(\"two\")"), Ok("error(\"three\")"), Ok(SUMMARY)],
        vec![],
    );
    let outcome = run_minion(&mut program, "Fail", false);
    match outcome {
        Err(AgentError::ScriptParseOrRuntimeError(message)) => {
            assert!(message.contains("three"), "{message}");
            assert!(!message.contains("two"), "{message}");
        }
        other => panic!("unexpected outcome: {other:?}"),
    }
    assert_eq!(program.minion.model.asked.borrow().len(), 3);
    assert_eq!(program.minion.message_history.len(), 3);
    assert_eq!(program.minion.prompt.len(), 1);
}

#[test]
fn minion_fails_when_its_model_fails() {
    let mut program = program(vec![], vec![], vec![]);
    assert_eq!(
        run_minion(&mut program, "Anything", false),
        Err(AgentError::ModelCallFailed("no reply left".to_string()))
    );
}

#[test]
fn minion_fails_when_no_summary_can_be_read() {
    let mut program = program(
        vec![],
        vec![Ok("write_note(\"x\")"), Ok("no"), Ok("still no"), Ok("never")],
        vec![],
    );
    assert_eq!(
        run_minion(&mut program, "Anything", false),
        Err(AgentError::ResponseParseError("never".to_string()))
    );
    assert_eq!(program.minion.model.asked.borrow().len(), 4);
}

#[test]
fn summary_is_asked_of_a_fresh_conversation() {
    let mut minion = LLM {
        prompt: vec![system("old")],
        message_history: vec![user("old")],
        model: Scripted::new(vec![Ok("not yaml: ["), Ok(SUMMARY)]),
    };
    let (letter, report) = summarize(&mut minion, "the transcript".to_string()).unwrap();
    assert_eq!(letter, write_letter(&report));
    assert_eq!(
        minion.message_history,
        vec![system(&summary_request()), user("the transcript"), assistant(SUMMARY)]
    );
    assert_eq!(minion.model.asked.borrow().len(), 2);
}

#[test]
fn letter_lists_every_item_under_its_heading() {
    let report = MinionResponse {
        findings: texts(&["f1", "f2", "f3"]),
        changes: texts(&["c1"]),
    };
    let letter = write_letter(&report);
    let findings_at = letter.find("These are my findings:\n- f1\n- f2\n- f3\n\n").unwrap();
    let changes_at = letter
        .find("These are the changes I had to carry out:\n- c1\n\nSincerely")
        .unwrap();
    assert!(findings_at < changes_at);
    let empty = MinionResponse { findings: vec![], changes: vec![] };
    assert_eq!(
        write_letter(&empty),
        "Dear Boss,\n\nI have completed the tasks you assigned to me. These are my findings:\n\n\nThese are the changes I had to carry out:\n\n\nSincerely, Your Employee."
    );
}

#[test]
fn requests_to_the_minion_have_their_wording() {
    let request = script_request("    now:", "Tell the time");
    assert!(request.starts_with("\nUsing these commands and ONLY these commands:\n    now:\n\n"));
    assert!(request.contains(":\nTell the time\n\nUse the exact commands mentioned"));
    assert!(request.ends_with("Your script will be in the LUA Scripting Language. LUA.\n        "));
    assert_eq!(
        failure_feedback("boom"),
        "Unfortunately, that did not work. \nThe error was: boom\n\n\nPlease try again in the exact same format with a fixed LUA script\nRespond ONLY with a LUA script. \nYou may provide additional commentary on the fixes in code comments.\nEnsure your response is exactly valid LUA and can be parsed as valid LUA."
    );
    assert!(summary_request().ends_with("```yml\nfindings:\n- A\n- B\n\nchanges:\n- A\n- B\n```"));
    assert!(summary_request().starts_with("First, create a list of concise points"));
    assert_eq!(summary_request().len(), 331);
    assert_eq!(script_request("", "").len(), 405);
}

fn agent(replies: Vec<Result<&str, AgentError>>) -> AgentInfo<Scripted, Memory> {
    AgentInfo {
        llm: LLM {
            prompt: vec![system("You are an employee.")],
            message_history: vec![user("Do the work."), assistant("Done.")],
            model: Scripted::new(replies),
        },
        observations: Memory { items: vec![], refuses: None },
    }
}

const FINDINGS: &str = "```json\n{\"findings\": [\"A\", \"B\"], \"changes\": [\"C\"]}\n```";

#[test]
fn findings_are_asked_for_and_remembered() {
    let mut agent = agent(vec![Ok(FINDINGS)]);
    let report = ask_for_findings(&mut agent).unwrap();
    assert_eq!(
        report,
        FindingsReport { findings: texts(&["A", "B"]), changes: texts(&["C"]) }
    );
    assert_eq!(agent.observations.items, texts(&["A", "B", "C"]));
    let question = user(&create_findings_prompt());
    assert_eq!(
        agent.llm.message_history,
        vec![user("Do the work."), assistant("Done."), question.clone()]
    );
    let asked = agent.llm.model.asked.borrow();
    assert_eq!(
        *asked,
        vec![(
            vec![system("You are an employee."), user("Do the work."), assistant("Done."), question],
            Some(300),
            None
        )]
    );
}

#[test]
fn findings_get_a_second_attempt() {
    let mut agent = agent(vec![Ok("I forgot the format"), Ok(FINDINGS)]);
    assert!(ask_for_findings(&mut agent).is_ok());
    assert_eq!(agent.llm.model.asked.borrow().len(), 2);
    let mut agent = self::agent(vec![Ok("no"), Ok("{\"findings\": 1}"), Ok(FINDINGS)]);
    assert_eq!(
        ask_for_findings(&mut agent),
        Err(AgentError::ResponseParseError("{\"findings\": 1}".to_string()))
    );
    assert_eq!(agent.llm.model.asked.borrow().len(), 2);
    assert!(agent.observations.items.is_empty());
    assert_eq!(agent.llm.message_history.len(), 3);
}

#[test]
fn findings_fail_when_model_or_memory_fails() {
    let mut silent = agent(vec![Err(AgentError::ModelCallFailed("timeout".to_string()))]);
    assert_eq!(
        ask_for_findings(&mut silent),
        Err(AgentError::ModelCallFailed("timeout".to_string()))
    );
    let mut forgetful = agent(vec![Ok(FINDINGS)]);
    forgetful.observations.refuses = Some("B");
    assert_eq!(
        ask_for_findings(&mut forgetful),
        Err(AgentError::MemoryStoreFailed("full".to_string()))
    );
    assert_eq!(forgetful.observations.items, texts(&["A"]));
}

#[test]
fn no_attempts_means_no_report() {
    let llm = agent(vec![Ok(FINDINGS)]).llm;
    assert_eq!(
        try_parse_report(&llm, 0, None, ReplyFormat::Json),
        Err(AgentError::ResponseParseError(String::new()))
    );
    assert!(llm.model.asked.borrow().is_empty());
    let (reply, report) = try_parse_report(&llm, 1, Some(7), ReplyFormat::Json).unwrap();
    assert_eq!(reply, FINDINGS);
    assert_eq!(report.changes, texts(&["C"]));
}

#[test]
fn messages_are_prompt_then_history() {
    let llm = agent(vec![]).llm;
    assert_eq!(
        llm.get_messages(),
        vec![system("You are an employee."), user("Do the work."), assistant("Done.")]
    );
}

fn reminder(goal: &str) -> String {
    format!("\n\nYour current endgoal is {goal:?} Ensure the response can be parsed by Python json.loads")
}

#[test]
fn first_cycle_opens_the_history() {
    let mut program = program(vec![Ok("call write_note hello")], vec![], vec![]);
    let report = apply_process(&mut program).unwrap();
    let mut store = PluginStore::new();
    let prompt = generate_prompt(
        &mut store,
        "Ada",
        "a helper",
        "Take notes",
        &vec![],
        &registry(),
        &program.plugins,
        None,
    )
    .unwrap();
    assert_eq!(report.prompt, prompt);
    assert_eq!(report.reply, "call write_note hello");
    let results = format!(
        "Command write_note(\"hello\") was successful and returned:\n\"saved\"\n{HINT}"
    );
    assert_eq!(report.results, results);
    assert_eq!(report.moved_on_to, None);
    assert_eq!(report.thought.command_query.len(), 1);
    let sent = user(&format!("{prompt}{}", reminder("Take notes")));
    assert_eq!(
        program.context.history.messages(),
        vec![sent.clone(), assistant("call write_note hello"), user(&results)]
    );
    assert_eq!(*program.model.asked.borrow(), vec![(vec![sent], None, None)]);
    assert_eq!(program.context.command_out.len(), 2);
    assert_eq!(program.context.command_out[1], HINT);
}

#[test]
fn later_cycle_replaces_the_leading_message_and_marks_the_last() {
    let before = vec![user("old prompt"), assistant("call write_note a"), user("old results")];
    let mut program = program(vec![Ok("done: call write_note b")], vec![], before);
    let report = apply_process(&mut program).unwrap();
    assert_eq!(
        report.moved_on_to,
        Some(NewEndGoal { new_end_goal: "Rest".to_string() })
    );
    assert_eq!(program.context.end_goals.end_goal, 1);
    let history = program.context.history.messages();
    assert_eq!(history.len(), 6);
    assert_eq!(history[0], user(&report.prompt));
    assert_eq!(history[1], assistant("call write_note a"));
    assert_eq!(history[2], user(&format!("old results{}", reminder("Take notes"))));
    assert_eq!(history[3], assistant("done: call write_note b"));
    assert_eq!(history[4], user(&report.results));
    assert_eq!(history[5], user("You have moved onto your next endgoal: Rest"));
    assert_eq!(program.model.asked.borrow()[0].0, history[..3].to_vec());
}

#[test]
fn failed_cycle_leaves_no_exchange_behind() {
    let before = vec![user("old prompt"), assistant("call write_note a"), user("old results")];
    let cases: Vec<(Vec<Result<&str, AgentError>>, AgentError)> = vec![
        (
            vec![Err(AgentError::ModelCallFailed("timeout".to_string()))],
            AgentError::ModelCallFailed("timeout".to_string()),
        ),
        (
            vec![Ok("I would rather chat")],
            AgentError::ResponseParseError("no thought detected.".to_string()),
        ),
        (
            vec![Ok("call launch now")],
            AgentError::CommandNotFound("launch".to_string()),
        ),
        (
            vec![Ok("call write_note kept; call fail")],
            AgentError::CommandInvocationFailed("no network".to_string()),
        ),
    ];
    for (replies, expected) in cases {
        let mut program = program(replies, vec![], before.clone());
        assert_eq!(apply_process(&mut program).err(), Some(expected));
        assert_eq!(program.context.history.messages(), before);
        assert_eq!(program.context.end_goals.end_goal, 0);
    }
}

#[test]
fn commands_before_a_failure_keep_their_effects() {
    let mut program = program(vec![Ok("call write_note kept; call fail; call write_note lost")], vec![], vec![]);
    assert!(apply_process(&mut program).is_err());
    assert_eq!(
        notes(&program),
        Some(ScriptValue::List(vec![ScriptValue::Text("kept".to_string())]))
    );
    assert_eq!(program.context.command_out.len(), 1);
}

#[test]
fn round_goes_through_at_the_first_good_attempt() {
    let mut program = program(
        vec![Ok("nonsense"), Err(AgentError::ModelCallFailed("x".to_string())), Ok("call write_note late")],
        vec![],
        vec![],
    );
    match run_cycle(&mut program).unwrap() {
        CycleOutcome::Completed { report, failures, eviction } => {
            assert_eq!(
                failures,
                vec![
                    AgentError::ResponseParseError("no thought detected.".to_string()),
                    AgentError::ModelCallFailed("x".to_string()),
                ]
            );
            assert_eq!(report.reply, "call write_note late");
            assert_eq!(eviction.steps, 0);
        }
        CycleOutcome::Reset { .. } => panic!("unexpected reset"),
    }
    assert_eq!(program.context.history.len(), 3);
}

#[test]
fn round_starts_over_after_five_failures() {
    let before = vec![user("old prompt"), assistant("call write_note a"), user("old results")];
    let mut program = program(
        vec![Ok("1"), Ok("2"), Ok("3"), Ok("4"), Ok("call fail"), Ok("call write_note never")],
        vec![],
        before,
    );
    match run_cycle(&mut program).unwrap() {
        CycleOutcome::Reset { failures, reset, .. } => {
            assert_eq!(failures.len(), CYCLE_ATTEMPTS);
            assert_eq!(
                failures[0],
                AgentError::ResponseParseError("no thought detected.".to_string())
            );
            assert_eq!(
                failures[4],
                AgentError::CommandInvocationFailed("no network".to_string())
            );
            assert_eq!(reset.steps, 1);
            assert_eq!(reset.exchanges, 1);
            assert_eq!(reset.notifications, 1);
        }
        CycleOutcome::Completed { .. } => panic!("unexpected success"),
    }
    assert_eq!(program.model.asked.borrow().len(), CYCLE_ATTEMPTS);
    assert_eq!(program.context.history.len(), 0);
    assert_eq!(
        program.context.store.get("last_removed"),
        Some(ScriptValue::Text("old results".to_string()))
    );
}

#[test]
fn round_evicts_before_it_asks() {
    let filler = "w ".repeat(2000);
    let before = vec![
        user("old prompt"),
        assistant("call write_note a"),
        user(&filler),
        assistant("call write_note b"),
        user(&filler),
        user("recent"),
    ];
    let mut program = program(vec![Ok("call write_note c")], vec![], before);
    match run_cycle(&mut program).unwrap() {
        CycleOutcome::Completed { eviction, failures, .. } => {
            assert!(failures.is_empty());
            assert_eq!(eviction.steps, 1);
            assert_eq!(eviction.exchanges, 1);
            assert_eq!(eviction.tokens_before, 4006);
            assert_eq!(eviction.tokens_after, 2004);
        }
        CycleOutcome::Reset { .. } => panic!("unexpected reset"),
    }
    assert_eq!(program.context.history.len(), 6);
}

#[test]
fn request_and_results_are_built_as_stated() {
    let history = History::from_messages(vec![system("s"), user("u")]).unwrap();
    assert_eq!(
        build_request(&history, "P", "say \"hi\""),
        vec![user("P"), user(&format!("u{}", reminder("say \"hi\"")))]
    );
    assert_eq!(
        build_request(&History::new(), "P", "g"),
        vec![user(&format!("P{}", reminder("g")))]
    );
    let mut out = vec!["a".to_string(), "b".to_string()];
    assert_eq!(close_results(&mut out), format!("a\nb\n{HINT}"));
    assert_eq!(out.len(), 3);
    let mut none = vec![];
    assert_eq!(close_results(&mut none), HINT);
}

#[test]
fn previous_replies_are_those_of_the_assistant() {
    let history = History::from_messages(vec![
        system("s"),
        assistant("one"),
        user("u"),
        assistant("two"),
        user("v"),
    ])
    .unwrap();
    assert_eq!(previous_replies(&history), Some("one\ntwo".to_string()));
    let short = History::from_messages(vec![system("s")]).unwrap();
    assert_eq!(previous_replies(&short), None);
    let no_reply = History::from_messages(vec![system("s"), user("u")]).unwrap();
    assert_eq!(previous_replies(&no_reply), Some(String::new()));
}

#[test]
fn query_runs_in_order_and_stops_at_a_failure() {
    let mut program = program(vec![], vec![], vec![]);
    let call = |name: &str, arg: &str| CommandCall {
        name: name.to_string(),
        args: vec![ScriptValue::Text(arg.to_string())],
    };
    let query = vec![call("write_note", "1"), call("write_note", "2")];
    assert_eq!(run_query(&program.registry, &mut program.context, &query), Ok(()));
    assert_eq!(program.context.command_out.len(), 3);
    let failing = vec![call("write_note", "3"), call("missing", "x"), call("write_note", "4")];
    assert_eq!(
        run_query(&program.registry, &mut program.context, &failing),
        Err(AgentError::CommandNotFound("missing".to_string()))
    );
    assert_eq!(program.context.command_out.len(), 4);
    assert_eq!(run_query(&program.registry, &mut program.context, &vec![]), Ok(()));
}

#[test]
fn missing_dependency_is_found() {
    let plugin = |name: &str, deps: &[&str]| Plugin {
        name: name.to_string(),
        dependencies: texts(deps),
        cycle: Quiet,
    };
    let complete = vec![plugin("memory", &[]), plugin("browse", &["memory", "browse"])];
    assert_eq!(first_missing_dependency(&complete), None);
    let lacking = vec![
        plugin("memory", &[]),
        plugin("browse", &["memory", "search", "files"]),
        plugin("notes", &["files"]),
    ];
    assert_eq!(first_missing_dependency(&lacking), Some((1, 1)));
    let none: Vec<Plugin<Quiet>> = vec![];
    assert_eq!(first_missing_dependency(&none), None);
}

#[test]
fn new_end_goal_is_announced() {
    let goal = NewEndGoal { new_end_goal: "Bake".to_string() };
    assert_eq!(goal.message(), "You have moved onto your next endgoal: Bake");
}

#[test]
fn items_are_stored_in_order_until_one_is_refused() {
    let mut memory = Memory { items: vec![], refuses: Some("c") };
    let outcome = store_all(&mut memory, &texts(&["a", "b", "c", "d"]));
    assert_eq!(
        outcome,
        Err(AgentError::MemoryStoreFailed("full".to_string()))
    );
    assert_eq!(memory.items, texts(&["a", "b"]));
    assert_eq!(store_all(&mut memory, &texts(&["d", "e"])), Ok(()));
    assert_eq!(memory.items, texts(&["a", "b", "d", "e"]));
    assert_eq!(store_all(&mut memory, &vec![]), Ok(()));
}

#[test]
fn reply_is_weighed_by_what_it_holds() {
    assert_eq!(
        weigh_reply(Ok(FINDINGS.to_string()), ReplyFormat::Json),
        Weighed::Found(
            FINDINGS.to_string(),
            FindingsReport { findings: texts(&["A", "B"]), changes: texts(&["C"]) }
        )
    );
    assert_eq!(
        weigh_reply(Ok(SUMMARY.to_string()), ReplyFormat::Yaml),
        Weighed::Found(
            SUMMARY.to_string(),
            FindingsReport {
                findings: texts(&["The note was saved"]),
                changes: texts(&["Saved \"hello\"", "Nothing else"]),
            }
        )
    );
    assert_eq!(
        weigh_reply(Ok("no report".to_string()), ReplyFormat::Json),
        Weighed::Unread("no report".to_string())
    );
    assert_eq!(
        weigh_reply(Err(AgentError::ModelCallFailed("down".to_string())), ReplyFormat::Yaml),
        Weighed::Failed(AgentError::ModelCallFailed("down".to_string()))
    );
}

#[test]
fn report_search_ends_at_a_failure_of_the_model() {
    let odd = AgentError::CommandInvocationFailed("odd".to_string());
    let llm = agent(vec![Ok("no"), Err(odd.clone()), Ok(FINDINGS)]).llm;
    assert_eq!(try_parse_report(&llm, 3, None, ReplyFormat::Json), Err(odd));
    assert_eq!(llm.model.asked.borrow().len(), 2);
}

#[test]
fn report_search_fails_with_the_last_reply() {
    let llm = agent(vec![Ok("one"), Ok("two"), Ok("three"), Ok(FINDINGS)]).llm;
    assert_eq!(
        try_parse_report(&llm, 3, Some(5), ReplyFormat::Json),
        Err(AgentError::ResponseParseError("three".to_string()))
    );
    let asked = llm.model.asked.borrow();
    assert_eq!(asked.len(), 3);
    assert_eq!(asked[0], asked[2]);
    assert_eq!(asked[0].1, Some(5));
}

#[test]
fn report_search_ends_at_the_first_report() {
    let llm = agent(vec![Ok("one"), Ok(FINDINGS), Ok(SUMMARY)]).llm;
    let (reply, report) = try_parse_report(&llm, 3, None, ReplyFormat::Json).unwrap();
    assert_eq!(reply, FINDINGS);
    assert_eq!(report.findings, texts(&["A", "B"]));
    assert_eq!(llm.model.asked.borrow().len(), 2);
}

#[test]
fn what_follows_a_script_depends_on_the_attempt() {
    assert_eq!(after_script(Ok("ran".to_string()), 1), AfterScript::SumUp("ran".to_string()));
    assert_eq!(after_script(Ok("ran".to_string()), 3), AfterScript::SumUp("ran".to_string()));
    let failure = AgentError::ScriptParseOrRuntimeError("boom".to_string());
    let told = failure_feedback("boom");
    assert_eq!(after_script(Err(failure.clone()), 1), AfterScript::TryAgain(told.clone()));
    assert_eq!(after_script(Err(failure.clone()), 2), AfterScript::TryAgain(told.clone()));
    assert_eq!(after_script(Err(failure.clone()), 3), AfterScript::GiveUp(told, failure));
}

#[test]
fn minion_adds_one_message_for_each_failed_script() {
    let mut program = program(
        vec![],
        vec![Ok("error(\"one\")"), Ok("fail(\"x\")"), Ok("error(\"three\")"), Ok(SUMMARY)],
        vec![],
    );
    let last = match run_minion(&mut program, "Fail", false) {
        Err(AgentError::ScriptParseOrRuntimeError(message)) => message,
        other => panic!("unexpected outcome: {other:?}"),
    };
    let commands = generate_commands(&program.registry, &program.disabled_commands);
    assert_eq!(program.minion.prompt, vec![system(&script_request(&commands, "Fail"))]);
    let history = &program.minion.message_history;
    assert_eq!(history.len(), 3);
    assert_eq!(history[2], user(&failure_feedback(&last)));
    match &history[1] {
        Message::User(told) => assert!(told.contains("no network"), "{told}"),
        other => panic!("unexpected message: {other:?}"),
    }
    let asked = program.minion.model.asked.borrow();
    assert_eq!(asked.len(), 3);
    assert_eq!(asked[1].0, vec![program.minion.prompt[0].clone(), history[0].clone()]);
    assert_eq!(
        asked[2].0,
        vec![program.minion.prompt[0].clone(), history[0].clone(), history[1].clone()]
    );
    assert_eq!(asked[2].1, Some(300));
    assert_eq!(asked[2].2, Some(30));
}

#[test]
fn minion_asks_for_no_script_after_the_first_that_runs() {
    let mut program = program(
        vec![],
        vec![Ok("write_note(\"only\")"), Ok(SUMMARY), Ok("write_note(\"never\")")],
        vec![],
    );
    assert!(run_minion(&mut program, "Once", false).is_ok());
    assert_eq!(program.minion.model.asked.borrow().len(), 2);
    assert_eq!(
        notes(&program),
        Some(ScriptValue::List(vec![ScriptValue::Text("only".to_string())]))
    );
}

#[test]
fn minion_runs_no_script_when_its_model_fails() {
    let down = AgentError::CommandInvocationFailed("down".to_string());
    let mut program = program(
        vec![],
        vec![Ok("write_note(\"a\")\nerror(\"b\")"), Err(down.clone()), Ok("write_note(\"c\")")],
        vec![],
    );
    assert_eq!(run_minion(&mut program, "Twice", false), Err(down));
    assert_eq!(program.minion.model.asked.borrow().len(), 2);
    assert_eq!(program.minion.message_history.len(), 1);
    assert_eq!(
        notes(&program),
        Some(ScriptValue::List(vec![ScriptValue::Text("a".to_string())]))
    );
}

#[test]
fn summary_failure_leaves_the_request_and_the_transcript() {
    let mut minion = LLM {
        prompt: vec![system("old")],
        message_history: vec![user("older")],
        model: Scripted::new(vec![Ok("no"), Err(AgentError::ModelCallFailed("gone".to_string()))]),
    };
    assert_eq!(
        summarize(&mut minion, "the transcript".to_string()),
        Err(AgentError::ModelCallFailed("gone".to_string()))
    );
    assert!(minion.prompt.is_empty());
    assert_eq!(
        minion.message_history,
        vec![system(&summary_request()), user("the transcript")]
    );
}

#[test]
fn findings_leave_the_memory_alone_when_no_reply_is_read() {
    let mut agent = agent(vec![Ok("no"), Ok("nothing")]);
    agent.observations.items = texts(&["earlier"]);
    assert_eq!(
        ask_for_findings(&mut agent),
        Err(AgentError::ResponseParseError("nothing".to_string()))
    );
    assert_eq!(agent.observations.items, texts(&["earlier"]));
}

#[test]
fn findings_store_nothing_after_an_item_is_refused() {
    let mut agent = agent(vec![Ok(FINDINGS)]);
    agent.observations.refuses = Some("A");
    assert_eq!(
        ask_for_findings(&mut agent),
        Err(AgentError::MemoryStoreFailed("full".to_string()))
    );
    assert!(agent.observations.items.is_empty());
    let mut agent = self::agent(vec![Ok(FINDINGS)]);
    agent.observations.refuses = Some("C");
    assert_eq!(
        ask_for_findings(&mut agent),
        Err(AgentError::MemoryStoreFailed("full".to_string()))
    );
    assert_eq!(agent.observations.items, texts(&["A", "B"]));
}

#[test]
fn failed_cycle_gives_the_history_back_as_it_was() {
    let before = vec![user("old prompt"), assistant("call write_note a"), user("old results")];
    let mut program = program(vec![Ok("call scribble x; call fail")], vec![], before.clone());
    program
        .registry
        .register(
            "files",
            Command {
                name: "scribble".to_string(),
                purpose: "writes into the history".to_string(),
                args: vec![],
                run: Action::Scribble,
            },
        )
        .unwrap();
    assert_eq!(
        apply_process(&mut program),
        Err(AgentError::CommandInvocationFailed("no network".to_string()))
    );
    assert_eq!(program.context.history.messages(), before);
    assert_eq!(program.context.end_goals.end_goal, 1);
    assert_eq!(program.context.command_out.len(), 1);
}

#[test]
fn failure_before_the_commands_changes_nothing_but_the_store() {
    let before = vec![user("old prompt"), assistant("call write_note a"), user("old results")];
    let mut program = program(vec![Ok("small talk")], vec![], before.clone());
    assert_eq!(
        apply_process(&mut program),
        Err(AgentError::ResponseParseError("no thought detected.".to_string()))
    );
    assert_eq!(program.context.history.messages(), before);
    assert_eq!(program.context.command_out, vec!["stale".to_string()]);
    assert_eq!(program.context.end_goals.end_goal, 0);
}
