use smartgpt::agent::{
    LanguageModel, Plugin, PluginCycle, ProgramInfo, ResponseParser, Thought, LLM,
};
use smartgpt::command::{
    Command, CommandContext, CommandImpl, EndGoals, PluginStore, Registry,
};
use smartgpt::error::AgentError;
use smartgpt::history::{History, Message};
use smartgpt::script::{finish_script, run_script, script_prelude};
use smartgpt::value::ScriptValue;

enum Action {
    WriteNote,
    Fail,
    Echo,
    Count,
}

impl CommandImpl for Action {
    fn invoke(
        &self,
        context: &mut CommandContext,
        args: Vec<ScriptValue>,
    ) -> Result<ScriptValue, AgentError> {
        match self {
            Action::WriteNote => {
                let note = args.into_iter().next().unwrap_or(ScriptValue::Nil);
                context.store.insert("notes", note);
                Ok(ScriptValue::Text("saved".to_string()))
            }
            Action::Fail => Err(AgentError::CommandInvocationFailed(
                "disk is full".to_string(),
            )),
            Action::Echo => Ok(ScriptValue::List(args)),
            Action::Count => Ok(ScriptValue::Number(args.len() as i64)),
        }
    }
}

struct NoCycle;

impl PluginCycle for NoCycle {
    fn create_data(&self, _value: ScriptValue) -> Option<ScriptValue> {
        None
    }

    fn create_context(
        &self,
        _store: &mut PluginStore,
        _previous_prompt: Option<&str>,
    ) -> Result<Option<String>, AgentError> {
        Ok(None)
    }

    fn apply_removed_response(
        &self,
        _store: &mut PluginStore,
        _response: &Thought,
        _followup: &str,
        _is_eviction: bool,
    ) -> Result<(), AgentError> {
        Ok(())
    }
}

struct Silent;

impl LanguageModel for Silent {
    fn get_response(
        &self,
        _messages: &Vec<Message>,
        _max_tokens: Option<u16>,
        _temperature_percent: Option<u8>,
    ) -> Result<String, AgentError> {
        Err(AgentError::ModelCallFailed("silent".to_string()))
    }

    fn count_tokens(&self, text: &str) -> usize {
        text.split_whitespace().count()
    }
}

struct NoParser;

impl ResponseParser for NoParser {
    fn parse_response(&self, _text: &str) -> Option<Thought> {
        None
    }
}

fn command(name: &str, run: Action) -> Command<Action> {
    Command {
        name: name.to_string(),
        purpose: format!("purpose of {name}"),
        args: vec![("text".to_string(), "what to write".to_string())],
        run,
    }
}

fn program(disabled: Vec<String>) -> ProgramInfo<Action, NoCycle, Silent, NoParser> {
    let mut registry = Registry::new();
    registry
        .register("files", command("write_note", Action::WriteNote))
        .unwrap();
    registry
        .register("files", command("fail", Action::Fail))
        .unwrap();
    registry
        .register("tools", command("echo", Action::Echo))
        .unwrap();
    registry
        .register("tools", command("count", Action::Count))
        .unwrap();
    ProgramInfo {
        name: "agent".to_string(),
        role: "tester".to_string(),
        goals: vec!["test".to_string()],
        personality: "plain".to_string(),
        plugins: vec![Plugin {
            name: "files".to_string(),
            dependencies: vec![],
            cycle: NoCycle,
        }],
        registry,
        disabled_commands: disabled,
        context: CommandContext {
            history: History::new(),
            store: PluginStore::new(),
            command_out: vec![],
            end_goals: EndGoals {
                end_goal: 0,
                goals: vec!["test".to_string()],
            },
        },
        model: Silent,
        parser: NoParser,
        minion: LLM {
            prompt: vec![],
            message_history: vec![],
            model: Silent,
        },
    }
}

#[test]
fn script_call_is_written_to_the_transcript() {
    let mut program = program(vec![]);
    let transcript = run_script(&mut program, "write_note(\"hello\")").unwrap();
    assert_eq!(
        transcript,
        "Command write_note(\"hello\") was successful and returned:\n\"saved\""
    );
    assert_eq!(
        program.context.store.get("notes"),
        Some(ScriptValue::Text("hello".to_string()))
    );
}

#[test]
fn script_failure_keeps_earlier_effects() {
    let mut program = program(vec![]);
    let outcome = run_script(&mut program, "write_note(\"first\")\nerror(\"boom\")");
    match outcome {
        Err(AgentError::ScriptParseOrRuntimeError(message)) => {
            assert!(message.contains("boom"), "{message}");
        }
        other => panic!("unexpected outcome: {other:?}"),
    }
    assert_eq!(
        program.context.store.get("notes"),
        Some(ScriptValue::Text("first".to_string()))
    );
    assert_eq!(program.context.command_out.len(), 1);
}

#[test]
fn command_failure_reaches_the_script_as_its_text() {
    let mut program = program(vec![]);
    let outcome = run_script(&mut program, "write_note(\"kept\")\nfail()\nwrite_note(\"lost\")");
    match outcome {
        Err(AgentError::ScriptParseOrRuntimeError(message)) => {
            assert!(message.contains("disk is full"), "{message}");
        }
        other => panic!("unexpected outcome: {other:?}"),
    }
    assert_eq!(
        program.context.store.get("notes"),
        Some(ScriptValue::Text("kept".to_string()))
    );
}

#[test]
fn script_can_catch_a_command_failure() {
    let mut program = program(vec![]);
    let code = "local ok, err = pcall(fail)\nwrite_note(tostring(ok))";
    let transcript = run_script(&mut program, code).unwrap();
    assert_eq!(
        transcript,
        "Command write_note(\"false\") was successful and returned:\n\"saved\""
    );
}

#[test]
fn syntax_error_is_a_script_error() {
    let mut program = program(vec![]);
    let outcome = run_script(&mut program, "this is not lua");
    assert!(matches!(
        outcome,
        Err(AgentError::ScriptParseOrRuntimeError(_))
    ));
    assert!(program.context.command_out.is_empty());
}

#[test]
fn disabled_command_is_not_exposed() {
    let mut program = program(vec!["write_note".to_string()]);
    let outcome = run_script(&mut program, "write_note(\"hello\")");
    assert!(matches!(
        outcome,
        Err(AgentError::ScriptParseOrRuntimeError(_))
    ));
    assert_eq!(program.context.store.get("notes"), None);
    let outcome = run_script(&mut program, "__command(\"write_note\", \"hello\")");
    match outcome {
        Err(AgentError::ScriptParseOrRuntimeError(message)) => {
            assert!(message.contains("command not found: write_note"), "{message}");
        }
        other => panic!("unexpected outcome: {other:?}"),
    }
}

#[test]
fn values_cross_the_bridge_both_ways() {
    let mut program = program(vec![]);
    let code = "local back = echo(1, \"two\", true, {3, 4}, {k = \"v\"})\nwrite_note(back)";
    run_script(&mut program, code).unwrap();
    let expected = ScriptValue::List(vec![
        ScriptValue::Number(1),
        ScriptValue::Text("two".to_string()),
        ScriptValue::Bool(true),
        ScriptValue::List(vec![ScriptValue::Number(3), ScriptValue::Number(4)]),
        ScriptValue::Record(vec![(
            "k".to_string(),
            ScriptValue::Text("v".to_string()),
        )]),
    ]);
    assert_eq!(program.context.store.get("notes"), Some(expected));
}

#[test]
fn unsupported_arguments_are_dropped() {
    let mut program = program(vec![]);
    let code = "write_note(count(print, 1, 2.5, 4.0))";
    run_script(&mut program, code).unwrap();
    assert_eq!(
        program.context.store.get("notes"),
        Some(ScriptValue::Number(2))
    );
}

#[test]
fn calls_run_in_program_order() {
    let mut program = program(vec![]);
    let transcript = run_script(&mut program, "count()\ncount(1)\ncount(1, 2)").unwrap();
    assert_eq!(
        transcript,
        "Command count() was successful and returned:\n0\n\
         Command count(1) was successful and returned:\n1\n\
         Command count(1, 2) was successful and returned:\n2"
    );
}

#[test]
fn transcript_holds_only_the_calls_of_this_script() {
    let mut program = program(vec![]);
    program.context.command_out.push("earlier".to_string());
    let transcript = run_script(&mut program, "count()").unwrap();
    assert_eq!(transcript, "Command count() was successful and returned:\n0");
    assert_eq!(program.context.command_out.len(), 2);
}

#[test]
fn prelude_names_each_active_command() {
    let program = program(vec!["fail".to_string(), "echo".to_string()]);
    let lines = script_prelude(&program.registry, &program.disabled_commands);
    assert_eq!(
        lines,
        "_G[\"write_note\"] = function(...) return __command(\"write_note\", ...) end\n\
         _G[\"count\"] = function(...) return __command(\"count\", ...) end\n"
    );
}

#[test]
fn finish_script_reports_failure_or_transcript() {
    let out = vec!["a".to_string(), "b".to_string(), "c".to_string()];
    assert_eq!(finish_script(&out, 1, None), Ok("b\nc".to_string()));
    assert_eq!(finish_script(&out, 3, None), Ok(String::new()));
    assert_eq!(finish_script(&out, 7, None), Ok(String::new()));
    assert_eq!(
        finish_script(&out, 0, Some("boom".to_string())),
        Err(AgentError::ScriptParseOrRuntimeError("boom".to_string()))
    );
}

#[test]
fn table_that_holds_itself_is_dropped() {
    let mut program = program(vec![]);
    let code = "local t = {}\nt.me = t\nwrite_note(count(t, 1))";
    run_script(&mut program, code).unwrap();
    assert_eq!(
        program.context.store.get("notes"),
        Some(ScriptValue::Number(1))
    );
}

#[test]
fn dispatcher_needs_a_name() {
    let mut program = program(vec![]);
    let outcome = run_script(&mut program, "__command()");
    assert!(matches!(
        outcome,
        Err(AgentError::ScriptParseOrRuntimeError(_))
    ));
    let outcome = run_script(&mut program, "__command(\"no_such_command\")");
    match outcome {
        Err(AgentError::ScriptParseOrRuntimeError(message)) => {
            assert!(message.contains("command not found: no_such_command"), "{message}");
        }
        other => panic!("unexpected outcome: {other:?}"),
    }
}

#[test]
fn any_name_can_be_a_global() {
    let mut program = program(vec![]);
    program
        .registry
        .register("tools", command("say \"hi\"\n", Action::Count))
        .unwrap();
    let code = "write_note(_G[\"say \\\"hi\\\"\\n\"](1, 2, 3))";
    run_script(&mut program, code).unwrap();
    assert_eq!(
        program.context.store.get("notes"),
        Some(ScriptValue::Number(3))
    );
}

#[test]
fn list_with_a_gap_is_no_list_inside_the_interpreter() {
    let mut program = program(vec![]);
    run_script(&mut program, "write_note(count(echo(1, 2)))").unwrap();
    assert_eq!(
        program.context.store.get("notes"),
        Some(ScriptValue::Number(1))
    );
    run_script(&mut program, "write_note(count(echo(nil, 2)))").unwrap();
    assert_eq!(
        program.context.store.get("notes"),
        Some(ScriptValue::Number(0))
    );
    run_script(&mut program, "local back = echo(nil, 2)\nwrite_note(back[1] == nil and back[2] == 2)").unwrap();
    assert_eq!(
        program.context.store.get("notes"),
        Some(ScriptValue::Bool(true))
    );
}

#[test]
fn record_fields_are_found_by_name_in_the_script() {
    let mut program = program(vec![]);
    let code = "local r = echo({b = 1, a = \"x\", c = true})[1]\nwrite_note(r.a .. tostring(r.b) .. tostring(r.c))";
    run_script(&mut program, code).unwrap();
    assert_eq!(
        program.context.store.get("notes"),
        Some(ScriptValue::Text("x1true".to_string()))
    );
}

#[test]
fn list_filled_backwards_is_still_a_list() {
    let mut program = program(vec![]);
    let code = "local t = {}\nt[3] = \"c\"\nt[2] = \"b\"\nt[1] = \"a\"\nwrite_note(t)";
    run_script(&mut program, code).unwrap();
    assert_eq!(
        program.context.store.get("notes"),
        Some(ScriptValue::List(vec![
            ScriptValue::Text("a".to_string()),
            ScriptValue::Text("b".to_string()),
            ScriptValue::Text("c".to_string()),
        ]))
    );
    run_script(&mut program, "write_note({})").unwrap();
    assert_eq!(
        program.context.store.get("notes"),
        Some(ScriptValue::List(vec![]))
    );
    run_script(&mut program, "write_note(count({1, nil, 3}, {1, x = 2}, {[2] = 1}))").unwrap();
    assert_eq!(
        program.context.store.get("notes"),
        Some(ScriptValue::Number(0))
    );
}

#[test]
fn large_tables_cross_the_bridge_both_ways() {
    let mut program = program(vec![]);
    let code = "local t = {}\nfor i = 1, 30000 do t[i] = \"v\" .. i end\nlocal back = echo(t)\nwrite_note(#back[1] .. \" \" .. back[1][30000])";
    run_script(&mut program, code).unwrap();
    assert_eq!(
        program.context.store.get("notes"),
        Some(ScriptValue::Text("30000 v30000".to_string()))
    );
    let code = "local t = {}\nfor i = 1, 30000 do t[\"k\" .. i] = i end\nlocal back = echo(t)\nwrite_note(back[1].k30000 + back[1].k1)";
    run_script(&mut program, code).unwrap();
    assert_eq!(program.context.store.get("notes"), Some(ScriptValue::Number(30001)));
}
