use smartgpt::command::{
    contains_text, record_outcome, run_command, write_call, Command, CommandContext, CommandImpl,
    EndGoals, PluginStore, Registry,
};
use smartgpt::error::{AgentError, NoThoughtError};
use smartgpt::history::History;
use smartgpt::value::ScriptValue;

enum Action {
    Save,
    Fail,
    Length,
}

impl CommandImpl for Action {
    fn invoke(
        &self,
        context: &mut CommandContext,
        args: Vec<ScriptValue>,
    ) -> Result<ScriptValue, AgentError> {
        match self {
            Action::Save => {
                context.store.insert("saved", ScriptValue::List(args));
                Ok(ScriptValue::Text("saved".to_string()))
            }
            Action::Fail => Err(AgentError::MemoryStoreFailed("backend down".to_string())),
            Action::Length => Ok(ScriptValue::Number(args.len() as i64)),
        }
    }
}

fn command(name: &str, run: Action) -> Command<Action> {
    Command {
        name: name.to_string(),
        purpose: format!("purpose of {name}"),
        args: vec![],
        run,
    }
}

fn context() -> CommandContext {
    CommandContext {
        history: History::new(),
        store: PluginStore::new(),
        command_out: vec![],
        end_goals: EndGoals {
            end_goal: 0,
            goals: vec!["first".to_string(), "second".to_string()],
        },
    }
}

fn registry() -> Registry<Action> {
    let mut registry = Registry::new();
    registry.register("files", command("save", Action::Save)).unwrap();
    registry.register("files", command("fail", Action::Fail)).unwrap();
    registry.register("tools", command("length", Action::Length)).unwrap();
    registry
}

fn text(s: &str) -> ScriptValue {
    ScriptValue::Text(s.to_string())
}

#[test]
fn registering_a_taken_name_is_refused() {
    let mut registry = registry();
    assert_eq!(registry.len(), 3);
    let outcome = registry.register("other_plugin", command("save", Action::Length));
    assert_eq!(outcome, Err(AgentError::DuplicateCommand("save".to_string())));
    assert_eq!(registry.len(), 3);
    assert_eq!(registry.get(0).plugin, "files");
    let same_plugin = registry.register("files", command("length", Action::Length));
    assert_eq!(
        same_plugin,
        Err(AgentError::DuplicateCommand("length".to_string()))
    );
    registry.witness_distinct();
}

#[test]
fn registry_keeps_the_order_of_registration() {
    let registry = registry();
    assert_eq!(registry.position("save"), Some(0));
    assert_eq!(registry.position("fail"), Some(1));
    assert_eq!(registry.position("length"), Some(2));
    assert_eq!(registry.position("missing"), None);
    assert_eq!(registry.get(2).command.name, "length");
    assert_eq!(registry.get(2).plugin, "tools");
}

#[test]
fn list_skips_disabled_commands() {
    let registry = registry();
    let names = |disabled: Vec<String>| -> Vec<String> {
        registry
            .list(&disabled)
            .iter()
            .map(|c| c.name.clone())
            .collect()
    };
    assert_eq!(names(vec![]), vec!["save", "fail", "length"]);
    assert_eq!(
        names(vec!["fail".to_string(), "unknown".to_string()]),
        vec!["save", "length"]
    );
    assert_eq!(
        names(vec!["save".to_string(), "fail".to_string(), "length".to_string()]),
        Vec::<String>::new()
    );
}

#[test]
fn dispatching_an_unknown_name_is_command_not_found() {
    let registry = registry();
    let mut context = context();
    let outcome = registry.dispatch(&mut context, "launch", vec![text("now")]);
    assert_eq!(outcome, Err(AgentError::CommandNotFound("launch".to_string())));
    assert!(context.command_out.is_empty());
    let empty: Registry<Action> = Registry::new();
    assert_eq!(
        empty.dispatch(&mut context, "", vec![]),
        Err(AgentError::CommandNotFound(String::new()))
    );
}

#[test]
fn successful_dispatch_is_noted_in_the_transcript() {
    let registry = registry();
    let mut context = context();
    let outcome = registry.dispatch(
        &mut context,
        "save",
        vec![text("hello"), ScriptValue::Number(2)],
    );
    assert_eq!(outcome, Ok(text("saved")));
    assert_eq!(
        context.command_out,
        vec!["Command save(\"hello\", 2) was successful and returned:\n\"saved\"".to_string()]
    );
    assert_eq!(
        context.store.get("saved"),
        Some(ScriptValue::List(vec![text("hello"), ScriptValue::Number(2)]))
    );
}

#[test]
fn failure_of_a_command_is_handed_on_unchanged() {
    let registry = registry();
    let mut context = context();
    let outcome = registry.dispatch(&mut context, "fail", vec![]);
    assert_eq!(
        outcome,
        Err(AgentError::MemoryStoreFailed("backend down".to_string()))
    );
    assert!(context.command_out.is_empty());
}

#[test]
fn run_command_notes_success_only() {
    let mut out = vec!["before".to_string()];
    let mut context = context();
    let length = command("length", Action::Length);
    let outcome = run_command(&mut out, &length, &mut context, vec![ScriptValue::Nil]);
    assert_eq!(outcome, Ok(ScriptValue::Number(1)));
    assert_eq!(
        out,
        vec![
            "before".to_string(),
            "Command length(null) was successful and returned:\n1".to_string()
        ]
    );
    let fail = command("fail", Action::Fail);
    assert!(run_command(&mut out, &fail, &mut context, vec![]).is_err());
    assert_eq!(out.len(), 2);
}

#[test]
fn record_outcome_hands_the_outcome_on() {
    let mut out = vec![];
    let args = vec![text("a")];
    let failure = Err(AgentError::CommandInvocationFailed("x".to_string()));
    assert_eq!(record_outcome(&mut out, "c", &args, failure.clone()), failure);
    assert!(out.is_empty());
    let success = Ok(ScriptValue::List(vec![ScriptValue::Bool(true)]));
    assert_eq!(record_outcome(&mut out, "c", &args, success.clone()), success);
    assert_eq!(
        out,
        vec!["Command c(\"a\") was successful and returned:\n[true]".to_string()]
    );
}

#[test]
fn call_is_written_as_a_script_writes_it() {
    assert_eq!(write_call("write_note", &vec![text("hello")]), "write_note(\"hello\")");
    assert_eq!(write_call("now", &vec![]), "now()");
    assert_eq!(
        write_call("f", &vec![ScriptValue::Number(1), ScriptValue::Nil, text("x")]),
        "f(1, null, \"x\")"
    );
}

#[test]
fn plugin_store_keeps_one_value_for_each_name() {
    let mut store = PluginStore::new();
    assert_eq!(store.get("memory"), None);
    store.insert("memory", ScriptValue::Number(1));
    store.insert("browse", text("page"));
    assert_eq!(store.get("memory"), Some(ScriptValue::Number(1)));
    store.insert("memory", ScriptValue::Number(2));
    assert_eq!(store.get("memory"), Some(ScriptValue::Number(2)));
    assert_eq!(store.get("browse"), Some(text("page")));
    assert_eq!(store.get("Memory"), None);
}

#[test]
fn end_goals_move_on_until_none_is_left() {
    let mut goals = context().end_goals;
    assert_eq!(goals.get(), "first");
    goals.advance();
    assert_eq!(goals.get(), "second");
    goals.advance();
    assert_eq!(goals.get(), "");
    assert_eq!(goals.end_goal, 2);
    goals.advance();
    assert_eq!(goals.end_goal, 2);
}

#[test]
fn contains_text_looks_for_the_whole_text() {
    let texts = vec!["save".to_string(), "fail".to_string()];
    assert!(contains_text(&texts, "fail"));
    assert!(!contains_text(&texts, "fai"));
    assert!(!contains_text(&vec![], "fail"));
}

#[test]
fn every_failure_has_its_text() {
    let name = || "x".to_string();
    assert_eq!(AgentError::CommandNotFound(name()).message(), "command not found: x");
    assert_eq!(
        AgentError::DuplicateCommand(name()).message(),
        "command registered twice: x"
    );
    assert_eq!(AgentError::CommandInvocationFailed(name()).message(), "x");
    assert_eq!(AgentError::ScriptParseOrRuntimeError(name()).message(), "x");
    assert_eq!(
        AgentError::ResponseParseError(name()).message(),
        "could not parse the response: x"
    );
    assert_eq!(
        AgentError::CollaboratorNotificationFailed(name()).message(),
        "plugin notification failed: x"
    );
    assert_eq!(AgentError::ModelCallFailed(name()).message(), "model call failed: x");
    assert_eq!(AgentError::MemoryStoreFailed(name()).message(), "memory store failed: x");
    assert_eq!(NoThoughtError.message(), "no thought detected.");
    assert_eq!(
        AgentError::CommandNotFound(name()).clone(),
        AgentError::CommandNotFound(name())
    );
}

#[test]
fn each_command_keeps_what_it_does() {
    let mut registry: Registry<Action> = Registry::new();
    registry.register("tools", command("length", Action::Length)).unwrap();
    registry.register("files", command("save", Action::Save)).unwrap();
    registry.register("files", command("fail", Action::Fail)).unwrap();
    let mut context = context();
    assert_eq!(
        registry.dispatch(&mut context, "length", vec![text("a"), text("b")]),
        Ok(ScriptValue::Number(2))
    );
    assert_eq!(
        registry.dispatch(&mut context, "save", vec![text("a")]),
        Ok(text("saved"))
    );
    assert_eq!(
        registry.dispatch(&mut context, "fail", vec![]),
        Err(AgentError::MemoryStoreFailed("backend down".to_string()))
    );
    assert!(matches!(registry.get(0).command.run, Action::Length));
    assert!(matches!(registry.get(2).command.run, Action::Fail));
}
