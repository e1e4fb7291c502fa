use smartgpt::agent::{PassiveCycle, Plugin, PluginCycle, Thought};
use smartgpt::command::{Command, CommandContext, CommandImpl, PluginStore, Registry};
use smartgpt::cycle::create_plugin_data;
use smartgpt::error::AgentError;
use smartgpt::prompt::{
    assemble_context, fill_prompt, generate_commands, generate_context, generate_goals,
    generate_prompt, PROMPT,
};
use smartgpt::value::ScriptValue;

struct Nothing;

impl CommandImpl for Nothing {
    fn invoke(
        &self,
        _context: &mut CommandContext,
        _args: Vec<ScriptValue>,
    ) -> Result<ScriptValue, AgentError> {
        Ok(ScriptValue::Nil)
    }
}

enum Fragment {
    Says(&'static str),
    Silent,
    Echo,
    Broken,
}

impl PluginCycle for Fragment {
    fn create_data(&self, value: ScriptValue) -> Option<ScriptValue> {
        match self {
            Fragment::Says(text) => Some(ScriptValue::List(vec![
                value,
                ScriptValue::Text(text.to_string()),
            ])),
            _ => None,
        }
    }

    fn create_context(
        &self,
        store: &mut PluginStore,
        previous_prompt: Option<&str>,
    ) -> Result<Option<String>, AgentError> {
        match self {
            Fragment::Says(text) => {
                store.insert("asked", ScriptValue::Text(text.to_string()));
                Ok(Some(text.to_string()))
            }
            Fragment::Silent => Ok(None),
            Fragment::Echo => Ok(previous_prompt.map(|p| format!("before: {p}"))),
            Fragment::Broken => Err(AgentError::MemoryStoreFailed("offline".to_string())),
        }
    }

    fn apply_removed_response(
        &self,
        _store: &mut PluginStore,
        _response: &Thought,
        _followup: &str,
        _is_eviction: bool,
    ) -> Result<(), AgentError> {
        Ok(())
    }
}

fn plugin(name: &str, cycle: Fragment) -> Plugin<Fragment> {
    Plugin { name: name.to_string(), dependencies: vec![], cycle }
}

fn registry() -> Registry<Nothing> {
    let mut registry = Registry::new();
    registry
        .register(
            "files",
            Command {
                name: "file_write".to_string(),
                purpose: "Write a file.".to_string(),
                args: vec![
                    ("path".to_string(), "Where to write.".to_string()),
                    ("content".to_string(), "What to write.".to_string()),
                ],
                run: Nothing,
            },
        )
        .unwrap();
    registry
        .register(
            "clock",
            Command {
                name: "now".to_string(),
                purpose: "Tell the time.".to_string(),
                args: vec![],
                run: Nothing,
            },
        )
        .unwrap();
    registry
}

#[test]
fn goals_are_numbered_from_one() {
    let goals = vec!["Find a recipe".to_string(), "Write it down".to_string()];
    assert_eq!(generate_goals(&goals), "1. Find a recipe\n2. Write it down");
    assert_eq!(generate_goals(&[]), "");
    assert_eq!(generate_goals(&["only  ".to_string()]), "1. only");
    let many: Vec<String> = (0..12).map(|i| format!("g{i}")).collect();
    assert!(generate_goals(&many).ends_with("10. g9\n11. g10\n12. g11"));
}

#[test]
fn commands_are_listed_with_purpose_and_arguments() {
    let text = generate_commands(&registry(), &vec![]);
    assert_eq!(
        text,
        "    file_write:\n        purpose: Write a file.\n        args: \n            - path: Where to write.\n            - content: What to write.\n    now:\n        purpose: Tell the time.\n        args:"
    );
}

#[test]
fn disabled_commands_are_not_listed() {
    let text = generate_commands(&registry(), &vec!["file_write".to_string()]);
    assert_eq!(text, "    now:\n        purpose: Tell the time.\n        args:");
    let none = generate_commands(&registry(), &vec!["file_write".to_string(), "now".to_string()]);
    assert_eq!(none, "");
}

#[test]
fn fragments_are_set_apart_by_blank_lines() {
    assert_eq!(assemble_context(&vec![]), "");
    assert_eq!(assemble_context(&vec!["a".to_string()]), "a\n\n");
    assert_eq!(
        assemble_context(&vec!["a".to_string(), "b".to_string()]),
        "a\n\nb\n\n"
    );
}

#[test]
fn every_plugin_is_asked_for_its_fragment() {
    let mut store = PluginStore::new();
    let plugins = vec![
        plugin("memory", Fragment::Says("I remember.")),
        plugin("quiet", Fragment::Silent),
        plugin("echo", Fragment::Echo),
    ];
    assert_eq!(
        generate_context(&mut store, &plugins, Some("earlier")),
        Ok("I remember.\n\nbefore: earlier\n\n".to_string())
    );
    assert_eq!(store.get("asked"), Some(ScriptValue::Text("I remember.".to_string())));
    assert_eq!(
        generate_context(&mut store, &plugins, None),
        Ok("I remember.\n\n".to_string())
    );
    let none: Vec<Plugin<Fragment>> = vec![];
    assert_eq!(generate_context(&mut store, &none, Some("x")), Ok(String::new()));
}

#[test]
fn failing_plugin_ends_the_round() {
    let mut store = PluginStore::new();
    let plugins = vec![plugin("broken", Fragment::Broken), plugin("memory", Fragment::Says("late"))];
    assert_eq!(
        generate_context(&mut store, &plugins, None),
        Err(AgentError::MemoryStoreFailed("offline".to_string()))
    );
    assert_eq!(store.get("asked"), None);
}

#[test]
fn markers_are_filled_in_order() {
    let text = fill_prompt("CTX\n\n", "Ada", "a helper", "Bake bread", "    now:");
    assert!(text.starts_with("CTX\n\nNAME: Ada\nROLE: a helper\n\nCURRENT ENDGOAL: Bake bread\n\n"));
    assert!(text.contains("Always use at least one command.\n    now:\n"));
    for marker in ["<CONTEXT>", "<NAME>", "<ROLE>", "<ENDGOAL>", "<COMMANDS>"] {
        assert!(PROMPT.contains(marker));
        assert!(!text.contains(marker));
    }
    let expected = PROMPT
        .replace("<CONTEXT>", "CTX\n\n")
        .replace("<NAME>", "Ada")
        .replace("<ROLE>", "a helper")
        .replace("<ENDGOAL>", "Bake bread")
        .replace("<COMMANDS>", "    now:");
    assert_eq!(text, expected);
}

#[test]
fn a_marker_inside_an_earlier_filling_is_filled_too() {
    let text = fill_prompt("I am <NAME>. ", "Ada", "r", "g", "c");
    assert!(text.starts_with("I am Ada. NAME: Ada\n"));
}

#[test]
fn prompt_is_written_from_all_its_parts() {
    let mut store = PluginStore::new();
    let plugins = vec![plugin("memory", Fragment::Says("I remember."))];
    let text = generate_prompt(
        &mut store,
        "Ada",
        "a helper",
        "Bake bread",
        &vec!["now".to_string()],
        &registry(),
        &plugins,
        None,
    )
    .unwrap();
    let commands = generate_commands(&registry(), &vec!["now".to_string()]);
    assert_eq!(
        text,
        fill_prompt("I remember.\n\n", "Ada", "a helper", "Bake bread", &commands)
    );
    let broken = vec![plugin("broken", Fragment::Broken)];
    assert!(generate_prompt(&mut store, "a", "b", "c", &vec![], &registry(), &broken, None).is_err());
}

#[test]
fn plugins_keep_what_they_create_at_the_start() {
    let mut store = PluginStore::new();
    store.insert("quiet", ScriptValue::Number(1));
    let plugins = vec![
        plugin("memory", Fragment::Says("m")),
        plugin("quiet", Fragment::Silent),
        plugin("notes", Fragment::Says("n")),
    ];
    create_plugin_data(&plugins, &mut store);
    let made = |text: &str| {
        Some(ScriptValue::List(vec![
            ScriptValue::Bool(true),
            ScriptValue::Text(text.to_string()),
        ]))
    };
    assert_eq!(store.get("memory"), made("m"));
    assert_eq!(store.get("notes"), made("n"));
    assert_eq!(store.get("quiet"), Some(ScriptValue::Number(1)));
    assert_eq!(store.get("other"), None);
}

#[test]
fn passive_plugins_add_nothing() {
    let mut store = PluginStore::new();
    store.insert("kept", ScriptValue::Number(7));
    let plugins = vec![
        Plugin { name: "files".to_string(), dependencies: vec![], cycle: PassiveCycle },
        Plugin { name: "clock".to_string(), dependencies: vec![], cycle: PassiveCycle },
    ];
    assert_eq!(generate_context(&mut store, &plugins, Some("earlier")), Ok(String::new()));
    create_plugin_data(&plugins, &mut store);
    assert_eq!(store.get("files"), None);
    assert_eq!(store.get("kept"), Some(ScriptValue::Number(7)));
    assert_eq!(PassiveCycle.create_data(ScriptValue::Nil), None);
}
