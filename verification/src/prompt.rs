//! The prompt that opens every cycle: the agent's name and role, its current
//! goal, what the plugins have to add, and the commands it may use.

use crate::agent::{optional_text, PassiveCycle, Plugin, PluginCycle};
use crate::command::{active, Command, CommandImpl, CommandModel, PluginStore, Registry};
use crate::error::AgentError;
use crate::text::{
    concat_all, decimal, decimal_text, join, join_texts, replace, replaced, trim, trim_end,
    trimmed, trimmed_end, views,
};
use vstd::prelude::*;

verus! {

/// The prompt, with a marker in each place that is filled in per cycle.
pub const PROMPT: &'static str = r#"<CONTEXT>NAME: <NAME>
ROLE: <ROLE>

CURRENT ENDGOAL: <ENDGOAL>

Your decisions must always be made independently without seeking user assistance. Play to your strengths as an LLM and pursue simple strategies with no legal complications.

CONSTRAINTS
1. No user assistance.
2. ~4000 word limit for short term memory. Your short term memory is short, so immediately store important information to files.
3. If you are unsure how you previously did something or want to recall past events, thinking about similar events will help you remember.
4. Exclusively use the commands listed in double quotes e.g. "command name"

COMMANDS:
Commands must be in lowercase. Use the exact command names and command arguments as described here. Always use at least one command.
<COMMANDS>
            
RESOURCES:
1. Internet access for searches and information gathering.
2. Long-term memory management.
3. File management.


PROCESS:
You have been assigned an endgoal.
Break that endgoal down into simple tasks, about one command each. Minimize the number of tasks you need.
Use the EXACT COMMAND NAME in your tasks.
You will then choose the FIRST TASK from your ONGOING TASKS list, and choose that task.
Once you are done with a task, move it to your COMPLETE TASKS list.

You should only respond in JSON format as described below:

RESPONSES FORMAT:
{
    "important takeaways: what was learned from the previous command, SPECIFIC and DETAILED": [ // just put [] if no previous command
        {
            takeaway: "Takeaway One",
            points: [
                "Point One",
                "Point Two"
            ]
        }
    ],
    "goal information": {
        "endgoal": "Current Endgoal.",
        "complete tasks": [
            "Command for Reason"
        ],
        "ongoing tasks": [
            "Command for Reason"
        ],
        "chosen task": "Task One" // can be null,
        "are all tasks complete": false
    }
    "idea to complete current task": "Idea.", // can be null
    "command": {
        "name": "command name",
        "args": {
            "arg-name": "arg"
        }
    }
}

Follow this exact format exactly. Make sure every field is included. Ensure the response can be parsed by Python json.loads"#;

/// The line of one goal: its number, counted from one, and its text.
pub open spec fn goal_line(index: int, goal: Seq<char>) -> Seq<char> {
    decimal((index + 1) as nat) + ". "@ + goal + "\n"@
}

/// The lines of `goals`, in order.
pub open spec fn goal_lines(goals: Seq<Seq<char>>) -> Seq<Seq<char>> {
    Seq::new(goals.len(), |i: int| goal_line(i, goals[i]))
}

/// `goals` as a numbered list, without white space at either end.
pub open spec fn goals_text(goals: Seq<Seq<char>>) -> Seq<char> {
    trimmed(concat_all(goal_lines(goals)))
}

/// Writes `goals` as a numbered list, one line for each.
pub fn generate_goals(goals: &[String]) -> (text: String)
    ensures
        text@ == goals_text(views(goals@)),
{
    let mut out = String::new();
    let mut i: usize = 0;
    while i < goals.len()
        invariant
            i <= goals.len(),
            out@ == concat_all(goal_lines(views(goals@)).take(i as int)),
        decreases goals.len() - i,
    {
        proof {
            let lines = goal_lines(views(goals@));
            assert(lines.take(i + 1).drop_last() =~= lines.take(i as int));
        }
        let number: u64 = (i + 1) as u64;
        out.append(decimal_text(number).as_str());
        out.append(". ");
        out.append(goals[i].as_str());
        out.append("\n");
        i += 1;
    }
    proof {
        let lines = goal_lines(views(goals@));
        assert(lines.take(goals.len() as int) =~= lines);
    }
    trim(out.as_str())
}

/// The line of one argument of a command.
pub open spec fn argument_line(argument: (Seq<char>, Seq<char>)) -> Seq<char> {
    "            - "@ + argument.0 + ": "@ + argument.1 + "\n"@
}

/// What the prompt says of one command: its name, its purpose and its
/// arguments.
pub open spec fn command_block(command: CommandModel) -> Seq<char> {
    "    "@ + command.name + ":\n"@ + "        purpose: "@ + command.purpose + "\n"@
        + "        args: \n"@ + concat_all(command.args.map_values(|a| argument_line(a)))
}

/// What the prompt says of `commands`, without white space at the end.
pub open spec fn commands_text(commands: Seq<CommandModel>) -> Seq<char> {
    trimmed_end(concat_all(commands.map_values(|c| command_block(c))))
}

/// Writes what the prompt says of the commands that are not disabled.
pub fn generate_commands<R: CommandImpl>(registry: &Registry<R>, disabled_commands: &Vec<
    String,
>) -> (text: String)
    ensures
        text@ == commands_text(active(registry@, views(disabled_commands@))),
{
    let listed = registry.list(disabled_commands);
    let ghost models = listed@.map_values(|c: &Command<R>| c@);
    let ghost blocks = models.map_values(|c| command_block(c));
    let mut out = String::new();
    let mut i: usize = 0;
    while i < listed.len()
        invariant
            i <= listed.len(),
            models == listed@.map_values(|c: &Command<R>| c@),
            blocks == models.map_values(|c| command_block(c)),
            out@ == concat_all(blocks.take(i as int)),
        decreases listed.len() - i,
    {
        let command = listed[i];
        let ghost model = command@;
        let ghost lines = model.args.map_values(|a| argument_line(a));
        proof {
            assert(blocks.take(i + 1).drop_last() =~= blocks.take(i as int));
        }
        out.append("    ");
        out.append(command.name.as_str());
        out.append(":\n");
        out.append("        purpose: ");
        out.append(command.purpose.as_str());
        out.append("\n");
        out.append("        args: \n");
        let ghost head = out@;
        let mut j: usize = 0;
        while j < command.args.len()
            invariant
                j <= command.args.len(),
                model == command@,
                lines == model.args.map_values(|a| argument_line(a)),
                out@ == head + concat_all(lines.take(j as int)),
            decreases command.args.len() - j,
        {
            proof {
                assert(lines.take(j + 1).drop_last() =~= lines.take(j as int));
                assert(lines.take(j + 1).last() == argument_line(
                    (command.args@[j as int].0@, command.args@[j as int].1@),
                ));
            }
            out.append("            - ");
            out.append(command.args[j].0.as_str());
            out.append(": ");
            out.append(command.args[j].1.as_str());
            out.append("\n");
            j += 1;
        }
        proof {
            assert(lines.take(command.args.len() as int) =~= lines);
        }
        i += 1;
    }
    proof {
        assert(blocks.take(listed.len() as int) =~= blocks);
    }
    trim_end(out.as_str())
}

/// The fragments of the plugins as one piece of the prompt: a blank line
/// after each, and nothing at all where there is no fragment.
pub open spec fn context_text(fragments: Seq<Seq<char>>) -> Seq<char> {
    if fragments.len() > 0 {
        join(fragments, "\n\n"@) + "\n\n"@
    } else {
        Seq::empty()
    }
}

/// Puts the fragments of the plugins together.
pub fn assemble_context(fragments: &Vec<String>) -> (text: String)
    ensures
        text@ == context_text(views(fragments@)),
{
    if fragments.len() > 0 {
        let mut text = join_texts(fragments, "\n\n");
        text.append("\n\n");
        text
    } else {
        String::new()
    }
}

/// Whether asking `plugins` in order for their fragments, with `fragments`
/// gathered so far, may change the store from `before` to `after` and come to
/// `outcome`: each plugin is asked with the store that the one before it
/// left, the first failure ends the round and is handed on, and where none
/// fails the outcome is the fragments put together.
pub open spec fn context_gathered<Y: PluginCycle>(
    plugins: Seq<Plugin<Y>>,
    before: PluginStore,
    previous_prompt: Option<Seq<char>>,
    fragments: Seq<Seq<char>>,
    after: PluginStore,
    outcome: Result<String, AgentError>,
) -> bool
    decreases plugins.len(),
{
    if plugins.len() == 0 {
        after == before && outcome is Ok && outcome->Ok_0@ == context_text(fragments)
    } else {
        exists|left: PluginStore, fragment: Result<Option<String>, AgentError>|
            {
                &&& #[trigger] plugins[0].cycle.may_add(before, previous_prompt, left, fragment)
                &&& match fragment {
                    Ok(Some(text)) => context_gathered(
                        plugins.skip(1),
                        left,
                        previous_prompt,
                        fragments.push(text@),
                        after,
                        outcome,
                    ),
                    Ok(None) => context_gathered(
                        plugins.skip(1),
                        left,
                        previous_prompt,
                        fragments,
                        after,
                        outcome,
                    ),
                    Err(e) => after == left && outcome == Err::<String, AgentError>(e),
                }
            }
    }
}

/// Asks every plugin, in order, for its fragment of the next prompt, and puts
/// the fragments together. The first plugin that fails ends the round.
pub fn generate_context<Y: PluginCycle>(
    store: &mut PluginStore,
    plugins: &Vec<Plugin<Y>>,
    previous_prompt: Option<&str>,
) -> (outcome: Result<String, AgentError>)
    ensures
        context_gathered(
            plugins@,
            *old(store),
            optional_text(previous_prompt),
            Seq::empty(),
            *final(store),
            outcome,
        ),
{
    let ghost previous = optional_text(previous_prompt);
    let mut fragments: Vec<String> = Vec::new();
    let mut i: usize = 0;
    proof {
        assert(plugins@.skip(0) =~= plugins@);
        assert(views(fragments@) =~= Seq::<Seq<char>>::empty());
    }
    while i < plugins.len()
        invariant
            i <= plugins.len(),
            previous == optional_text(previous_prompt),
            forall|after: PluginStore, outcome: Result<String, AgentError>| #[trigger]
                context_gathered(
                    plugins@.skip(i as int),
                    *store,
                    previous,
                    views(fragments@),
                    after,
                    outcome,
                ) ==> context_gathered(
                    plugins@,
                    *old(store),
                    previous,
                    Seq::empty(),
                    after,
                    outcome,
                ),
        decreases plugins.len() - i,
    {
        let ghost here = *store;
        let ghost rest = plugins@.skip(i as int);
        let ghost so_far = views(fragments@);
        let fragment = plugins[i].cycle.create_context(store, previous_prompt);
        proof {
            assert(rest[0] == plugins@[i as int]);
            assert(rest.skip(1) =~= plugins@.skip(i + 1));
            assert(rest[0].cycle.may_add(here, previous, *store, fragment));
        }
        match fragment {
            Ok(Some(text)) => {
                fragments.push(text);
                proof {
                    assert(views(fragments@) =~= so_far.push(text@));
                    assert forall|after: PluginStore, outcome: Result<String, AgentError>| #[trigger]
                        context_gathered(
                            plugins@.skip(i + 1),
                            *store,
                            previous,
                            views(fragments@),
                            after,
                            outcome,
                        ) implies context_gathered(
                        plugins@,
                        *old(store),
                        previous,
                        Seq::empty(),
                        after,
                        outcome,
                    ) by {
                        assert(context_gathered(rest, here, previous, so_far, after, outcome));
                    }
                }
            },
            Ok(None) => {
                proof {
                    assert forall|after: PluginStore, outcome: Result<String, AgentError>| #[trigger]
                        context_gathered(
                            plugins@.skip(i + 1),
                            *store,
                            previous,
                            views(fragments@),
                            after,
                            outcome,
                        ) implies context_gathered(
                        plugins@,
                        *old(store),
                        previous,
                        Seq::empty(),
                        after,
                        outcome,
                    ) by {
                        assert(context_gathered(rest, here, previous, so_far, after, outcome));
                    }
                }
            },
            Err(e) => {
                proof {
                    assert(context_gathered(
                        rest,
                        here,
                        previous,
                        so_far,
                        *store,
                        Err::<String, AgentError>(e),
                    ));
                }
                return Err(e);
            },
        }
        i += 1;
    }
    let text = assemble_context(&fragments);
    proof {
        assert(context_gathered(
            plugins@.skip(i as int),
            *store,
            previous,
            views(fragments@),
            *store,
            Ok::<String, AgentError>(text),
        ));
    }
    Ok(text)
}

/// Plugins that bring commands only add nothing to the prompt and leave the
/// store as it was.
pub proof fn lemma_passive_plugins_add_nothing(
    plugins: Seq<Plugin<PassiveCycle>>,
    before: PluginStore,
    previous_prompt: Option<Seq<char>>,
    fragments: Seq<Seq<char>>,
    after: PluginStore,
    outcome: Result<String, AgentError>,
)
    requires
        context_gathered(plugins, before, previous_prompt, fragments, after, outcome),
    ensures
        after == before,
        outcome is Ok,
        outcome->Ok_0@ == context_text(fragments),
    decreases plugins.len(),
{
    if plugins.len() > 0 {
        let (left, fragment) = choose|left: PluginStore, fragment: Result<Option<String>, AgentError>|
            {
                &&& #[trigger] plugins[0].cycle.may_add(before, previous_prompt, left, fragment)
                &&& match fragment {
                    Ok(Some(text)) => context_gathered(
                        plugins.skip(1),
                        left,
                        previous_prompt,
                        fragments.push(text@),
                        after,
                        outcome,
                    ),
                    Ok(None) => context_gathered(
                        plugins.skip(1),
                        left,
                        previous_prompt,
                        fragments,
                        after,
                        outcome,
                    ),
                    Err(e) => after == left && outcome == Err::<String, AgentError>(e),
                }
            };
        lemma_passive_plugins_add_nothing(
            plugins.skip(1),
            left,
            previous_prompt,
            fragments,
            after,
            outcome,
        );
    }
}

/// The prompt with its markers filled in, one marker after the other: the
/// context, the name, the role, the goal, the commands.
pub open spec fn filled_prompt(
    context: Seq<char>,
    name: Seq<char>,
    role: Seq<char>,
    endgoal: Seq<char>,
    commands: Seq<char>,
) -> Seq<char> {
    let with_context = replaced(PROMPT@, "<CONTEXT>"@, context);
    let with_name = replaced(with_context, "<NAME>"@, name);
    let with_role = replaced(with_name, "<ROLE>"@, role);
    let with_goal = replaced(with_role, "<ENDGOAL>"@, endgoal);
    replaced(with_goal, "<COMMANDS>"@, commands)
}

/// Fills the markers of the prompt.
pub fn fill_prompt(context: &str, name: &str, role: &str, endgoal: &str, commands: &str) -> (text:
    String)
    ensures
        text@ == filled_prompt(context@, name@, role@, endgoal@, commands@),
{
    let with_context = replace(PROMPT, "<CONTEXT>", context);
    let with_name = replace(with_context.as_str(), "<NAME>", name);
    let with_role = replace(with_name.as_str(), "<ROLE>", role);
    let with_goal = replace(with_role.as_str(), "<ENDGOAL>", endgoal);
    replace(with_goal.as_str(), "<COMMANDS>", commands)
}

/// Whether writing the prompt may change the store from `before` to `after`
/// and come to `outcome`: the fragments of the plugins are gathered, and
/// where no plugin fails the markers of the prompt are filled in.
pub open spec fn prompt_written<R: CommandImpl, Y: PluginCycle>(
    registry: Registry<R>,
    plugins: Seq<Plugin<Y>>,
    disabled_commands: Seq<Seq<char>>,
    before: PluginStore,
    name: Seq<char>,
    role: Seq<char>,
    endgoal: Seq<char>,
    previous_prompt: Option<Seq<char>>,
    after: PluginStore,
    outcome: Result<String, AgentError>,
) -> bool {
    exists|context: Result<String, AgentError>|
        {
            &&& #[trigger] context_gathered(
                plugins,
                before,
                previous_prompt,
                Seq::empty(),
                after,
                context,
            )
            &&& match context {
                Ok(fragments) => outcome is Ok && outcome->Ok_0@ == filled_prompt(
                    fragments@,
                    name,
                    role,
                    endgoal,
                    commands_text(active(registry@, disabled_commands)),
                ),
                Err(e) => outcome == Err::<String, AgentError>(e),
            }
        }
}

/// Writes the prompt of the next cycle.
pub fn generate_prompt<R: CommandImpl, Y: PluginCycle>(
    store: &mut PluginStore,
    name: &str,
    role: &str,
    endgoal: &str,
    disabled_commands: &Vec<String>,
    registry: &Registry<R>,
    plugins: &Vec<Plugin<Y>>,
    previous_prompt: Option<&str>,
) -> (outcome: Result<String, AgentError>)
    ensures
        prompt_written(
            *registry,
            plugins@,
            views(disabled_commands@),
            *old(store),
            name@,
            role@,
            endgoal@,
            optional_text(previous_prompt),
            *final(store),
            outcome,
        ),
{
    let commands = generate_commands(registry, disabled_commands);
    let gathered = generate_context(store, plugins, previous_prompt);
    match gathered {
        Ok(context) => {
            let text = fill_prompt(context.as_str(), name, role, endgoal, commands.as_str());
            proof {
                assert(context_gathered(
                    plugins@,
                    *old(store),
                    optional_text(previous_prompt),
                    Seq::empty(),
                    *store,
                    Ok::<String, AgentError>(context),
                ));
            }
            Ok(text)
        },
        Err(e) => {
            proof {
                assert(context_gathered(
                    plugins@,
                    *old(store),
                    optional_text(previous_prompt),
                    Seq::empty(),
                    *store,
                    Err::<String, AgentError>(e),
                ));
            }
            Err(e)
        },
    }
}

} // verus!
