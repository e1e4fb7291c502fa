use std::cell::RefCell;

use smartgpt::agent::{
    GoalInformation, LanguageModel, Plugin, PluginCycle, ResponseParser, Thought,
};
use smartgpt::command::{CommandContext, EndGoals, PluginStore};
use smartgpt::conversation::{
    evict_under_pressure, eviction_due, notify_all, reset_after_failure, savings_suffice,
    step_savings,
    token_count,
    EvictionReport, ResetReport, SAVINGS_THRESHOLD, TOKEN_BUDGET,
};
use smartgpt::error::AgentError;
use smartgpt::history::{History, Message};
use smartgpt::value::ScriptValue;

struct Words;

impl LanguageModel for Words {
    fn get_response(
        &self,
        _messages: &Vec<Message>,
        _max_tokens: Option<u16>,
        _temperature_percent: Option<u8>,
    ) -> Result<String, AgentError> {
        Err(AgentError::ModelCallFailed("not asked".to_string()))
    }

    fn count_tokens(&self, text: &str) -> usize {
        text.split_whitespace().count()
    }
}

struct Constant(usize);

impl LanguageModel for Constant {
    fn get_response(
        &self,
        _messages: &Vec<Message>,
        _max_tokens: Option<u16>,
        _temperature_percent: Option<u8>,
    ) -> Result<String, AgentError> {
        Err(AgentError::ModelCallFailed("not asked".to_string()))
    }

    fn count_tokens(&self, _text: &str) -> usize {
        self.0
    }
}

struct Reader;

impl ResponseParser for Reader {
    fn parse_response(&self, text: &str) -> Option<Thought> {
        if text.contains("garbled") {
            return None;
        }
        Some(Thought {
            summary: vec![],
            goal_information: GoalInformation {
                current_endgoal: String::new(),
                plan: vec![],
                step: text.to_string(),
            },
            command_query: vec![],
            will_be_done_with_plan: false,
        })
    }
}

struct Recorder {
    label: &'static str,
    seen: RefCell<Vec<String>>,
    fail_on: Option<&'static str>,
}

impl Recorder {
    fn new(label: &'static str) -> Recorder {
        Recorder { label, seen: RefCell::new(vec![]), fail_on: None }
    }
}

impl PluginCycle for Recorder {
    fn create_data(&self, _value: ScriptValue) -> Option<ScriptValue> {
        None
    }

    fn create_context(
        &self,
        _store: &mut PluginStore,
        _previous_prompt: Option<&str>,
    ) -> Result<Option<String>, AgentError> {
        Ok(None)
    }

    fn apply_removed_response(
        &self,
        store: &mut PluginStore,
        response: &Thought,
        followup: &str,
        is_eviction: bool,
    ) -> Result<(), AgentError> {
        if let Some(marker) = self.fail_on {
            if followup.contains(marker) {
                return Err(AgentError::MemoryStoreFailed("disk full".to_string()));
            }
        }
        assert!(is_eviction);
        self.seen
            .borrow_mut()
            .push(format!("{}|{}", response.goal_information.step, followup));
        store.insert(self.label, ScriptValue::Text(followup.to_string()));
        Ok(())
    }
}

fn plugin(cycle: Recorder) -> Plugin<Recorder> {
    Plugin { name: cycle.label.to_string(), dependencies: vec![], cycle }
}

fn words(n: usize, word: &str) -> String {
    vec![word; n].join(" ") + " "
}

fn context(messages: Vec<Message>) -> CommandContext {
    CommandContext {
        history: History::from_messages(messages).unwrap(),
        store: PluginStore::new(),
        command_out: vec!["kept".to_string()],
        end_goals: EndGoals { end_goal: 0, goals: vec![] },
    }
}

fn long_history() -> Vec<Message> {
    vec![
        Message::System(words(10, "s")),
        Message::Assistant(words(30, "a")),
        Message::User(words(30, "b")),
        Message::User(words(5, "c")),
        Message::Assistant(words(20, "d")),
        Message::User(words(20, "e")),
        Message::Assistant(words(2, "f")),
        Message::User(words(3, "g")),
    ]
}

#[test]
fn history_within_budget_is_left_alone() {
    let mut context = context(long_history());
    let plugins = vec![plugin(Recorder::new("memory"))];
    let report = evict_under_pressure(&mut context, 120, &plugins, &Words, &Reader).unwrap();
    assert_eq!(
        report,
        EvictionReport {
            steps: 0,
            removed: 0,
            exchanges: 0,
            notifications: 0,
            tokens_before: 120,
            tokens_after: 120,
            saved: 0
        }
    );
    assert_eq!(context.history.messages(), long_history());
    assert!(plugins[0].cycle.seen.borrow().is_empty());
}

#[test]
fn eviction_stops_once_the_budget_is_met() {
    let mut context = context(long_history());
    let plugins = vec![plugin(Recorder::new("memory")), plugin(Recorder::new("notes"))];
    let report = evict_under_pressure(&mut context, 56, &plugins, &Words, &Reader).unwrap();
    assert_eq!(
        report,
        EvictionReport {
            steps: 2,
            removed: 3,
            exchanges: 1,
            notifications: 2,
            tokens_before: 120,
            tokens_after: 55,
            saved: 65
        }
    );
    assert_eq!(context.history.messages(), [&long_history()[..1], &long_history()[4..]].concat());
    let expected = vec![format!("{}|{}", words(30, "a"), words(30, "b"))];
    assert_eq!(*plugins[0].cycle.seen.borrow(), expected);
    assert_eq!(*plugins[1].cycle.seen.borrow(), expected);
    assert_eq!(context.store.get("notes"), Some(ScriptValue::Text(words(30, "b"))));
    assert_eq!(context.command_out, vec!["kept".to_string()]);
}

#[test]
fn eviction_ends_with_the_standing_message_when_nothing_else_helps() {
    let mut context = context(long_history());
    let plugins = vec![plugin(Recorder::new("memory"))];
    let report = evict_under_pressure(&mut context, 3, &plugins, &Words, &Reader).unwrap();
    assert_eq!(report.steps, 4);
    assert_eq!(report.removed, 7);
    assert_eq!(report.exchanges, 3);
    assert_eq!(report.notifications, 3);
    assert_eq!(report.tokens_after, 10);
    assert_eq!(context.history.messages(), long_history()[..1].to_vec());
    assert_eq!(plugins[0].cycle.seen.borrow().len(), 3);
}

#[test]
fn eviction_ends_early_after_large_savings_in_two_steps() {
    let messages = vec![
        Message::System(words(10, "s")),
        Message::Assistant(words(1500, "a")),
        Message::User(words(1500, "b")),
        Message::User(words(10, "c")),
        Message::User(words(4000, "d")),
        Message::User(words(4000, "e")),
    ];
    let mut context = context(messages.clone());
    let plugins = vec![plugin(Recorder::new("memory"))];
    let report =
        evict_under_pressure(&mut context, TOKEN_BUDGET, &plugins, &Words, &Reader).unwrap();
    assert_eq!(report.steps, 2);
    assert_eq!(report.saved, 3010);
    assert!(report.saved > SAVINGS_THRESHOLD);
    assert_eq!(report.tokens_after, 8010);
    assert!(report.tokens_after > TOKEN_BUDGET);
    assert_eq!(context.history.messages(), [&messages[..1], &messages[4..]].concat());
}

#[test]
fn one_large_step_does_not_end_the_pass() {
    let messages = vec![
        Message::System(words(10, "s")),
        Message::User(words(5000, "a")),
        Message::User(words(4000, "b")),
        Message::User(words(10, "c")),
    ];
    let mut context = context(messages.clone());
    let plugins: Vec<Plugin<Recorder>> = vec![];
    let report =
        evict_under_pressure(&mut context, TOKEN_BUDGET, &plugins, &Words, &Reader).unwrap();
    assert_eq!(report.steps, 2);
    assert_eq!(report.saved, 9000);
    assert_eq!(report.tokens_after, 20);
    assert_eq!(context.history.messages(), [&messages[..1], &messages[3..]].concat());
}

#[test]
fn eviction_survives_a_count_that_never_falls() {
    let mut context = context(long_history());
    let plugins = vec![plugin(Recorder::new("memory"))];
    let report = evict_under_pressure(&mut context, 10, &plugins, &Constant(50), &Reader).unwrap();
    assert_eq!(report.saved, 0);
    assert_eq!(report.tokens_after, 50);
    assert_eq!(report.removed, 7);
    assert_eq!(context.history.len(), 1);
}

#[test]
fn failing_plugin_ends_eviction_in_a_notification_failure() {
    let mut context = context(long_history());
    let mut failing = Recorder::new("memory");
    failing.fail_on = Some("b");
    let plugins = vec![plugin(Recorder::new("first")), plugin(failing), plugin(Recorder::new("last"))];
    let outcome = evict_under_pressure(&mut context, 3, &plugins, &Words, &Reader);
    assert_eq!(
        outcome,
        Err(AgentError::CollaboratorNotificationFailed(
            "memory store failed: disk full".to_string()
        ))
    );
    assert_eq!(plugins[0].cycle.seen.borrow().len(), 1);
    assert!(plugins[2].cycle.seen.borrow().is_empty());
    assert_eq!(context.history.messages(), [&long_history()[..1], &long_history()[3..]].concat());
}

#[test]
fn unreadable_reply_ends_eviction_in_a_parse_failure() {
    let mut messages = long_history();
    messages[1] = Message::Assistant(words(30, "garbled"));
    let mut context = context(messages);
    let plugins = vec![plugin(Recorder::new("memory"))];
    let outcome = evict_under_pressure(&mut context, 3, &plugins, &Words, &Reader);
    assert!(matches!(outcome, Err(AgentError::ResponseParseError(_))));
    assert!(plugins[0].cycle.seen.borrow().is_empty());
}

#[test]
fn reset_tells_every_plugin_of_every_exchange_once() {
    let mut context = context(long_history());
    let plugins = vec![plugin(Recorder::new("memory")), plugin(Recorder::new("notes"))];
    let report = reset_after_failure(&mut context, &plugins, &Reader).unwrap();
    assert_eq!(report, ResetReport { steps: 4, exchanges: 3, notifications: 6 });
    assert!(report.steps < long_history().len());
    assert_eq!(context.history.len(), 0);
    let expected = vec![
        format!("{}|{}", words(30, "a"), words(30, "b")),
        format!("{}|{}", words(20, "d"), words(20, "e")),
        format!("{}|{}", words(2, "f"), words(3, "g")),
    ];
    assert_eq!(*plugins[0].cycle.seen.borrow(), expected);
    assert_eq!(*plugins[1].cycle.seen.borrow(), expected);
    assert_eq!(context.command_out, vec!["kept".to_string()]);
}

#[test]
fn reset_of_a_short_history_takes_no_steps() {
    let plugins = vec![plugin(Recorder::new("memory"))];
    let mut empty = context(vec![]);
    assert_eq!(
        reset_after_failure(&mut empty, &plugins, &Reader),
        Ok(ResetReport { steps: 0, exchanges: 0, notifications: 0 })
    );
    let mut standing = context(vec![Message::System("s".to_string())]);
    assert_eq!(
        reset_after_failure(&mut standing, &plugins, &Reader),
        Ok(ResetReport { steps: 0, exchanges: 0, notifications: 0 })
    );
    assert_eq!(standing.history.len(), 0);
    let mut two = context(vec![Message::System("s".to_string()), Message::User("u".to_string())]);
    assert_eq!(
        reset_after_failure(&mut two, &plugins, &Reader),
        Ok(ResetReport { steps: 1, exchanges: 0, notifications: 0 })
    );
    assert_eq!(two.history.len(), 0);
}

#[test]
fn failing_plugin_stops_the_reset() {
    let mut context = context(long_history());
    let mut failing = Recorder::new("memory");
    failing.fail_on = Some("e");
    let plugins = vec![plugin(failing)];
    let outcome = reset_after_failure(&mut context, &plugins, &Reader);
    assert!(matches!(outcome, Err(AgentError::CollaboratorNotificationFailed(_))));
    assert_eq!(context.history.messages(), [&long_history()[..1], &long_history()[6..]].concat());
}

#[test]
fn stopping_rule_needs_savings_and_two_steps() {
    assert!(!savings_suffice(2000, 2));
    assert!(savings_suffice(2001, 2));
    assert!(!savings_suffice(2001, 1));
    assert!(!savings_suffice(usize::MAX, 0));
    assert!(savings_suffice(usize::MAX, usize::MAX));
    assert!(eviction_due(3201, 3200, 0, 0, 2));
    assert!(!eviction_due(3200, 3200, 0, 0, 2));
    assert!(!eviction_due(9000, 3200, 0, 0, 1));
    assert!(eviction_due(9000, 3200, 5000, 1, 2));
    assert!(!eviction_due(9000, 3200, 2001, 2, 9));
    assert!(eviction_due(9000, 3200, 2000, 2, 9));
    assert_eq!(step_savings(10, 4), 6);
    assert_eq!(step_savings(4, 10), 0);
    assert_eq!(step_savings(4, 4), 0);
}

#[test]
fn tokens_are_counted_over_the_whole_text() {
    let history = History::from_messages(vec![
        Message::System("two words ".to_string()),
        Message::User("and three more".to_string()),
    ])
    .unwrap();
    assert_eq!(token_count(&history, &Words), 5);
    assert_eq!(token_count(&History::new(), &Words), 0);
}

#[test]
fn every_plugin_is_told_once_in_order() {
    let plugins = vec![plugin(Recorder::new("a")), plugin(Recorder::new("b"))];
    let mut store = PluginStore::new();
    let thought = Reader.parse_response("the reply").unwrap();
    assert_eq!(notify_all(&plugins, &mut store, &thought, "the results"), Ok(2));
    for p in &plugins {
        assert_eq!(*p.cycle.seen.borrow(), vec!["the reply|the results".to_string()]);
    }
    let none: Vec<Plugin<Recorder>> = vec![];
    assert_eq!(notify_all(&none, &mut store, &thought, "x"), Ok(0));
}
