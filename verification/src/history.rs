//! The ordered conversation with the language model.
//!
//! A history starts with the standing task message. Every message of the
//! assistant is directly followed by the user message that carries the results
//! of that turn: the two form an exchange, and they enter and leave the
//! history together.

use crate::text::concat_all;
use vstd::prelude::*;

verus! {

/// Who wrote a message.
#[derive(Clone, Copy, Debug, PartialEq, Eq, Structural)]
pub enum Role {
    System,
    User,
    Assistant,
}

/// One message of the conversation.
#[derive(Debug, PartialEq, Eq)]
pub enum Message {
    System(String),
    User(String),
    Assistant(String),
}

/// What a [`Message`] is, as a mathematical value.
pub struct MessageModel {
    pub role: Role,
    pub content: Seq<char>,
}

impl View for Message {
    type V = MessageModel;

    open spec fn view(&self) -> MessageModel {
        match self {
            Message::System(text) => MessageModel { role: Role::System, content: text@ },
            Message::User(text) => MessageModel { role: Role::User, content: text@ },
            Message::Assistant(text) => MessageModel { role: Role::Assistant, content: text@ },
        }
    }
}

impl Clone for Message {
    fn clone(&self) -> (copy: Message)
        ensures
            copy@ == self@,
    {
        match self {
            Message::System(text) => Message::System(text.clone()),
            Message::User(text) => Message::User(text.clone()),
            Message::Assistant(text) => Message::Assistant(text.clone()),
        }
    }
}

impl Message {
    /// Who wrote the message.
    pub fn role(&self) -> (role: Role)
        ensures
            role == self@.role,
    {
        match self {
            Message::System(_) => Role::System,
            Message::User(_) => Role::User,
            Message::Assistant(_) => Role::Assistant,
        }
    }

    /// Whether the assistant wrote the message.
    pub fn is_assistant(&self) -> (yes: bool)
        ensures
            yes == (self@.role == Role::Assistant),
    {
        match self {
            Message::Assistant(_) => true,
            _ => false,
        }
    }

    /// The text of the message.
    pub fn content(&self) -> (text: String)
        ensures
            text@ == self@.content,
    {
        match self {
            Message::System(text) => text.clone(),
            Message::User(text) => text.clone(),
            Message::Assistant(text) => text.clone(),
        }
    }

    /// Replaces the text of the message and keeps its role.
    pub fn set_content(&mut self, text: &str)
        ensures
            final(self)@ == (MessageModel { role: old(self)@.role, content: text@ }),
    {
        let replacement = match self {
            Message::System(_) => Message::System(String::from_str(text)),
            Message::User(_) => Message::User(String::from_str(text)),
            Message::Assistant(_) => Message::Assistant(String::from_str(text)),
        };
        *self = replacement;
    }
}

/// The views of a list of messages, in order.
pub open spec fn message_views(messages: Seq<Message>) -> Seq<MessageModel> {
    messages.map_values(|m: Message| m@)
}

/// The pair invariant: the first message is not the assistant's, and each
/// message of the assistant is directly followed by one of the user.
pub open spec fn paired(messages: Seq<MessageModel>) -> bool {
    &&& messages.len() > 0 ==> messages[0].role != Role::Assistant
    &&& forall|i: int| 0 <= i < messages.len() ==> #[trigger] answered(messages, i)
}

/// Whether the message at `i`, if the assistant wrote it, is directly
/// followed by a message of the user.
pub open spec fn answered(messages: Seq<MessageModel>, i: int) -> bool {
    messages[i].role == Role::Assistant ==> i + 1 < messages.len() && messages[i + 1].role
        == Role::User
}

/// The texts of `messages`, in order.
pub open spec fn contents(messages: Seq<MessageModel>) -> Seq<Seq<char>> {
    messages.map_values(|m: MessageModel| m.content)
}

/// All the text of a conversation in one piece: what the tokenizer is given.
pub open spec fn whole_text(messages: Seq<MessageModel>) -> Seq<char> {
    concat_all(contents(messages))
}

/// `messages` without the `count` messages that follow the first one.
pub open spec fn without_oldest(messages: Seq<MessageModel>, count: nat) -> Seq<MessageModel> {
    if count == 0 {
        messages
    } else {
        messages.take(1) + messages.skip(1 + count as int)
    }
}

/// How many messages one eviction step takes from `messages`: none where only
/// the standing message is left, an exchange where the assistant's message is
/// the oldest, else one message.
pub open spec fn oldest_unit(messages: Seq<MessageModel>) -> nat {
    if messages.len() <= 1 {
        0
    } else if messages[1].role == Role::Assistant {
        2
    } else {
        1
    }
}

/// How many of `messages` the assistant wrote.
pub open spec fn assistant_turns(messages: Seq<MessageModel>) -> nat
    decreases messages.len(),
{
    if messages.len() == 0 {
        0
    } else if messages.last().role == Role::Assistant {
        assistant_turns(messages.drop_last()) + 1
    } else {
        assistant_turns(messages.drop_last())
    }
}

/// What one eviction step took out of a history.
#[derive(Debug, PartialEq, Eq)]
pub enum Evicted {
    /// Only the standing message was left: nothing was removed.
    Nothing,
    /// A message that belongs to no exchange.
    Single(Message),
    /// The assistant's message and the user's message that followed it.
    Exchange { assistant: String, followup: String },
}

/// The conversation, kept in the shape that [`paired`] describes.
pub struct History {
    messages: Vec<Message>,
}

impl View for History {
    type V = Seq<MessageModel>;

    closed spec fn view(&self) -> Seq<MessageModel> {
        message_views(self.messages@)
    }
}

impl History {
    #[verifier::type_invariant]
    closed spec fn well_formed(&self) -> bool {
        paired(message_views(self.messages@))
    }

    /// Every history is paired: a call of this function, which does nothing
    /// when it runs, lets a caller's proof use that.
    pub fn witness_pairing(&self)
        ensures
            paired(self@),
    {
        proof {
            use_type_invariant(self);
        }
    }

    /// An empty history.
    pub fn new() -> (history: History)
        ensures
            history@ == Seq::<MessageModel>::empty(),
    {
        History { messages: Vec::new() }
    }

    /// The history that holds `messages`, which are known to be paired.
    pub(crate) fn from_paired(messages: Vec<Message>) -> (history: History)
        requires
            paired(message_views(messages@)),
        ensures
            history@ == message_views(messages@),
    {
        History { messages }
    }

    /// The history that holds `messages`, if they are paired; else the
    /// messages come back.
    pub fn from_messages(messages: Vec<Message>) -> (made: Result<History, Vec<Message>>)
        ensures
            match made {
                Ok(history) => paired(message_views(messages@)) && history@ == message_views(
                    messages@,
                ),
                Err(back) => !paired(message_views(messages@)) && back == messages,
            },
    {
        let ghost models = message_views(messages@);
        if messages.len() > 0 && messages[0].is_assistant() {
            return Err(messages);
        }
        let mut i: usize = 0;
        while i < messages.len()
            invariant
                i <= messages.len(),
                models == message_views(messages@),
                forall|k: int| 0 <= k < i ==> #[trigger] answered(models, k),
            decreases messages.len() - i,
        {
            if messages[i].is_assistant() {
                let followed = i + 1 < messages.len() && match &messages[i + 1] {
                    Message::User(_) => true,
                    _ => false,
                };
                if !followed {
                    proof {
                        assert(!answered(models, i as int));
                    }
                    return Err(messages);
                }
            }
            i += 1;
        }
        Ok(History { messages })
    }

    /// The number of messages.
    pub fn len(&self) -> (n: usize)
        ensures
            n == self@.len(),
    {
        self.messages.len()
    }

    /// The message at `index`.
    pub fn get(&self, index: usize) -> (message: &Message)
        requires
            index < self@.len(),
        ensures
            message@ == self@[index as int],
    {
        &self.messages[index]
    }

    /// A copy of all messages, in order.
    pub fn messages(&self) -> (copies: Vec<Message>)
        ensures
            message_views(copies@) == self@,
    {
        let mut copies: Vec<Message> = Vec::new();
        let mut i: usize = 0;
        while i < self.messages.len()
            invariant
                i <= self.messages.len(),
                copies.len() == i,
                forall|j: int| 0 <= j < i ==> copies@[j]@ == self.messages@[j]@,
            decreases self.messages.len() - i,
        {
            copies.push(self.messages[i].clone());
            i += 1;
        }
        copies
    }

    /// All the text of the conversation in one piece.
    pub fn text(&self) -> (whole: String)
        ensures
            whole@ == whole_text(self@),
    {
        let mut whole = String::new();
        let mut i: usize = 0;
        while i < self.messages.len()
            invariant
                i <= self.messages.len(),
                whole@ == whole_text(self@.take(i as int)),
            decreases self.messages.len() - i,
        {
            proof {
                let next = contents(self@.take(i + 1));
                assert(next.drop_last() =~= contents(self@.take(i as int)));
            }
            match &self.messages[i] {
                Message::System(text) => whole.append(text.as_str()),
                Message::User(text) => whole.append(text.as_str()),
                Message::Assistant(text) => whole.append(text.as_str()),
            }
            i += 1;
        }
        proof {
            assert(self@.take(self.messages.len() as int) =~= self@);
        }
        whole
    }

    /// Appends a message of the system or the user. A message of the assistant
    /// cannot stand alone: it is handed back, and the history stays as it was.
    pub fn append(&mut self, message: Message) -> (refused: Option<Message>)
        ensures
            match refused {
                None => message@.role != Role::Assistant && final(self)@ == old(self)@.push(
                    message@,
                ),
                Some(back) => message@.role == Role::Assistant && back == message && final(self)@
                    == old(self)@,
            },
    {
        if message.is_assistant() {
            return Some(message);
        }
        proof {
            use_type_invariant(&*self);
        }
        let ghost before = self.messages@;
        let mut messages: Vec<Message> = Vec::new();
        std::mem::swap(&mut self.messages, &mut messages);
        messages.push(message);
        proof {
            let old_views = message_views(before);
            let new_views = message_views(messages@);
            assert forall|i: int| 0 <= i < new_views.len() implies #[trigger] answered(
                new_views,
                i,
            ) by {
                if i < old_views.len() {
                    assert(answered(old_views, i));
                }
            }
        }
        self.messages = messages;
        None
    }

    /// Appends one exchange: the assistant's message and the user's message
    /// that carries its results. An empty history takes none, since its first
    /// message must be the standing one; `false` says so.
    pub fn append_exchange(&mut self, assistant: String, followup: String) -> (taken: bool)
        ensures
            taken == (old(self)@.len() > 0),
            taken ==> final(self)@ == old(self)@.push(
                MessageModel { role: Role::Assistant, content: assistant@ },
            ).push(MessageModel { role: Role::User, content: followup@ }),
            !taken ==> final(self)@ == old(self)@,
    {
        if self.messages.len() == 0 {
            return false;
        }
        proof {
            use_type_invariant(&*self);
        }
        let ghost before = self.messages@;
        let mut messages: Vec<Message> = Vec::new();
        std::mem::swap(&mut self.messages, &mut messages);
        messages.push(Message::Assistant(assistant));
        messages.push(Message::User(followup));
        proof {
            let old_views = message_views(before);
            let new_views = message_views(messages@);
            assert forall|i: int| 0 <= i < new_views.len() implies #[trigger] answered(
                new_views,
                i,
            ) by {
                if i < old_views.len() {
                    assert(answered(old_views, i));
                }
            }
        }
        self.messages = messages;
        true
    }

    /// Puts `message` in the first place: in place of the standing message,
    /// or as the standing message of an empty history. A message of the
    /// assistant is handed back.
    pub fn set_leading(&mut self, message: Message) -> (refused: Option<Message>)
        ensures
            match refused {
                None => message@.role != Role::Assistant && final(self)@ == (if old(self)@.len()
                    == 0 {
                    seq![message@]
                } else {
                    old(self)@.update(0, message@)
                }),
                Some(back) => message@.role == Role::Assistant && back == message && final(self)@
                    == old(self)@,
            },
    {
        if message.is_assistant() {
            return Some(message);
        }
        proof {
            use_type_invariant(&*self);
        }
        let ghost before = self.messages@;
        let mut messages: Vec<Message> = Vec::new();
        std::mem::swap(&mut self.messages, &mut messages);
        if messages.len() == 0 {
            messages.push(message);
        } else {
            messages.set(0, message);
            proof {
                let old_views = message_views(before);
                let new_views = message_views(messages@);
                assert forall|i: int| 0 <= i < new_views.len() implies #[trigger] answered(
                    new_views,
                    i,
                ) by {
                    assert(answered(old_views, i));
                }
            }
        }
        self.messages = messages;
        None
    }

    /// Replaces the text of the message at `index` and keeps its role.
    pub fn set_content(&mut self, index: usize, text: &str)
        requires
            index < old(self)@.len(),
        ensures
            final(self)@ == old(self)@.update(
                index as int,
                MessageModel { role: old(self)@[index as int].role, content: text@ },
            ),
    {
        proof {
            use_type_invariant(&*self);
        }
        let ghost before = self.messages@;
        let mut messages: Vec<Message> = Vec::new();
        std::mem::swap(&mut self.messages, &mut messages);
        let mut message = messages[index].clone();
        message.set_content(text);
        messages.set(index, message);
        proof {
            let old_views = message_views(before);
            let new_views = message_views(messages@);
            assert(new_views =~= old_views.update(
                index as int,
                MessageModel { role: old_views[index as int].role, content: text@ },
            ));
            assert forall|i: int| 0 <= i < new_views.len() implies #[trigger] answered(
                new_views,
                i,
            ) by {
                assert(answered(old_views, i));
            }
        }
        self.messages = messages;
    }

    /// Removes every message.
    pub fn clear(&mut self)
        ensures
            final(self)@ == Seq::<MessageModel>::empty(),
    {
        self.messages = Vec::new();
    }

    /// One eviction step: takes out what follows the standing message, a whole
    /// exchange where that is a message of the assistant, else one message.
    pub fn evict_oldest(&mut self) -> (evicted: Evicted)
        ensures
            final(self)@ == without_oldest(old(self)@, oldest_unit(old(self)@)),
            match evicted {
                Evicted::Nothing => oldest_unit(old(self)@) == 0,
                Evicted::Single(message) => oldest_unit(old(self)@) == 1 && message@ == old(
                    self,
                )@[1],
                Evicted::Exchange { assistant, followup } => oldest_unit(old(self)@) == 2
                    && old(self)@.len() > 2 && assistant@ == old(self)@[1].content && followup@
                    == old(self)@[2].content,
            },
    {
        if self.messages.len() <= 1 {
            return Evicted::Nothing;
        }
        proof {
            use_type_invariant(&*self);
        }
        let ghost before = message_views(self.messages@);
        let mut messages: Vec<Message> = Vec::new();
        std::mem::swap(&mut self.messages, &mut messages);
        let first = messages.remove(1);
        let evicted = match first {
            Message::Assistant(assistant) => {
                proof {
                    assert(answered(before, 1));
                }
                let second = messages.remove(1);
                Evicted::Exchange { assistant, followup: second.content() }
            },
            other => {
                Evicted::Single(other)
            },
        };
        proof {
            let after = message_views(messages@);
            let gone = oldest_unit(before);
            assert forall|i: int| 0 <= i < after.len() implies #[trigger] answered(after, i) by {
                if i >= 1 {
                    assert(answered(before, i + gone));
                }
            }
        }
        self.messages = messages;
        evicted
    }
}

} // verus!
