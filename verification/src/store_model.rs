//! The mathematical model of the store: what it holds, when that is
//! consistent, and what each operation makes of it.
//!
//! Conversations are kept in the order of their last activity, the one that
//! was active last at the end. Messages are kept in the order in which they
//! were added. The store has a clock that never runs backwards: a reading
//! that is earlier than the latest one it has seen is replaced by that latest
//! one. So the order of activity is also the order of `updated_at`, and the
//! order of insertion is also the order of `created_at`.

use vstd::prelude::*;
use crate::models::{AppSettingsView, ConversationView, MessageView, default_settings};
use crate::text::{later, text_le};

verus! {

/// What a store holds.
#[verifier::ext_equal]
pub struct DatabaseView {
    /// The conversations, least recently active first.
    pub conversations: Seq<ConversationView>,
    /// The messages of all conversations, in the order in which they were added.
    pub messages: Seq<MessageView>,
    /// The one settings record.
    pub settings: AppSettingsView,
    /// The latest time that the store has seen.
    pub clock: Seq<char>,
    /// The id that was given to the newest conversation, 0 before the first.
    pub last_conversation_id: int,
    /// The id that was given to the newest message, 0 before the first.
    pub last_message_id: int,
}

/// Holds of the messages of conversation `id`.
pub open spec fn in_conversation(id: int) -> spec_fn(MessageView) -> bool {
    |m: MessageView| m.conversation_id == id
}

/// Holds of the messages of all conversations but `id`.
pub open spec fn outside_conversation(id: int) -> spec_fn(MessageView) -> bool {
    |m: MessageView| m.conversation_id != id
}

/// Holds of all conversations but `id`.
pub open spec fn other_than(id: int) -> spec_fn(ConversationView) -> bool {
    |c: ConversationView| c.id != id
}

/// The text of the failure that is reported when no id is left to give out.
pub open spec fn full_text() -> Seq<char> {
    "database or disk is full"@
}

impl DatabaseView {
    /// A store that was just set up: no conversation, no message, the
    /// default settings.
    pub open spec fn initial() -> DatabaseView {
        DatabaseView {
            conversations: Seq::empty(),
            messages: Seq::empty(),
            settings: default_settings(),
            clock: Seq::empty(),
            last_conversation_id: 0,
            last_message_id: 0,
        }
    }

    /// A conversation with this id exists.
    pub open spec fn has_conversation(self, id: int) -> bool {
        exists|i: int| 0 <= i < self.conversations.len() && (#[trigger] self.conversations[i]).id == id
    }

    /// Where the conversation with this id stands among the conversations.
    pub open spec fn position(self, id: int) -> int {
        choose|i: int| 0 <= i < self.conversations.len() && (#[trigger] self.conversations[i]).id == id
    }

    /// The conversation with this id.
    pub open spec fn conversation(self, id: int) -> ConversationView {
        self.conversations[self.position(id)]
    }

    /// A message with this id exists.
    pub open spec fn has_message(self, id: int) -> bool {
        exists|i: int| 0 <= i < self.messages.len() && (#[trigger] self.messages[i]).id == id
    }

    /// The message with this id.
    pub open spec fn message(self, id: int) -> MessageView {
        self.messages[choose|i: int| 0 <= i < self.messages.len() && (#[trigger] self.messages[i]).id == id]
    }

    /// The messages of one conversation, oldest first.
    pub open spec fn messages_of(self, id: int) -> Seq<MessageView> {
        self.messages.filter(in_conversation(id))
    }

    /// The conversations, most recently active first.
    pub open spec fn listing(self) -> Seq<ConversationView> {
        self.conversations.reverse()
    }

    /// The store is consistent.
    pub open spec fn wf(self) -> bool {
        &&& 0 <= self.last_conversation_id <= i64::MAX
        &&& 0 <= self.last_message_id <= i64::MAX
        &&& forall|i: int|
            0 <= i < self.conversations.len() ==> {
                &&& 1 <= (#[trigger] self.conversations[i]).id <= self.last_conversation_id
                &&& text_le(self.conversations[i].created_at, self.conversations[i].updated_at)
                &&& text_le(self.conversations[i].updated_at, self.clock)
            }
        &&& forall|i: int, j: int|
            0 <= i < j < self.conversations.len() ==> {
                &&& (#[trigger] self.conversations[i]).id != (#[trigger] self.conversations[j]).id
                &&& text_le(self.conversations[i].updated_at, self.conversations[j].updated_at)
            }
        &&& forall|i: int|
            0 <= i < self.messages.len() ==> {
                &&& 1 <= (#[trigger] self.messages[i]).id <= self.last_message_id
                &&& self.has_conversation(self.messages[i].conversation_id)
                &&& text_le(self.messages[i].created_at, self.clock)
            }
        &&& forall|i: int, j: int|
            0 <= i < j < self.messages.len() ==> {
                &&& (#[trigger] self.messages[i]).id < (#[trigger] self.messages[j]).id
                &&& text_le(self.messages[i].created_at, self.messages[j].created_at)
            }
    }

    /// The time that the store gives to what happens at the reading `now`.
    pub open spec fn stamp(self, now: Seq<char>) -> Seq<char> {
        later(self.clock, now)
    }

    /// The conversation that `create` adds.
    pub open spec fn new_conversation(self, title: Seq<char>, now: Seq<char>) -> ConversationView {
        ConversationView {
            id: self.last_conversation_id + 1,
            title,
            created_at: self.stamp(now),
            updated_at: self.stamp(now),
        }
    }

    /// The store after a conversation with this title was created.
    pub open spec fn create(self, title: Seq<char>, now: Seq<char>) -> DatabaseView {
        DatabaseView {
            conversations: self.conversations.push(self.new_conversation(title, now)),
            clock: self.stamp(now),
            last_conversation_id: self.last_conversation_id + 1,
            ..self
        }
    }

    /// The message that `append` adds.
    pub open spec fn new_message(
        self,
        conversation_id: int,
        role: Seq<char>,
        content: Seq<char>,
        now: Seq<char>,
    ) -> MessageView {
        MessageView {
            id: self.last_message_id + 1,
            conversation_id,
            role,
            content,
            created_at: self.stamp(now),
        }
    }

    /// The conversations after the one with this id was active and became
    /// `changed`: it leaves its place and stands last.
    pub open spec fn moved_last(self, id: int, changed: ConversationView) -> Seq<ConversationView> {
        self.conversations.remove(self.position(id)).push(changed)
    }

    /// The store after a message was added to an existing conversation.
    pub open spec fn append(
        self,
        conversation_id: int,
        role: Seq<char>,
        content: Seq<char>,
        now: Seq<char>,
    ) -> DatabaseView {
        DatabaseView {
            conversations: self.moved_last(
                conversation_id,
                ConversationView {
                    updated_at: self.stamp(now),
                    ..self.conversation(conversation_id)
                },
            ),
            messages: self.messages.push(self.new_message(conversation_id, role, content, now)),
            clock: self.stamp(now),
            last_message_id: self.last_message_id + 1,
            ..self
        }
    }

    /// The store after the conversation with this id was given a new title;
    /// the store itself where there is no such conversation.
    pub open spec fn rename(self, id: int, title: Seq<char>, now: Seq<char>) -> DatabaseView {
        if self.has_conversation(id) {
            DatabaseView {
                conversations: self.moved_last(
                    id,
                    ConversationView { title, updated_at: self.stamp(now), ..self.conversation(id) },
                ),
                clock: self.stamp(now),
                ..self
            }
        } else {
            self
        }
    }

    /// The store after the conversation with this id was deleted, and its
    /// messages with it.
    pub open spec fn delete(self, id: int) -> DatabaseView {
        DatabaseView {
            conversations: self.conversations.filter(other_than(id)),
            messages: self.messages.filter(outside_conversation(id)),
            ..self
        }
    }

    /// The store after the settings were replaced.
    pub open spec fn configure(self, settings: AppSettingsView) -> DatabaseView {
        DatabaseView { settings, ..self }
    }

    /// The store that holds what was written down of an earlier one: its
    /// conversations, least recently active first, its messages in the order
    /// in which they were added, its settings and the ids it gave out last.
    /// Its clock stands at the latest time that is written down.
    pub open spec fn restored(
        conversations: Seq<ConversationView>,
        messages: Seq<MessageView>,
        settings: AppSettingsView,
        last_conversation_id: int,
        last_message_id: int,
    ) -> DatabaseView {
        DatabaseView {
            conversations,
            messages,
            settings,
            clock: later(
                if conversations.len() > 0 {
                    conversations.last().updated_at
                } else {
                    Seq::empty()
                },
                if messages.len() > 0 {
                    messages.last().created_at
                } else {
                    Seq::empty()
                },
            ),
            last_conversation_id,
            last_message_id,
        }
    }
}

/// The text of the failure that is reported when what was written down of a
/// store is not consistent.
pub open spec fn malformed_text() -> Seq<char> {
    "database disk image is malformed"@
}

} // verus!
