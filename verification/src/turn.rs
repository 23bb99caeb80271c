//! One turn of a conversation: the user's message goes into the store, the
//! model is asked, and its reply goes into the store.
//!
//! A turn has two parts, and the call to the model stands between them. The
//! first part, [`begin_turn`], makes sure that there is a conversation, stores
//! the user's message and hands out the history that goes to the model. The
//! second part, [`complete_turn`], takes what the call gave. Each part needs
//! the store for itself while it runs; the call needs no store, so a caller
//! that guards the store lets go of it in between. A call that fails leaves
//! the user's message in the store.

use vstd::pervasive::unreached;
use vstd::prelude::*;
use crate::error::{AppError, AppErrorView};
use crate::models::{ChatMessage, ChatMessageView, Conversation, Message, MessageView, views};
use crate::store::{
    Database,
    create_conversation,
    get_conversation,
    get_message,
    get_messages,
    save_message,
};
use crate::store_laws::{lemma_append, lemma_create, lemma_position};
use crate::store_model::{DatabaseView, full_text};
use crate::text::{lemma_later_bounds, lemma_text_le_reflexive, text_le};

verus! {

/// The longest title that is taken from the user's message as it is.
pub const TITLE_LIMIT: usize = 50;

/// The role of the messages that the user writes.
pub open spec fn user_role() -> Seq<char> {
    "user"@
}

/// The role of the messages that the model writes.
pub open spec fn assistant_role() -> Seq<char> {
    "assistant"@
}

/// The title of a conversation that starts with the message `input`: the
/// message itself, or its first 50 characters and three dots where it is
/// longer.
pub open spec fn title_of(input: Seq<char>) -> Seq<char> {
    if input.len() > TITLE_LIMIT {
        input.take(TITLE_LIMIT as int) + "..."@
    } else {
        input
    }
}

/// What the model endpoint is sent of a conversation's messages: role and
/// content of each, in order.
pub open spec fn chat_exchange(messages: Seq<MessageView>) -> Seq<ChatMessageView> {
    messages.map_values(|m: MessageView| ChatMessageView { role: m.role, content: m.content })
}

/// What the first part of a turn has done, and what goes to the model.
#[derive(Debug)]
pub struct PendingTurn {
    /// The conversation of this turn, as the store holds it after the first
    /// part.
    pub conversation: Conversation,
    /// The user's message, as stored.
    pub user_message: Message,
    /// The messages of the conversation, the user's message last.
    pub history: Vec<ChatMessage>,
}

/// The title of a conversation that starts with the message `user_input`.
pub fn conversation_title(user_input: &str) -> (r: String)
    ensures
        r@ == title_of(user_input@),
{
    if user_input.unicode_len() > TITLE_LIMIT {
        user_input.substring_char(0, TITLE_LIMIT).to_owned().concat("...")
    } else {
        user_input.to_owned()
    }
}

/// Role and content of each message, in order.
pub fn to_chat_messages(messages: &Vec<Message>) -> (r: Vec<ChatMessage>)
    ensures
        views(r@) == chat_exchange(views(messages@)),
{
    let n = messages.len();
    let mut out: Vec<ChatMessage> = Vec::new();
    let mut i: usize = 0;
    while i < n
        invariant
            n == messages.len(),
            i <= n,
            out.len() == i,
            forall|k: int|
                0 <= k < i ==> (#[trigger] out[k])@ == (ChatMessageView {
                    role: messages[k].role@,
                    content: messages[k].content@,
                }),
        decreases n - i,
    {
        out.push(
            ChatMessage { role: messages[i].role.clone(), content: messages[i].content.clone() },
        );
        i += 1;
    }
    assert(views(out@) =~= chat_exchange(views(messages@)));
    out
}

/// The store after the first step of a turn: as it was where the turn names
/// a conversation, with a new conversation where it names none.
pub open spec fn resolved_store(
    s: DatabaseView,
    conversation_id: Option<i64>,
    input: Seq<char>,
    now: Seq<char>,
) -> DatabaseView {
    match conversation_id {
        Some(id) => s,
        None => s.create(title_of(input), now),
    }
}

/// The conversation of a turn: the one it names, or the new one.
pub open spec fn resolved_id(s: DatabaseView, conversation_id: Option<i64>) -> int {
    match conversation_id {
        Some(id) => id as int,
        None => s.last_conversation_id + 1,
    }
}

/// The first part of a turn. Where no conversation is named, creates one
/// whose title comes from the user's message. Stores the user's message in
/// the conversation and returns the conversation's messages as they go to
/// the model.
///
/// Fails with `NotFound`, and changes nothing, where the conversation that is
/// named does not exist. Fails when no id is left for the conversation or for
/// the message; a conversation that was created before that stays.
pub fn begin_turn(
    db: &mut Database,
    conversation_id: Option<i64>,
    user_input: &str,
    now: &str,
) -> (r: Result<PendingTurn, AppError>)
    requires
        old(db).wf(),
    ensures
        final(db).wf(),
        match r {
            Ok(p) => {
                let s = resolved_store(old(db)@, conversation_id, user_input@, now@);
                let id = resolved_id(old(db)@, conversation_id);
                let m = s.new_message(id, user_role(), user_input@, now@);
                &&& conversation_id is None ==> old(db)@.last_conversation_id < i64::MAX
                &&& conversation_id is Some ==> old(db)@.has_conversation(id)
                &&& s.has_conversation(id)
                &&& s.last_message_id < i64::MAX
                &&& final(db)@ == s.append(id, user_role(), user_input@, now@)
                &&& final(db)@.messages_of(id) == s.messages_of(id).push(m)
                &&& final(db)@.message(m.id) == m
                &&& p.conversation@ == final(db)@.conversation(id)
                &&& p.conversation.id == id
                &&& p.user_message@ == m
                &&& views(p.history@) == chat_exchange(final(db)@.messages_of(id))
            },
            Err(e) => match conversation_id {
                Some(id) => {
                    &&& final(db)@ == old(db)@
                    &&& if !old(db)@.has_conversation(id as int) {
                        e@ == AppErrorView::NotFound
                    } else {
                        &&& old(db)@.last_message_id == i64::MAX
                        &&& e@ == (AppErrorView::Store { cause: full_text() })
                    }
                },
                None => {
                    &&& e@ == (AppErrorView::Store { cause: full_text() })
                    &&& if old(db)@.last_conversation_id == i64::MAX {
                        final(db)@ == old(db)@
                    } else {
                        &&& old(db)@.last_message_id == i64::MAX
                        &&& final(db)@ == old(db)@.create(title_of(user_input@), now@)
                    }
                },
            },
        },
{
    let ghost before = db@;
    let id = match conversation_id {
        Some(id) => id,
        None => {
            let title = conversation_title(user_input);
            proof {
                if before.last_conversation_id < i64::MAX {
                    lemma_create(before, title@, now@);
                }
            }
            match create_conversation(db, title, now) {
                Ok(c) => c.id,
                Err(e) => {
                    return Err(e);
                },
            }
        },
    };
    let ghost s = db@;
    match save_message(db, id, "user".to_owned(), user_input.to_owned(), now) {
        Err(e) => Err(e),
        Ok(m) => {
            proof {
                lemma_append(s, id as int, user_role(), user_input@, now@);
            }
            let stored = get_messages(db, id);
            let history = to_chat_messages(&stored);
            let conversation = match get_conversation(db, id) {
                Ok(c) => c,
                Err(_) => unreached(),
            };
            Ok(PendingTurn { conversation, user_message: m, history })
        },
    }
}

/// The second part of a turn. Where the model gave a reply, stores it in the
/// conversation as the assistant's message, and returns the conversation, the
/// user's message and the assistant's message as the store then holds them.
///
/// Where the call to the model failed, fails with the same failure and
/// changes nothing: the user's message stays. Fails with `NotFound`, and
/// changes nothing, where the conversation is gone; fails, and changes
/// nothing, when no id is left for the reply. Fails with `NotFound` after
/// storing the reply where the user's message is gone.
pub fn complete_turn(
    db: &mut Database,
    pending: &PendingTurn,
    reply: Result<String, AppError>,
    now: &str,
) -> (r: Result<(Conversation, Message, Message), AppError>)
    requires
        old(db).wf(),
    ensures
        final(db).wf(),
        match reply {
            Err(cause) => {
                &&& final(db)@ == old(db)@
                &&& r is Err
                &&& r->Err_0@ == cause@
            },
            Ok(text) => {
                let id = pending.conversation.id as int;
                let user = pending.user_message.id as int;
                let after = old(db)@.append(id, assistant_role(), text@, now@);
                match r {
                    Ok((conversation, user_message, assistant_message)) => {
                        &&& old(db)@.has_conversation(id)
                        &&& old(db)@.last_message_id < i64::MAX
                        &&& final(db)@ == after
                        &&& after.has_message(user)
                        &&& conversation@ == after.conversation(id)
                        &&& conversation@ == after.listing()[0]
                        &&& user_message@ == after.message(user)
                        &&& assistant_message@ == old(db)@.new_message(
                            id,
                            assistant_role(),
                            text@,
                            now@,
                        )
                        &&& after.messages_of(id) == old(db)@.messages_of(id).push(
                            assistant_message@,
                        )
                    },
                    Err(e) => {
                        if !old(db)@.has_conversation(id) {
                            final(db)@ == old(db)@ && e@ == AppErrorView::NotFound
                        } else if old(db)@.last_message_id == i64::MAX {
                            final(db)@ == old(db)@ && e@ == (AppErrorView::Store {
                                cause: full_text(),
                            })
                        } else {
                            &&& final(db)@ == after
                            &&& !after.has_message(user)
                            &&& e@ == AppErrorView::NotFound
                        }
                    },
                }
            },
        },
{
    let ghost before = db@;
    match reply {
        Err(cause) => Err(cause),
        Ok(text) => {
            let id = pending.conversation.id;
            proof {
                if before.has_conversation(id as int) && before.last_message_id < i64::MAX {
                    lemma_append(before, id as int, assistant_role(), text@, now@);
                }
            }
            match save_message(db, id, "assistant".to_owned(), text, now) {
                Err(e) => Err(e),
                Ok(assistant_message) => {
                    match get_conversation(db, id) {
                        Err(e) => Err(e),
                        Ok(conversation) => {
                            match get_message(db, pending.user_message.id) {
                                Err(e) => Err(e),
                                Ok(user_message) => Ok(
                                    (conversation, user_message, assistant_message),
                                ),
                            }
                        },
                    }
                },
            }
        },
    }
}

/// A whole turn in an existing conversation: the user's message and then the
/// reply are the last two messages of the conversation, both belong to it and
/// can be found by their ids, the conversation is at the front of the listing,
/// and its `updated_at` is the time of the reply, which is not before the time
/// of either message.
pub proof fn lemma_turn(
    s: DatabaseView,
    id: int,
    input: Seq<char>,
    reply: Seq<char>,
    asked: Seq<char>,
    answered: Seq<char>,
)
    requires
        s.wf(),
        s.has_conversation(id),
        s.last_message_id + 1 < i64::MAX,
    ensures
        ({
            let user = s.new_message(id, user_role(), input, asked);
            let between = s.append(id, user_role(), input, asked);
            let assistant = between.new_message(id, assistant_role(), reply, answered);
            let after = between.append(id, assistant_role(), reply, answered);
            let conversation = after.conversation(id);
            &&& after.wf()
            &&& after.has_conversation(id)
            &&& conversation.id == id
            &&& user.conversation_id == id
            &&& assistant.conversation_id == id
            &&& user.id < assistant.id
            &&& after.messages_of(id) == s.messages_of(id).push(user).push(assistant)
            &&& after.has_message(user.id) && after.message(user.id) == user
            &&& after.has_message(assistant.id) && after.message(assistant.id) == assistant
            &&& conversation.title == s.conversation(id).title
            &&& conversation.created_at == s.conversation(id).created_at
            &&& conversation.updated_at == assistant.created_at
            &&& text_le(user.created_at, conversation.updated_at)
            &&& text_le(conversation.created_at, conversation.updated_at)
            &&& after.listing()[0] == conversation
        }),
{
    let between = s.append(id, user_role(), input, asked);
    let after = between.append(id, assistant_role(), reply, answered);
    lemma_append(s, id, user_role(), input, asked);
    lemma_append(between, id, assistant_role(), reply, answered);
    lemma_position(after, id);
    lemma_later_bounds(between.clock, answered);
}

/// A whole turn that starts a conversation: the conversation is new, its
/// title comes from the user's message, and its messages are the user's
/// message and the reply.
pub proof fn lemma_first_turn(
    s: DatabaseView,
    input: Seq<char>,
    reply: Seq<char>,
    asked: Seq<char>,
    answered: Seq<char>,
)
    requires
        s.wf(),
        s.last_conversation_id < i64::MAX,
        s.last_message_id + 1 < i64::MAX,
    ensures
        ({
            let id = s.last_conversation_id + 1;
            let created = s.create(title_of(input), asked);
            let user = created.new_message(id, user_role(), input, asked);
            let between = created.append(id, user_role(), input, asked);
            let assistant = between.new_message(id, assistant_role(), reply, answered);
            let after = between.append(id, assistant_role(), reply, answered);
            let conversation = after.conversation(id);
            &&& !s.has_conversation(id)
            &&& after.wf()
            &&& after.has_conversation(id)
            &&& conversation.id == id
            &&& conversation.title == title_of(input)
            &&& conversation.created_at == user.created_at
            &&& conversation.updated_at == assistant.created_at
            &&& text_le(conversation.created_at, conversation.updated_at)
            &&& after.messages_of(id) == seq![user, assistant]
            &&& after.message(user.id) == user
            &&& after.message(assistant.id) == assistant
            &&& after.listing()[0] == conversation
        }),
{
    let id = s.last_conversation_id + 1;
    let created = s.create(title_of(input), asked);
    lemma_create(s, title_of(input), asked);
    lemma_turn(created, id, input, reply, asked, answered);
    let user = created.new_message(id, user_role(), input, asked);
    let between = created.append(id, user_role(), input, asked);
    let assistant = between.new_message(id, assistant_role(), reply, answered);
    assert(Seq::<MessageView>::empty().push(user).push(assistant) =~= seq![user, assistant]);
    lemma_text_le_reflexive(created.clock);
}

} // verus!
