//! The store: conversations, their messages and the settings record, with
//! the operations that read and change them.
//!
//! Every operation that writes takes a reading of the time. What it stores is
//! that reading, or the latest time the store has seen where the reading is
//! earlier. A caller that shares a store among tasks lets one task at a time
//! call into it.

use vstd::prelude::*;
use crate::error::{AppError, AppErrorView};
use crate::models::{AppSettings, Conversation, Message, views};
use crate::store_laws::{
    lemma_append,
    lemma_configure,
    lemma_create,
    lemma_delete,
    lemma_initial_wf,
    lemma_listing_order,
    lemma_messages_order,
    lemma_no_messages,
    lemma_position,
    lemma_rename,
};
use crate::store_model::{
    DatabaseView,
    full_text,
    in_conversation,
    malformed_text,
    other_than,
    outside_conversation,
};
use crate::text::{later, lemma_later_bounds, lemma_text_le_transitive, precedes, text_le};

verus! {

/// The store.
#[derive(Debug)]
pub struct Database {
    conversations: Vec<Conversation>,
    messages: Vec<Message>,
    settings: AppSettings,
    clock: String,
    last_conversation_id: i64,
    last_message_id: i64,
}

impl View for Database {
    type V = DatabaseView;

    closed spec fn view(&self) -> DatabaseView {
        DatabaseView {
            conversations: views(self.conversations@),
            messages: views(self.messages@),
            settings: self.settings@,
            clock: self.clock@,
            last_conversation_id: self.last_conversation_id as int,
            last_message_id: self.last_message_id as int,
        }
    }
}

impl Database {
    /// The store is consistent.
    pub open spec fn wf(&self) -> bool {
        self@.wf()
    }

    /// Sets up a store with no conversation, no message and the default
    /// settings.
    pub fn new() -> (db: Database)
        ensures
            db.wf(),
            db@ == DatabaseView::initial(),
    {
        let db = Database {
            conversations: Vec::new(),
            messages: Vec::new(),
            settings: AppSettings::default(),
            clock: String::new(),
            last_conversation_id: 0,
            last_message_id: 0,
        };
        proof {
            lemma_initial_wf();
            assert(db@ =~= DatabaseView::initial());
        }
        db
    }

    /// Sets up a store from what was written down of an earlier one: its
    /// conversations, least recently active first, its messages in the order
    /// in which they were added, its settings and the ids it gave out last.
    ///
    /// Fails where that is not consistent: an id out of range or used twice,
    /// a message of no conversation, or times out of order.
    pub fn restore(
        conversations: Vec<Conversation>,
        messages: Vec<Message>,
        settings: AppSettings,
        last_conversation_id: i64,
        last_message_id: i64,
    ) -> (r: Result<Database, AppError>)
        ensures
            match r {
                Ok(db) => {
                    &&& db.wf()
                    &&& db@ == DatabaseView::restored(
                        views(conversations@),
                        views(messages@),
                        settings@,
                        last_conversation_id as int,
                        last_message_id as int,
                    )
                },
                Err(e) => {
                    &&& !DatabaseView::restored(
                        views(conversations@),
                        views(messages@),
                        settings@,
                        last_conversation_id as int,
                        last_message_id as int,
                    ).wf()
                    &&& e@ == (AppErrorView::Store { cause: malformed_text() })
                },
            },
    {
        let ghost c = DatabaseView::restored(
            views(conversations@),
            views(messages@),
            settings@,
            last_conversation_id as int,
            last_message_id as int,
        );
        if last_conversation_id < 0 || last_message_id < 0 {
            return Err(malformed());
        }
        let n = conversations.len();
        let mut i: usize = 0;
        while i < n
            invariant
                n == conversations.len(),
                i <= n,
                c == DatabaseView::restored(
                    views(conversations@),
                    views(messages@),
                    settings@,
                    last_conversation_id as int,
                    last_message_id as int,
                ),
                forall|a: int|
                    0 <= a < i ==> {
                        &&& 1 <= (#[trigger] c.conversations[a]).id <= last_conversation_id
                        &&& text_le(c.conversations[a].created_at, c.conversations[a].updated_at)
                    },
                forall|a: int, b: int|
                    0 <= a < b < i ==> {
                        &&& (#[trigger] c.conversations[a]).id != (#[trigger] c.conversations[b]).id
                        &&& text_le(c.conversations[a].updated_at, c.conversations[b].updated_at)
                    },
            decreases n - i,
        {
            let id = conversations[i].id;
            if id < 1 || id > last_conversation_id || !precedes(
                conversations[i].created_at.as_str(),
                conversations[i].updated_at.as_str(),
            ) {
                assert(c.conversations[i as int].id == id);
                return Err(malformed());
            }
            if i > 0 && !precedes(
                conversations[i - 1].updated_at.as_str(),
                conversations[i].updated_at.as_str(),
            ) {
                assert(!text_le(
                    c.conversations[i - 1].updated_at,
                    c.conversations[i as int].updated_at,
                ));
                return Err(malformed());
            }
            let mut j: usize = 0;
            while j < i
                invariant
                    n == conversations.len(),
                    i < n,
                    j <= i,
                    id == conversations[i as int].id,
                    c == DatabaseView::restored(
                        views(conversations@),
                        views(messages@),
                        settings@,
                        last_conversation_id as int,
                        last_message_id as int,
                    ),
                    forall|a: int| 0 <= a < j ==> (#[trigger] c.conversations[a]).id != id,
                decreases i - j,
            {
                if conversations[j].id == id {
                    assert(c.conversations[j as int].id == c.conversations[i as int].id);
                    return Err(malformed());
                }
                j += 1;
            }
            proof {
                assert forall|a: int| 0 <= a < i implies text_le(
                    (#[trigger] c.conversations[a]).updated_at,
                    c.conversations[i as int].updated_at,
                ) by {
                    if a < i - 1 {
                        lemma_text_le_transitive(
                            c.conversations[a].updated_at,
                            c.conversations[i - 1].updated_at,
                            c.conversations[i as int].updated_at,
                        );
                    }
                }
            }
            i += 1;
        }
        let m = messages.len();
        let mut k: usize = 0;
        while k < m
            invariant
                m == messages.len(),
                k <= m,
                c == DatabaseView::restored(
                    views(conversations@),
                    views(messages@),
                    settings@,
                    last_conversation_id as int,
                    last_message_id as int,
                ),
                forall|a: int|
                    0 <= a < k ==> {
                        &&& 1 <= (#[trigger] c.messages[a]).id <= last_message_id
                        &&& c.has_conversation(c.messages[a].conversation_id)
                    },
                forall|a: int, b: int|
                    0 <= a < b < k ==> {
                        &&& (#[trigger] c.messages[a]).id < (#[trigger] c.messages[b]).id
                        &&& text_le(c.messages[a].created_at, c.messages[b].created_at)
                    },
            decreases m - k,
        {
            let id = messages[k].id;
            if id < 1 || id > last_message_id {
                assert(c.messages[k as int].id == id);
                return Err(malformed());
            }
            if k > 0 && (messages[k - 1].id >= id || !precedes(
                messages[k - 1].created_at.as_str(),
                messages[k].created_at.as_str(),
            )) {
                assert(c.messages[k - 1].id >= c.messages[k as int].id || !text_le(
                    c.messages[k - 1].created_at,
                    c.messages[k as int].created_at,
                ));
                return Err(malformed());
            }
            if !holds_id(&conversations, messages[k].conversation_id) {
                assert(!c.has_conversation(c.messages[k as int].conversation_id));
                return Err(malformed());
            }
            proof {
                assert forall|a: int| 0 <= a < k implies (#[trigger] c.messages[a]).id
                    < c.messages[k as int].id && text_le(
                    c.messages[a].created_at,
                    c.messages[k as int].created_at,
                ) by {
                    if a < k - 1 {
                        lemma_text_le_transitive(
                            c.messages[a].created_at,
                            c.messages[k - 1].created_at,
                            c.messages[k as int].created_at,
                        );
                    }
                }
            }
            k += 1;
        }
        let mut clock = if n > 0 {
            conversations[n - 1].updated_at.clone()
        } else {
            String::new()
        };
        if m > 0 && precedes(clock.as_str(), messages[m - 1].created_at.as_str()) {
            clock = messages[m - 1].created_at.clone();
        }
        proof {
            let first = if n > 0 {
                c.conversations.last().updated_at
            } else {
                Seq::empty()
            };
            let second = if m > 0 {
                c.messages.last().created_at
            } else {
                Seq::empty()
            };
            assert(clock@ == c.clock);
            lemma_later_bounds(first, second);
            assert forall|a: int| 0 <= a < n implies text_le(
                (#[trigger] c.conversations[a]).updated_at,
                c.clock,
            ) by {
                if a < n - 1 {
                    lemma_text_le_transitive(c.conversations[a].updated_at, first, c.clock);
                }
            }
            assert forall|a: int| 0 <= a < m implies text_le(
                (#[trigger] c.messages[a]).created_at,
                c.clock,
            ) by {
                if a < m - 1 {
                    lemma_text_le_transitive(c.messages[a].created_at, second, c.clock);
                }
            }
        }
        let db = Database {
            conversations,
            messages,
            settings,
            clock,
            last_conversation_id,
            last_message_id,
        };
        assert(db@ =~= c);
        Ok(db)
    }
}

/// The failure that says that what was written down of a store is not
/// consistent.
fn malformed() -> (e: AppError)
    ensures
        e@ == (AppErrorView::Store { cause: malformed_text() }),
{
    AppError::Store { cause: "database disk image is malformed".to_owned() }
}

/// Tells whether one of the conversations has this id.
fn holds_id(conversations: &Vec<Conversation>, id: i64) -> (r: bool)
    ensures
        r == exists|i: int|
            0 <= i < conversations.len() && (#[trigger] views(conversations@)[i]).id == id,
{
    let n = conversations.len();
    let mut i: usize = 0;
    while i < n
        invariant
            n == conversations.len(),
            i <= n,
            forall|k: int| 0 <= k < i ==> (#[trigger] views(conversations@)[k]).id != id,
        decreases n - i,
    {
        if conversations[i].id == id {
            assert(views(conversations@)[i as int].id == id);
            return true;
        }
        i += 1;
    }
    false
}

/// Where the conversation with this id stands, if there is one.
fn find_conversation(db: &Database, id: i64) -> (r: Option<usize>)
    requires
        db.wf(),
    ensures
        match r {
            Some(p) => db@.has_conversation(id as int) && p == db@.position(id as int) && p
                < db.conversations.len(),
            None => !db@.has_conversation(id as int),
        },
{
    let n = db.conversations.len();
    let mut i: usize = 0;
    while i < n
        invariant
            db.wf(),
            n == db.conversations.len(),
            i <= n,
            forall|k: int| 0 <= k < i ==> (#[trigger] db@.conversations[k]).id != id,
        decreases n - i,
    {
        if db.conversations[i].id == id {
            proof {
                assert(db@.conversations[i as int].id == id);
                lemma_position(db@, id as int);
            }
            return Some(i);
        }
        i += 1;
    }
    None
}

/// Where the message with this id stands, if there is one.
fn find_message(db: &Database, id: i64) -> (r: Option<usize>)
    requires
        db.wf(),
    ensures
        match r {
            Some(p) => p < db.messages.len() && db@.has_message(id as int) && db@.messages[p as int]
                == db@.message(id as int),
            None => !db@.has_message(id as int),
        },
{
    let n = db.messages.len();
    let mut i: usize = 0;
    while i < n
        invariant
            db.wf(),
            n == db.messages.len(),
            i <= n,
            forall|k: int| 0 <= k < i ==> (#[trigger] db@.messages[k]).id != id,
        decreases n - i,
    {
        if db.messages[i].id == id {
            proof {
                assert(db@.messages[i as int].id == id);
                let w = choose|k: int|
                    0 <= k < db@.messages.len() && (#[trigger] db@.messages[k]).id == id;
                if w < i {
                    assert(db@.messages[w].id < db@.messages[i as int].id);
                } else if i < w {
                    assert(db@.messages[i as int].id < db@.messages[w].id);
                }
            }
            return Some(i);
        }
        i += 1;
    }
    None
}

/// Moves the store's clock to the reading `now`, unless that is earlier.
fn advance_clock(db: &mut Database, now: &str)
    ensures
        final(db)@ == (DatabaseView { clock: later(old(db)@.clock, now@), ..old(db)@ }),
        final(db).conversations == old(db).conversations,
        final(db).messages == old(db).messages,
{
    if precedes(db.clock.as_str(), now) {
        db.clock = now.to_owned();
    }
}

/// The conversations, most recently active first: none of them was updated
/// after one that stands before it.
pub fn get_conversations(db: &Database) -> (r: Vec<Conversation>)
    ensures
        views(r@) == db@.listing(),
        db.wf() ==> forall|i: int, j: int|
            0 <= i <= j < r.len() ==> text_le(
                (#[trigger] r[j])@.updated_at,
                (#[trigger] r[i])@.updated_at,
            ),
{
    let n = db.conversations.len();
    let mut out: Vec<Conversation> = Vec::new();
    let mut i: usize = n;
    while i > 0
        invariant
            n == db.conversations.len(),
            i <= n,
            out.len() == n - i,
            forall|k: int| 0 <= k < out.len() ==> (#[trigger] out[k])@ == db.conversations[n - 1 - k]@,
        decreases i,
    {
        i -= 1;
        out.push(db.conversations[i].clone());
    }
    assert(views(out@) =~= db@.listing());
    proof {
        if db.wf() {
            assert forall|i: int, j: int| 0 <= i <= j < out.len() implies text_le(
                (#[trigger] out[j])@.updated_at,
                (#[trigger] out[i])@.updated_at,
            ) by {
                lemma_listing_order(db@, i, j);
                assert(views(out@)[i] == out[i]@);
                assert(views(out@)[j] == out[j]@);
            }
        }
    }
    out
}

/// Adds a conversation with this title, as it is given, and returns it.
///
/// Fails, and changes nothing, when no id is left to give to it.
pub fn create_conversation(db: &mut Database, title: String, now: &str) -> (r: Result<
    Conversation,
    AppError,
>)
    requires
        old(db).wf(),
    ensures
        final(db).wf(),
        match r {
            Ok(c) => {
                &&& old(db)@.last_conversation_id < i64::MAX
                &&& final(db)@ == old(db)@.create(title@, now@)
                &&& c@ == old(db)@.new_conversation(title@, now@)
            },
            Err(e) => {
                &&& old(db)@.last_conversation_id == i64::MAX
                &&& final(db)@ == old(db)@
                &&& e@ == (AppErrorView::Store { cause: full_text() })
            },
        },
{
    if db.last_conversation_id == i64::MAX {
        return Err(AppError::Store { cause: "database or disk is full".to_owned() });
    }
    let ghost before = db@;
    proof {
        lemma_create(before, title@, now@);
    }
    advance_clock(db, now);
    db.last_conversation_id = db.last_conversation_id + 1;
    let c = Conversation {
        id: db.last_conversation_id,
        title,
        created_at: db.clock.clone(),
        updated_at: db.clock.clone(),
    };
    let out = c.clone();
    db.conversations.push(c);
    assert(db@ =~= before.create(title@, now@));
    Ok(out)
}

/// The conversation with this id.
pub fn get_conversation(db: &Database, id: i64) -> (r: Result<Conversation, AppError>)
    requires
        db.wf(),
    ensures
        match r {
            Ok(c) => db@.has_conversation(id as int) && c@ == db@.conversation(id as int),
            Err(e) => !db@.has_conversation(id as int) && e@ == AppErrorView::NotFound,
        },
{
    match find_conversation(db, id) {
        Some(p) => Ok(db.conversations[p].clone()),
        None => Err(AppError::NotFound),
    }
}

/// The message with this id.
pub fn get_message(db: &Database, id: i64) -> (r: Result<Message, AppError>)
    requires
        db.wf(),
    ensures
        match r {
            Ok(m) => db@.has_message(id as int) && m@ == db@.message(id as int),
            Err(e) => !db@.has_message(id as int) && e@ == AppErrorView::NotFound,
        },
{
    match find_message(db, id) {
        Some(p) => Ok(db.messages[p].clone()),
        None => Err(AppError::NotFound),
    }
}

/// Gives the conversation with this id a new title and counts that as
/// activity in it. Does nothing where there is no such conversation.
pub fn update_conversation_title(db: &mut Database, id: i64, title: String, now: &str)
    requires
        old(db).wf(),
    ensures
        final(db).wf(),
        final(db)@ == old(db)@.rename(id as int, title@, now@),
{
    let ghost before = db@;
    proof {
        lemma_rename(before, id as int, title@, now@);
    }
    match find_conversation(db, id) {
        None => {},
        Some(p) => {
            advance_clock(db, now);
            let mut c = db.conversations.remove(p);
            c.title = title;
            c.updated_at = db.clock.clone();
            db.conversations.push(c);
            assert(db@ =~= before.rename(id as int, title@, now@));
        },
    }
}

/// Deletes the conversation with this id, and its messages with it. Does
/// nothing where there is no such conversation.
pub fn delete_conversation(db: &mut Database, id: i64)
    requires
        old(db).wf(),
    ensures
        final(db).wf(),
        final(db)@ == old(db)@.delete(id as int),
{
    let ghost before = db@;
    proof {
        lemma_delete(before, id as int);
    }
    let n = db.messages.len();
    let mut messages: Vec<Message> = Vec::new();
    let mut i: usize = 0;
    while i < n
        invariant
            n == db.messages.len(),
            i <= n,
            db@ == before,
            views(messages@) == before.messages.take(i as int).filter(outside_conversation(id as int)),
        decreases n - i,
    {
        proof {
            assert(before.messages.take(i + 1) =~= before.messages.take(i as int).push(
                before.messages[i as int],
            ));
            before.messages.take(i as int).lemma_filter_push(
                before.messages[i as int],
                outside_conversation(id as int),
            );
        }
        if db.messages[i].conversation_id != id {
            let ghost earlier = messages@;
            let m = db.messages[i].clone();
            messages.push(m);
            assert(views(messages@) =~= views(earlier).push(m@));
        }
        i += 1;
    }
    assert(before.messages.take(n as int) =~= before.messages);
    let k = db.conversations.len();
    let mut conversations: Vec<Conversation> = Vec::new();
    let mut j: usize = 0;
    while j < k
        invariant
            k == db.conversations.len(),
            j <= k,
            db@ == before,
            views(conversations@) == before.conversations.take(j as int).filter(
                other_than(id as int),
            ),
        decreases k - j,
    {
        proof {
            assert(before.conversations.take(j + 1) =~= before.conversations.take(j as int).push(
                before.conversations[j as int],
            ));
            before.conversations.take(j as int).lemma_filter_push(
                before.conversations[j as int],
                other_than(id as int),
            );
        }
        if db.conversations[j].id != id {
            let ghost earlier = conversations@;
            let c = db.conversations[j].clone();
            conversations.push(c);
            assert(views(conversations@) =~= views(earlier).push(c@));
        }
        j += 1;
    }
    assert(before.conversations.take(k as int) =~= before.conversations);
    db.messages = messages;
    db.conversations = conversations;
    assert(db@ =~= before.delete(id as int));
}

/// The messages of one conversation, oldest first, and by rising id where
/// they are of one time; none where there is no such conversation.
pub fn get_messages(db: &Database, conversation_id: i64) -> (r: Vec<Message>)
    ensures
        views(r@) == db@.messages_of(conversation_id as int),
        db.wf() ==> forall|i: int, j: int|
            0 <= i < j < r.len() ==> {
                &&& (#[trigger] r[i])@.id < (#[trigger] r[j])@.id
                &&& text_le(r[i]@.created_at, r[j]@.created_at)
            },
        db.wf() && !db@.has_conversation(conversation_id as int) ==> r.len() == 0,
{
    let ghost all = db@.messages;
    let n = db.messages.len();
    let mut out: Vec<Message> = Vec::new();
    let mut i: usize = 0;
    while i < n
        invariant
            n == db.messages.len(),
            i <= n,
            all == db@.messages,
            views(out@) == all.take(i as int).filter(in_conversation(conversation_id as int)),
        decreases n - i,
    {
        proof {
            assert(all.take(i + 1) =~= all.take(i as int).push(all[i as int]));
            all.take(i as int).lemma_filter_push(
                all[i as int],
                in_conversation(conversation_id as int),
            );
        }
        if db.messages[i].conversation_id == conversation_id {
            let ghost earlier = out@;
            let m = db.messages[i].clone();
            out.push(m);
            assert(views(out@) =~= views(earlier).push(m@));
        }
        i += 1;
    }
    assert(all.take(n as int) =~= all);
    proof {
        if db.wf() {
            assert forall|i: int, j: int| 0 <= i < j < out.len() implies {
                &&& (#[trigger] out[i])@.id < (#[trigger] out[j])@.id
                &&& text_le(out[i]@.created_at, out[j]@.created_at)
            } by {
                lemma_messages_order(db@, conversation_id as int, i, j);
                assert(views(out@)[i] == out[i]@);
                assert(views(out@)[j] == out[j]@);
            }
            if !db@.has_conversation(conversation_id as int) {
                lemma_no_messages(db@, conversation_id as int);
            }
        }
    }
    out
}

/// Adds a message to an existing conversation, counts that as activity in
/// the conversation, and returns the message.
///
/// Fails with `NotFound`, and changes nothing, where there is no such
/// conversation; else fails, and changes nothing, when no id is left to give
/// to the message.
pub fn save_message(
    db: &mut Database,
    conversation_id: i64,
    role: String,
    content: String,
    now: &str,
) -> (r: Result<Message, AppError>)
    requires
        old(db).wf(),
    ensures
        final(db).wf(),
        match r {
            Ok(m) => {
                &&& old(db)@.has_conversation(conversation_id as int)
                &&& old(db)@.last_message_id < i64::MAX
                &&& final(db)@ == old(db)@.append(conversation_id as int, role@, content@, now@)
                &&& m@ == old(db)@.new_message(conversation_id as int, role@, content@, now@)
            },
            Err(e) => {
                &&& final(db)@ == old(db)@
                &&& if !old(db)@.has_conversation(conversation_id as int) {
                    e@ == AppErrorView::NotFound
                } else {
                    &&& old(db)@.last_message_id == i64::MAX
                    &&& e@ == (AppErrorView::Store { cause: full_text() })
                }
            },
        },
{
    let ghost before = db@;
    match find_conversation(db, conversation_id) {
        None => Err(AppError::NotFound),
        Some(p) => {
            if db.last_message_id == i64::MAX {
                return Err(AppError::Store { cause: "database or disk is full".to_owned() });
            }
            proof {
                lemma_append(before, conversation_id as int, role@, content@, now@);
            }
            advance_clock(db, now);
            let mut c = db.conversations.remove(p);
            c.updated_at = db.clock.clone();
            db.conversations.push(c);
            db.last_message_id = db.last_message_id + 1;
            let m = Message {
                id: db.last_message_id,
                conversation_id,
                role,
                content,
                created_at: db.clock.clone(),
            };
            let out = m.clone();
            db.messages.push(m);
            assert(db@ =~= before.append(conversation_id as int, role@, content@, now@));
            Ok(out)
        },
    }
}

/// The settings.
pub fn get_settings(db: &Database) -> (r: AppSettings)
    ensures
        r@ == db@.settings,
{
    db.settings.clone()
}

/// Replaces the settings.
pub fn save_settings(db: &mut Database, settings: AppSettings)
    requires
        old(db).wf(),
    ensures
        final(db).wf(),
        final(db)@ == old(db)@.configure(settings@),
{
    proof {
        lemma_configure(db@, settings@);
    }
    db.settings = settings;
}

} // verus!
