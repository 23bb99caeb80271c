//! What holds of the store's model: each operation keeps it consistent, a
//! new message is the last of its conversation and brings the conversation
//! to the front, and a deleted conversation takes its messages with it.

use vstd::prelude::*;
use crate::models::{AppSettingsView, ConversationView, MessageView};
use crate::store_model::{DatabaseView, in_conversation, other_than, outside_conversation};
use crate::text::{
    lemma_later_bounds,
    lemma_text_le_reflexive,
    lemma_text_le_transitive,
    text_le,
};

verus! {

/// A store that was just set up is consistent.
pub proof fn lemma_initial_wf()
    ensures
        DatabaseView::initial().wf(),
{
}

/// In a consistent store an id names at most one conversation, and
/// `position` finds it.
pub proof fn lemma_position(s: DatabaseView, id: int)
    requires
        s.wf(),
        s.has_conversation(id),
    ensures
        0 <= s.position(id) < s.conversations.len(),
        s.conversation(id).id == id,
        forall|i: int|
            0 <= i < s.conversations.len() && (#[trigger] s.conversations[i]).id == id
                ==> i == s.position(id),
{
    let p = s.position(id);
    assert forall|i: int|
        0 <= i < s.conversations.len() && (#[trigger] s.conversations[i]).id == id implies i
        == p by {
        if i < p {
            assert(s.conversations[i].id != s.conversations[p].id);
        } else if p < i {
            assert(s.conversations[p].id != s.conversations[i].id);
        }
    }
}

/// A time stamp that is not after the clock is not after a later stamp.
proof fn lemma_before_stamp(s: DatabaseView, now: Seq<char>, t: Seq<char>)
    requires
        text_le(t, s.clock),
    ensures
        text_le(t, s.stamp(now)),
{
    lemma_later_bounds(s.clock, now);
    lemma_text_le_transitive(t, s.clock, s.stamp(now));
}

/// Creating a conversation keeps the store consistent and adds one
/// conversation, at the front of the listing, with an id that was not in use.
pub proof fn lemma_create(s: DatabaseView, title: Seq<char>, now: Seq<char>)
    requires
        s.wf(),
        s.last_conversation_id < i64::MAX,
    ensures
        s.create(title, now).wf(),
        !s.has_conversation(s.last_conversation_id + 1),
        forall|id: int|
            s.create(title, now).has_conversation(id) <==> (s.has_conversation(id) || id
                == s.last_conversation_id + 1),
        s.create(title, now).conversation(s.last_conversation_id + 1) == s.new_conversation(
            title,
            now,
        ),
        s.create(title, now).listing()[0] == s.new_conversation(title, now),
        s.create(title, now).messages_of(s.last_conversation_id + 1) == Seq::<MessageView>::empty(),
{
    let r = s.create(title, now);
    let c = s.new_conversation(title, now);
    let n = s.conversations.len() as int;
    lemma_text_le_reflexive(s.stamp(now));
    assert(r.conversations[n] == c);
    assert forall|i: int| 0 <= i < r.conversations.len() implies {
        &&& 1 <= (#[trigger] r.conversations[i]).id <= r.last_conversation_id
        &&& text_le(r.conversations[i].created_at, r.conversations[i].updated_at)
        &&& text_le(r.conversations[i].updated_at, r.clock)
    } by {
        if i < n {
            assert(r.conversations[i] == s.conversations[i]);
            lemma_before_stamp(s, now, s.conversations[i].updated_at);
        }
    }
    assert forall|i: int, j: int| 0 <= i < j < r.conversations.len() implies {
        &&& (#[trigger] r.conversations[i]).id != (#[trigger] r.conversations[j]).id
        &&& text_le(r.conversations[i].updated_at, r.conversations[j].updated_at)
    } by {
        assert(r.conversations[i] == s.conversations[i]);
        if j < n {
            assert(r.conversations[j] == s.conversations[j]);
        } else {
            lemma_before_stamp(s, now, s.conversations[i].updated_at);
        }
    }
    assert forall|id: int| r.has_conversation(id) <==> (s.has_conversation(id) || id == c.id) by {
        if s.has_conversation(id) {
            let i = s.position(id);
            assert(r.conversations[i].id == id);
        }
        if id == c.id {
            assert(r.conversations[n].id == id);
        }
        if r.has_conversation(id) {
            let i = r.position(id);
            if i < n {
                assert(s.conversations[i].id == id);
            }
        }
    }
    assert(!s.has_conversation(c.id)) by {
        if s.has_conversation(c.id) {
            let i = s.position(c.id);
            assert(s.conversations[i].id <= s.last_conversation_id);
        }
    }
    assert forall|i: int| 0 <= i < r.messages.len() implies {
        &&& 1 <= (#[trigger] r.messages[i]).id <= r.last_message_id
        &&& r.has_conversation(r.messages[i].conversation_id)
        &&& text_le(r.messages[i].created_at, r.clock)
    } by {
        assert(r.messages[i] == s.messages[i]);
        lemma_before_stamp(s, now, s.messages[i].created_at);
    }
    assert(r.wf());
    lemma_position(r, c.id);
    assert(r.conversations[n].id == c.id);
    assert(r.listing()[0] == r.conversations[n]);
    lemma_no_messages(s, c.id);
}

/// A conversation that does not exist has no messages.
pub proof fn lemma_no_messages(s: DatabaseView, id: int)
    requires
        s.wf(),
        !s.has_conversation(id),
    ensures
        s.messages_of(id) == Seq::<MessageView>::empty(),
{
    let f = s.messages_of(id);
    if f.len() > 0 {
        s.messages.lemma_filter_pred(in_conversation(id), 0);
        assert(f.contains(f[0]));
        s.messages.lemma_filter_contains_rev(in_conversation(id), f[0]);
        let k = choose|k: int| 0 <= k < s.messages.len() && s.messages[k] == f[0];
        assert(s.has_conversation(s.messages[k].conversation_id));
    }
    assert(f =~= Seq::<MessageView>::empty());
}

/// The store after the conversation `id` was active at the reading `now`
/// and became `changed`.
pub open spec fn touched(
    s: DatabaseView,
    id: int,
    changed: ConversationView,
    now: Seq<char>,
) -> DatabaseView {
    DatabaseView { conversations: s.moved_last(id, changed), clock: s.stamp(now), ..s }
}

/// Activity in a conversation keeps the store consistent, keeps the ids that
/// are in use, changes no other conversation and brings the active one to the
/// front of the listing.
pub proof fn lemma_touched(s: DatabaseView, id: int, changed: ConversationView, now: Seq<char>)
    requires
        s.wf(),
        s.has_conversation(id),
        changed.id == id,
        changed.created_at == s.conversation(id).created_at,
        changed.updated_at == s.stamp(now),
    ensures
        touched(s, id, changed, now).wf(),
        touched(s, id, changed, now).conversations.len() == s.conversations.len(),
        forall|x: int| touched(s, id, changed, now).has_conversation(x) <==> s.has_conversation(x),
        touched(s, id, changed, now).conversation(id) == changed,
        forall|x: int|
            x != id && s.has_conversation(x) ==> touched(s, id, changed, now).conversation(x)
                == s.conversation(x),
        touched(s, id, changed, now).listing()[0] == changed,
{
    let r = touched(s, id, changed, now);
    let p = s.position(id);
    let n = s.conversations.len() as int;
    lemma_position(s, id);
    s.conversations.remove_ensures(p);
    lemma_text_le_reflexive(s.stamp(now));
    lemma_before_stamp(s, now, s.conversations[p].updated_at);
    lemma_text_le_transitive(changed.created_at, s.conversations[p].updated_at, s.stamp(now));
    assert(r.conversations.len() == n);
    assert(r.conversations[n - 1] == changed);
    assert forall|i: int| 0 <= i < r.conversations.len() implies {
        &&& 1 <= (#[trigger] r.conversations[i]).id <= r.last_conversation_id
        &&& text_le(r.conversations[i].created_at, r.conversations[i].updated_at)
        &&& text_le(r.conversations[i].updated_at, r.clock)
    } by {
        if i < n - 1 {
            let k = if i < p {
                i
            } else {
                i + 1
            };
            assert(r.conversations[i] == s.conversations[k]);
            lemma_before_stamp(s, now, s.conversations[k].updated_at);
        }
    }
    assert forall|i: int, j: int| 0 <= i < j < r.conversations.len() implies {
        &&& (#[trigger] r.conversations[i]).id != (#[trigger] r.conversations[j]).id
        &&& text_le(r.conversations[i].updated_at, r.conversations[j].updated_at)
    } by {
        let k = if i < p {
            i
        } else {
            i + 1
        };
        assert(r.conversations[i] == s.conversations[k]);
        if j < n - 1 {
            let l = if j < p {
                j
            } else {
                j + 1
            };
            assert(r.conversations[j] == s.conversations[l]);
            assert(s.conversations[k].id != s.conversations[l].id);
        } else {
            lemma_before_stamp(s, now, s.conversations[k].updated_at);
            if k < p {
                assert(s.conversations[k].id != s.conversations[p].id);
            } else {
                assert(s.conversations[p].id != s.conversations[k].id);
            }
        }
    }
    assert forall|x: int| r.has_conversation(x) <==> s.has_conversation(x) by {
        if s.has_conversation(x) {
            let i = s.position(x);
            if i == p {
                assert(r.conversations[n - 1].id == x);
            } else {
                let k = if i < p {
                    i
                } else {
                    i - 1
                };
                assert(r.conversations[k] == s.conversations[i]);
                assert(r.conversations[k].id == x);
            }
        }
        if r.has_conversation(x) {
            let i = r.position(x);
            if i < n - 1 {
                let k = if i < p {
                    i
                } else {
                    i + 1
                };
                assert(r.conversations[i] == s.conversations[k]);
                assert(s.conversations[k].id == x);
            } else {
                assert(s.conversations[p].id == x);
            }
        }
    }
    assert forall|i: int| 0 <= i < r.messages.len() implies {
        &&& 1 <= (#[trigger] r.messages[i]).id <= r.last_message_id
        &&& r.has_conversation(r.messages[i].conversation_id)
        &&& text_le(r.messages[i].created_at, r.clock)
    } by {
        assert(r.messages[i] == s.messages[i]);
        lemma_before_stamp(s, now, s.messages[i].created_at);
    }
    assert(r.wf());
    lemma_position(r, id);
    assert(r.conversations[n - 1].id == id);
    assert forall|x: int| x != id && s.has_conversation(x) implies r.conversation(x)
        == s.conversation(x) by {
        let i = s.position(x);
        lemma_position(s, x);
        lemma_position(r, x);
        let k = if i < p {
            i
        } else {
            i - 1
        };
        assert(r.conversations[k] == s.conversations[i]);
        assert(r.conversations[k].id == x);
    }
    assert(r.listing()[0] == r.conversations[n - 1]);
}

/// The conversations are listed from the most recently active to the least.
pub proof fn lemma_listing_order(s: DatabaseView, i: int, j: int)
    requires
        s.wf(),
        0 <= i <= j < s.listing().len(),
    ensures
        text_le(s.listing()[j].updated_at, s.listing()[i].updated_at),
{
    let n = s.conversations.len() as int;
    assert(s.listing()[i] == s.conversations[n - 1 - i]);
    assert(s.listing()[j] == s.conversations[n - 1 - j]);
    if i == j {
        lemma_text_le_reflexive(s.listing()[i].updated_at);
    }
}

/// The messages of a conversation are listed from the oldest to the newest,
/// and by rising id.
pub proof fn lemma_messages_order(s: DatabaseView, id: int, i: int, j: int)
    requires
        s.wf(),
        0 <= i < j < s.messages_of(id).len(),
    ensures
        s.messages_of(id)[i].conversation_id == id,
        s.messages_of(id)[i].id < s.messages_of(id)[j].id,
        text_le(s.messages_of(id)[i].created_at, s.messages_of(id)[j].created_at),
{
    let rel = |a: MessageView, b: MessageView| a.id < b.id && text_le(a.created_at, b.created_at);
    assert forall|k: int, l: int| 0 <= k < l < s.messages.len() implies #[trigger] rel(
        s.messages[k],
        s.messages[l],
    ) by {}
    lemma_filter_keeps_order(s.messages, in_conversation(id), rel);
    assert(rel(s.messages_of(id)[i], s.messages_of(id)[j]));
    s.messages.lemma_filter_pred(in_conversation(id), i);
}

/// What holds of every two items of a sequence, the earlier and the later,
/// holds of every two items that a filter keeps.
pub proof fn lemma_filter_keeps_order<A>(
    s: Seq<A>,
    keep: spec_fn(A) -> bool,
    rel: spec_fn(A, A) -> bool,
)
    requires
        forall|i: int, j: int| 0 <= i < j < s.len() ==> #[trigger] rel(s[i], s[j]),
    ensures
        forall|i: int, j: int|
            0 <= i < j < s.filter(keep).len() ==> #[trigger] rel(s.filter(keep)[i], s.filter(keep)[j]),
    decreases s.len(),
{
    reveal(Seq::filter);
    if s.len() > 0 {
        let rest = s.drop_last();
        let kept = rest.filter(keep);
        assert forall|i: int, j: int| 0 <= i < j < rest.len() implies #[trigger] rel(
            rest[i],
            rest[j],
        ) by {
            assert(rel(s[i], s[j]));
        }
        lemma_filter_keeps_order(rest, keep, rel);
        if keep(s.last()) {
            let f = s.filter(keep);
            assert(f == kept.push(s.last()));
            assert forall|i: int, j: int| 0 <= i < j < f.len() implies #[trigger] rel(
                f[i],
                f[j],
            ) by {
                if j < kept.len() {
                    assert(rel(kept[i], kept[j]));
                } else {
                    assert(kept.contains(kept[i]));
                    rest.lemma_filter_contains_rev(keep, kept[i]);
                    let k = choose|k: int| 0 <= k < rest.len() && rest[k] == kept[i];
                    assert(rel(s[k], s[s.len() - 1]));
                }
            }
        }
    }
}

/// Adding a message to an existing conversation keeps the store consistent.
/// The new message is the last of its conversation, and none of that
/// conversation is newer. The conversation comes to the front of the listing
/// with its `updated_at` refreshed, and no other conversation changes.
pub proof fn lemma_append(
    s: DatabaseView,
    id: int,
    role: Seq<char>,
    content: Seq<char>,
    now: Seq<char>,
)
    requires
        s.wf(),
        s.has_conversation(id),
        s.last_message_id < i64::MAX,
    ensures
        s.append(id, role, content, now).wf(),
        s.append(id, role, content, now).messages_of(id) == s.messages_of(id).push(
            s.new_message(id, role, content, now),
        ),
        forall|i: int|
            0 <= i < s.messages_of(id).len() ==> text_le(
                (#[trigger] s.messages_of(id)[i]).created_at,
                s.new_message(id, role, content, now).created_at,
            ),
        forall|x: int|
            x != id ==> s.append(id, role, content, now).messages_of(x) == s.messages_of(x),
        !s.has_message(s.last_message_id + 1),
        forall|x: int|
            s.has_message(x) ==> s.append(id, role, content, now).has_message(x) && s.append(
                id,
                role,
                content,
                now,
            ).message(x) == s.message(x),
        s.append(id, role, content, now).has_message(s.last_message_id + 1),
        s.append(id, role, content, now).message(s.last_message_id + 1) == s.new_message(
            id,
            role,
            content,
            now,
        ),
        forall|x: int|
            s.append(id, role, content, now).has_conversation(x) <==> s.has_conversation(x),
        s.append(id, role, content, now).listing().len() == s.listing().len(),
        s.append(id, role, content, now).listing()[0] == s.append(
            id,
            role,
            content,
            now,
        ).conversation(id),
        s.append(id, role, content, now).conversation(id) == (ConversationView {
            updated_at: s.stamp(now),
            ..s.conversation(id)
        }),
        forall|x: int|
            x != id && s.has_conversation(x) ==> s.append(id, role, content, now).conversation(x)
                == s.conversation(x),
{
    let changed = ConversationView { updated_at: s.stamp(now), ..s.conversation(id) };
    let m = s.new_message(id, role, content, now);
    let t = touched(s, id, changed, now);
    let r = s.append(id, role, content, now);
    let n = s.messages.len() as int;
    lemma_position(s, id);
    lemma_touched(s, id, changed, now);
    lemma_text_le_reflexive(s.stamp(now));
    assert(r.conversations == t.conversations);
    assert forall|x: int| r.has_conversation(x) <==> s.has_conversation(x) by {
        assert(r.has_conversation(x) <==> t.has_conversation(x));
    }
    assert forall|i: int| 0 <= i < r.messages.len() implies {
        &&& 1 <= (#[trigger] r.messages[i]).id <= r.last_message_id
        &&& r.has_conversation(r.messages[i].conversation_id)
        &&& text_le(r.messages[i].created_at, r.clock)
    } by {
        if i < n {
            assert(r.messages[i] == s.messages[i]);
            lemma_before_stamp(s, now, s.messages[i].created_at);
        }
    }
    assert forall|i: int, j: int| 0 <= i < j < r.messages.len() implies {
        &&& (#[trigger] r.messages[i]).id < (#[trigger] r.messages[j]).id
        &&& text_le(r.messages[i].created_at, r.messages[j].created_at)
    } by {
        assert(r.messages[i] == s.messages[i]);
        if j < n {
            assert(r.messages[j] == s.messages[j]);
        } else {
            lemma_before_stamp(s, now, s.messages[i].created_at);
        }
    }
    assert forall|i: int| 0 <= i < r.conversations.len() implies {
        &&& 1 <= (#[trigger] r.conversations[i]).id <= r.last_conversation_id
        &&& text_le(r.conversations[i].created_at, r.conversations[i].updated_at)
        &&& text_le(r.conversations[i].updated_at, r.clock)
    } by {
        assert(r.conversations[i] == t.conversations[i]);
    }
    assert forall|i: int, j: int| 0 <= i < j < r.conversations.len() implies {
        &&& (#[trigger] r.conversations[i]).id != (#[trigger] r.conversations[j]).id
        &&& text_le(r.conversations[i].updated_at, r.conversations[j].updated_at)
    } by {
        assert(r.conversations[i] == t.conversations[i]);
        assert(r.conversations[j] == t.conversations[j]);
    }
    assert(r.wf());
    s.messages.lemma_filter_push(m, in_conversation(id));
    assert forall|i: int| 0 <= i < s.messages_of(id).len() implies text_le(
        (#[trigger] s.messages_of(id)[i]).created_at,
        m.created_at,
    ) by {
        let f = s.messages_of(id);
        assert(f.contains(f[i]));
        s.messages.lemma_filter_contains_rev(in_conversation(id), f[i]);
        let k = choose|k: int| 0 <= k < s.messages.len() && s.messages[k] == f[i];
        lemma_before_stamp(s, now, s.messages[k].created_at);
    }
    assert forall|x: int| x != id implies r.messages_of(x) == s.messages_of(x) by {
        s.messages.lemma_filter_push(m, in_conversation(x));
    }
    assert(!s.has_message(m.id)) by {
        if s.has_message(m.id) {
            let k = choose|k: int| 0 <= k < s.messages.len() && (#[trigger] s.messages[k]).id == m.id;
            assert(s.messages[k].id <= s.last_message_id);
        }
    }
    assert(r.messages[n] == m);
    assert(r.has_message(m.id));
    lemma_message(r, m.id, n);
    assert forall|x: int| s.has_message(x) implies r.has_message(x) && r.message(x) == s.message(
        x,
    ) by {
        let k = choose|k: int| 0 <= k < s.messages.len() && (#[trigger] s.messages[k]).id == x;
        assert(r.messages[k] == s.messages[k]);
        lemma_message(s, x, k);
        lemma_message(r, x, k);
    }
    assert(r.conversation(id) == t.conversation(id));
    assert(r.listing() =~= t.listing());
    assert forall|x: int| x != id && s.has_conversation(x) implies r.conversation(x)
        == s.conversation(x) by {
        assert(r.conversation(x) == t.conversation(x));
    }
}

/// Giving a conversation a new title keeps the store consistent; the
/// conversation comes to the front of the listing and its messages stay.
pub proof fn lemma_rename(s: DatabaseView, id: int, title: Seq<char>, now: Seq<char>)
    requires
        s.wf(),
    ensures
        s.rename(id, title, now).wf(),
        forall|x: int| s.rename(id, title, now).has_conversation(x) <==> s.has_conversation(x),
        s.rename(id, title, now).messages == s.messages,
        s.has_conversation(id) ==> s.rename(id, title, now).conversation(id) == (ConversationView {
            title,
            updated_at: s.stamp(now),
            ..s.conversation(id)
        }),
        s.has_conversation(id) ==> s.rename(id, title, now).listing()[0] == s.rename(
            id,
            title,
            now,
        ).conversation(id),
{
    if s.has_conversation(id) {
        let changed = ConversationView { title, updated_at: s.stamp(now), ..s.conversation(id) };
        lemma_position(s, id);
        lemma_touched(s, id, changed, now);
        assert(s.rename(id, title, now) == touched(s, id, changed, now));
    }
}

/// Deleting a conversation keeps the store consistent and removes the
/// conversation and all of its messages. Listing the messages of the deleted
/// id gives the empty sequence. The other conversations keep their messages.
pub proof fn lemma_delete(s: DatabaseView, id: int)
    requires
        s.wf(),
    ensures
        s.delete(id).wf(),
        !s.delete(id).has_conversation(id),
        s.delete(id).messages_of(id) == Seq::<MessageView>::empty(),
        forall|i: int|
            0 <= i < s.delete(id).messages.len() ==> (#[trigger] s.delete(id).messages[i]).conversation_id
                != id,
        forall|x: int| x != id ==> (s.delete(id).has_conversation(x) <==> s.has_conversation(x)),
        forall|x: int|
            x != id && s.has_conversation(x) ==> s.delete(id).conversation(x) == s.conversation(x),
        forall|x: int| x != id ==> s.delete(id).messages_of(x) == s.messages_of(x),
{
    let r = s.delete(id);
    let keep_c = other_than(id);
    let keep_m = outside_conversation(id);
    // Every conversation and message that is left was there before.
    assert forall|i: int| 0 <= i < r.conversations.len() implies s.conversations.contains(
        #[trigger] r.conversations[i],
    ) && r.conversations[i].id != id by {
        assert(r.conversations.contains(r.conversations[i]));
        s.conversations.lemma_filter_contains_rev(keep_c, r.conversations[i]);
        s.conversations.lemma_filter_pred(keep_c, i);
    }
    assert forall|i: int| 0 <= i < r.messages.len() implies s.messages.contains(
        #[trigger] r.messages[i],
    ) && r.messages[i].conversation_id != id by {
        assert(r.messages.contains(r.messages[i]));
        s.messages.lemma_filter_contains_rev(keep_m, r.messages[i]);
        s.messages.lemma_filter_pred(keep_m, i);
    }
    assert forall|x: int| x != id implies (r.has_conversation(x) <==> s.has_conversation(x)) by {
        if s.has_conversation(x) {
            let i = s.position(x);
            s.conversations.lemma_filter_contains(keep_c, i);
            let k = choose|k: int| 0 <= k < r.conversations.len() && r.conversations[k] == s.conversations[i];
            assert(r.conversations[k].id == x);
        }
        if r.has_conversation(x) {
            let i = r.position(x);
            let k = choose|k: int| 0 <= k < s.conversations.len() && s.conversations[k] == r.conversations[i];
            assert(s.conversations[k].id == x);
        }
    }
    assert(!r.has_conversation(id)) by {
        if r.has_conversation(id) {
            let i = r.position(id);
            assert(r.conversations[i].id != id);
        }
    }
    let rel_c = |a: ConversationView, b: ConversationView|
        a.id != b.id && text_le(a.updated_at, b.updated_at);
    assert forall|i: int, j: int| 0 <= i < j < s.conversations.len() implies #[trigger] rel_c(
        s.conversations[i],
        s.conversations[j],
    ) by {}
    lemma_filter_keeps_order(s.conversations, keep_c, rel_c);
    let rel_m = |a: MessageView, b: MessageView| a.id < b.id && text_le(a.created_at, b.created_at);
    assert forall|i: int, j: int| 0 <= i < j < s.messages.len() implies #[trigger] rel_m(
        s.messages[i],
        s.messages[j],
    ) by {}
    lemma_filter_keeps_order(s.messages, keep_m, rel_m);
    assert forall|i: int| 0 <= i < r.conversations.len() implies {
        &&& 1 <= (#[trigger] r.conversations[i]).id <= r.last_conversation_id
        &&& text_le(r.conversations[i].created_at, r.conversations[i].updated_at)
        &&& text_le(r.conversations[i].updated_at, r.clock)
    } by {
        let k = choose|k: int| 0 <= k < s.conversations.len() && s.conversations[k] == r.conversations[i];
        assert(s.conversations[k].id >= 1);
    }
    assert forall|i: int, j: int| 0 <= i < j < r.conversations.len() implies {
        &&& (#[trigger] r.conversations[i]).id != (#[trigger] r.conversations[j]).id
        &&& text_le(r.conversations[i].updated_at, r.conversations[j].updated_at)
    } by {
        assert(rel_c(r.conversations[i], r.conversations[j]));
    }
    assert forall|i: int| 0 <= i < r.messages.len() implies {
        &&& 1 <= (#[trigger] r.messages[i]).id <= r.last_message_id
        &&& r.has_conversation(r.messages[i].conversation_id)
        &&& text_le(r.messages[i].created_at, r.clock)
    } by {
        let k = choose|k: int| 0 <= k < s.messages.len() && s.messages[k] == r.messages[i];
        assert(s.has_conversation(s.messages[k].conversation_id));
    }
    assert forall|i: int, j: int| 0 <= i < j < r.messages.len() implies {
        &&& (#[trigger] r.messages[i]).id < (#[trigger] r.messages[j]).id
        &&& text_le(r.messages[i].created_at, r.messages[j].created_at)
    } by {
        assert(rel_m(r.messages[i], r.messages[j]));
    }
    assert(r.wf());
    lemma_no_messages(r, id);
    assert forall|x: int| x != id && s.has_conversation(x) implies r.conversation(x)
        == s.conversation(x) by {
        lemma_position(s, x);
        lemma_position(r, x);
        let i = r.position(x);
        let k = choose|k: int| 0 <= k < s.conversations.len() && s.conversations[k] == r.conversations[i];
        assert(s.conversations[k].id == x);
    }
    assert forall|x: int| x != id implies r.messages_of(x) == s.messages_of(x) by {
        lemma_filter_twice(s.messages, id, x);
    }
}

/// Leaving out the messages of one conversation does not change the messages
/// of another.
proof fn lemma_filter_twice(messages: Seq<MessageView>, gone: int, x: int)
    requires
        x != gone,
    ensures
        messages.filter(outside_conversation(gone)).filter(in_conversation(x)) == messages.filter(
            in_conversation(x),
        ),
    decreases messages.len(),
{
    reveal(Seq::filter);
    if messages.len() > 0 {
        let rest = messages.drop_last();
        let last = messages.last();
        lemma_filter_twice(rest, gone, x);
        if outside_conversation(gone)(last) {
            rest.filter(outside_conversation(gone)).lemma_filter_push(last, in_conversation(x));
        }
    }
}

/// Replacing the settings keeps the store consistent and touches nothing
/// else.
pub proof fn lemma_configure(s: DatabaseView, settings: AppSettingsView)
    requires
        s.wf(),
    ensures
        s.configure(settings).wf(),
        s.configure(settings).settings == settings,
        s.configure(settings).conversations == s.conversations,
        s.configure(settings).messages == s.messages,
{
    let r = s.configure(settings);
    assert forall|i: int| 0 <= i < r.messages.len() implies r.has_conversation(
        (#[trigger] r.messages[i]).conversation_id,
    ) by {
        let id = s.messages[i].conversation_id;
        assert(s.has_conversation(id));
        assert(r.conversations[s.position(id)].id == id);
    }
}

/// In a consistent store an id names at most one message: the message with
/// an id is the one that stands wherever that id is found.
pub proof fn lemma_message(s: DatabaseView, id: int, i: int)
    requires
        s.wf(),
        0 <= i < s.messages.len(),
        s.messages[i].id == id,
    ensures
        s.has_message(id),
        s.message(id) == s.messages[i],
{
    let w = choose|k: int| 0 <= k < s.messages.len() && (#[trigger] s.messages[k]).id == id;
    if w < i {
        assert(s.messages[w].id < s.messages[i].id);
    } else if i < w {
        assert(s.messages[i].id < s.messages[w].id);
    }
}

} // verus!
