//! The chat store as a whole: a conversation is determined by its listing
//! and its two participants, and the list of a user holds the conversations
//! that the user takes part in.

use crate::chat::{
    conversation_id, conversation_key, conversations_listed, listed, ChatStoreView,
    ConversationView,
};
use crate::text::{
    decimal, holds_no, lemma_cut_at_first_mark, lemma_cut_at_only_mark, lemma_decimal_injective,
    lemma_decimal_is_digits, precedes,
};
use vstd::prelude::*;

verus! {

/// The key of a conversation of two: the key of its listing and its two
/// participants.
pub open spec fn key_of(conversation: ConversationView) -> Seq<char> {
    conversation_key(
        conversation.listing_id,
        conversation.participants[0],
        conversation.participants[1],
    )
}

impl ChatStoreView {
    /// The three parts of the store fit together:
    /// - every key leads to a stored conversation of that key;
    /// - every stored conversation has two participants and is found under
    ///   its key, so that no two stored conversations have the same key;
    /// - the list of a user holds only stored conversations that the user
    ///   takes part in;
    /// - every stored conversation is in the list of each of its
    ///   participants.
    pub open spec fn coherent(self) -> bool {
        &&& forall|key: Seq<char>| #[trigger]
            self.conversation_keys.contains_key(key) ==> {
                &&& self.conversations.contains_key(self.conversation_keys[key])
                &&& key_of(self.conversations[self.conversation_keys[key]]) == key
            }
        &&& forall|id: Seq<char>| #[trigger]
            self.conversations.contains_key(id) ==> {
                &&& self.conversations[id].participants.len() == 2
                &&& self.conversation_keys.contains_key(key_of(self.conversations[id]))
                &&& self.conversation_keys[key_of(self.conversations[id])] == id
            }
        &&& forall|user: Seq<char>, i: int|
            self.user_conversations.contains_key(user) && 0 <= i
                < self.user_conversations[user].len() ==> {
                &&& self.conversations.contains_key(#[trigger] self.user_conversations[user][i])
                &&& self.conversations[self.user_conversations[user][i]].participants.contains(
                    user,
                )
            }
        &&& forall|id: Seq<char>, user: Seq<char>|
            self.conversations.contains_key(id) && #[trigger] self.conversations[id].participants.contains(
                user,
            ) ==> self.user_conversations.contains_key(user)
                && self.user_conversations[user].contains(id)
    }

    /// Whether asking for the conversation of `user1` and `user2` about a
    /// listing at `timestamp` can put a new conversation in the place of a
    /// stored one: their key is new, and the identifier made of the listing
    /// and the time is taken.
    pub open spec fn would_overwrite(
        self,
        listing_id: u64,
        user1: Seq<char>,
        user2: Seq<char>,
        timestamp: u64,
    ) -> bool {
        &&& !self.conversation_keys.contains_key(conversation_key(listing_id, user1, user2))
        &&& self.conversations.contains_key(conversation_id(listing_id, timestamp))
    }
}

/// A store without conversations is coherent.
pub proof fn lemma_empty_is_coherent()
    ensures
        ChatStoreView::empty().coherent(),
{
}

/// A change to a stored conversation that leaves its listing and its
/// participants as they are keeps the store coherent.
pub proof fn lemma_change_keeps_coherent(
    store: ChatStoreView,
    id: Seq<char>,
    changed: ConversationView,
)
    requires
        store.coherent(),
        store.conversations.contains_key(id),
        changed.listing_id == store.conversations[id].listing_id,
        changed.participants == store.conversations[id].participants,
    ensures
        store.with_conversation(id, changed).coherent(),
{
    let after = store.with_conversation(id, changed);
    assert forall|key: Seq<char>| #[trigger] after.conversation_keys.contains_key(key) implies {
        &&& after.conversations.contains_key(after.conversation_keys[key])
        &&& key_of(after.conversations[after.conversation_keys[key]]) == key
    } by {
        assert(store.conversation_keys.contains_key(key));
    }
    assert forall|other: Seq<char>| #[trigger] after.conversations.contains_key(other) implies {
        &&& after.conversations[other].participants.len() == 2
        &&& after.conversation_keys.contains_key(key_of(after.conversations[other]))
        &&& after.conversation_keys[key_of(after.conversations[other])] == other
    } by {
        assert(store.conversations.contains_key(other));
    }
    assert forall|user: Seq<char>, i: int|
        after.user_conversations.contains_key(user) && 0 <= i
            < after.user_conversations[user].len() implies {
        &&& after.conversations.contains_key(#[trigger] after.user_conversations[user][i])
        &&& after.conversations[after.user_conversations[user][i]].participants.contains(user)
    } by {
        let listed_id = store.user_conversations[user][i];
        assert(store.conversations.contains_key(listed_id));
        assert(store.conversations[listed_id].participants.contains(user));
    }
    assert forall|other: Seq<char>, user: Seq<char>|
        after.conversations.contains_key(other) && #[trigger] after.conversations[other].participants.contains(
            user,
        ) implies after.user_conversations.contains_key(user)
        && after.user_conversations[user].contains(other) by {
        assert(store.conversations.contains_key(other));
        assert(store.conversations[other].participants.contains(user));
    }
}

/// Finding or creating a conversation keeps the store coherent, unless the
/// new conversation takes the place of a stored one.
pub proof fn lemma_get_or_create_keeps_coherent(
    store: ChatStoreView,
    listing_id: u64,
    listing_title: Seq<char>,
    user1: Seq<char>,
    user2: Seq<char>,
    timestamp: u64,
)
    requires
        store.coherent(),
        !store.would_overwrite(listing_id, user1, user2, timestamp),
    ensures
        store.get_or_create(listing_id, listing_title, user1, user2, timestamp).0.coherent(),
{
    let key = conversation_key(listing_id, user1, user2);
    if !store.conversation_keys.contains_key(key) {
        let created = ConversationView::created(
            listing_id,
            listing_title,
            seq![user1, user2],
            timestamp,
        );
        let new_id = created.id;
        let after = store.get_or_create(listing_id, listing_title, user1, user2, timestamp).0;
        let once = listed(store.user_conversations, user1, new_id);
        assert(created.participants[0] == user1 && created.participants[1] == user2);
        assert(key_of(created) == key);
        assert forall|k: Seq<char>| #[trigger] after.conversation_keys.contains_key(k) implies {
            &&& after.conversations.contains_key(after.conversation_keys[k])
            &&& key_of(after.conversations[after.conversation_keys[k]]) == k
        } by {
            if k != key {
                assert(store.conversation_keys.contains_key(k));
            }
        }
        assert forall|id: Seq<char>| #[trigger] after.conversations.contains_key(id) implies {
            &&& after.conversations[id].participants.len() == 2
            &&& after.conversation_keys.contains_key(key_of(after.conversations[id]))
            &&& after.conversation_keys[key_of(after.conversations[id])] == id
        } by {
            if id != new_id {
                assert(store.conversations.contains_key(id));
            }
        }
        assert forall|user: Seq<char>, i: int|
            after.user_conversations.contains_key(user) && 0 <= i
                < after.user_conversations[user].len() implies {
            &&& after.conversations.contains_key(#[trigger] after.user_conversations[user][i])
            &&& after.conversations[after.user_conversations[user][i]].participants.contains(
                user,
            )
        } by {
            let id = after.user_conversations[user][i];
            if id != new_id {
                // An entry for another conversation was listed before.
                assert(store.user_conversations.contains_key(user) && i
                    < store.user_conversations[user].len());
                assert(store.user_conversations[user][i] == id);
                assert(store.conversations.contains_key(id));
                assert(store.conversations[id].participants.contains(user));
            } else {
                // The new conversation is listed for its two users only.
                if user != user1 && user != user2 {
                    assert(after.user_conversations[user] == store.user_conversations[user]);
                    assert(store.conversations.contains_key(store.user_conversations[user][i]));
                }
                assert(created.participants[0] == user1);
                assert(created.participants[1] == user2);
            }
        }
        assert forall|id: Seq<char>, user: Seq<char>|
            after.conversations.contains_key(id) && #[trigger] after.conversations[id].participants.contains(
                user,
            ) implies after.user_conversations.contains_key(user)
            && after.user_conversations[user].contains(id) by {
            if id != new_id {
                assert(store.conversations.contains_key(id));
                assert(store.conversations[id].participants.contains(user));
                let list = store.user_conversations[user];
                let i = choose|i: int| 0 <= i < list.len() && list[i] == id;
                assert(once[user][i] == id);
                assert(after.user_conversations[user][i] == id);
            } else {
                assert(user == user1 || user == user2);
                let list = after.user_conversations[user];
                assert(list[list.len() - 1] == new_id);
            }
        }
    }
}

/// In a coherent store a conversation is determined by its listing and its
/// two participants, whichever of them is named first.
pub proof fn theorem_conversation_determined_by_listing_and_pair(
    store: ChatStoreView,
    id1: Seq<char>,
    id2: Seq<char>,
)
    requires
        store.coherent(),
        store.conversations.contains_key(id1),
        store.conversations.contains_key(id2),
        store.conversations[id1].listing_id == store.conversations[id2].listing_id,
        ({
            let p = store.conversations[id1].participants;
            let q = store.conversations[id2].participants;
            (p[0] == q[0] && p[1] == q[1]) || (p[0] == q[1] && p[1] == q[0])
        }),
    ensures
        id1 == id2,
{
    let c1 = store.conversations[id1];
    let c2 = store.conversations[id2];
    crate::theorems::theorem_conversation_key_symmetric(
        c1.listing_id,
        c1.participants[0],
        c1.participants[1],
    );
    assert(key_of(c1) == key_of(c2));
}

/// A key tells its listing and its two users, where it is known to be the
/// key of users whose identities hold no colon.
pub proof fn theorem_key_tells_listing_and_users(
    listing1: u64,
    a1: Seq<char>,
    b1: Seq<char>,
    listing2: u64,
    a2: Seq<char>,
    b2: Seq<char>,
)
    requires
        conversation_key(listing1, a1, b1) == conversation_key(listing2, a2, b2),
        holds_no(a2, ':'),
        holds_no(b2, ':'),
    ensures
        listing1 == listing2,
        (a1 == a2 && b1 == b2) || (a1 == b2 && b1 == a2),
{
    reveal_strlit(":");
    let colon = seq![':'];
    assert(":"@ =~= colon);
    let x1 = if precedes(a1, b1) { a1 } else { b1 };
    let y1 = if precedes(a1, b1) { b1 } else { a1 };
    let x2 = if precedes(a2, b2) { a2 } else { b2 };
    let y2 = if precedes(a2, b2) { b2 } else { a2 };
    let number1 = decimal(listing1 as nat);
    let number2 = decimal(listing2 as nat);
    let users1 = x1 + colon + y1;
    let users2 = x2 + colon + y2;
    assert(conversation_key(listing1, a1, b1) =~= number1 + colon + users1);
    assert(conversation_key(listing2, a2, b2) =~= number2 + colon + users2);
    lemma_decimal_is_digits(listing1 as nat);
    lemma_decimal_is_digits(listing2 as nat);
    lemma_cut_at_first_mark(number1, users1, number2, users2, ':');
    lemma_decimal_injective(listing1 as nat, listing2 as nat);
    lemma_cut_at_only_mark(x1, y1, x2, y2, ':');
}

/// Where every listed conversation is stored, the conversations listed are
/// the stored ones under the listed identifiers, one for one.
pub proof fn lemma_conversations_listed_all(
    conversations: Map<Seq<char>, ConversationView>,
    ids: Seq<Seq<char>>,
)
    requires
        forall|i: int| 0 <= i < ids.len() ==> conversations.contains_key(#[trigger] ids[i]),
    ensures
        conversations_listed(conversations, ids).len() == ids.len(),
        forall|i: int|
            0 <= i < ids.len() ==> (#[trigger] conversations_listed(conversations, ids)[i])
                == conversations[ids[i]],
    decreases ids.len(),
{
    if ids.len() > 0 {
        let front = ids.drop_last();
        assert forall|i: int| 0 <= i < front.len() implies conversations.contains_key(
            #[trigger] front[i],
        ) by {
            assert(front[i] == ids[i]);
        }
        lemma_conversations_listed_all(conversations, front);
        assert(conversations.contains_key(ids[ids.len() - 1]));
    }
}

/// In a coherent store the conversations of a user are the stored
/// conversations that the user takes part in: each of them, and no other.
pub proof fn theorem_conversations_of_participant(store: ChatStoreView, user: Seq<char>)
    requires
        store.coherent(),
    ensures
        forall|i: int|
            0 <= i < store.conversations_of(user).len() ==> (#[trigger] store.conversations_of(
                user,
            )[i]).participants.contains(user),
        forall|id: Seq<char>|
            store.conversations.contains_key(id) && store.conversations[id].participants.contains(
                user,
            ) ==> store.conversations_of(user).contains(#[trigger] store.conversations[id]),
{
    if store.user_conversations.contains_key(user) {
        let ids = store.user_conversations[user];
        assert forall|i: int| 0 <= i < ids.len() implies store.conversations.contains_key(
            #[trigger] ids[i],
        ) by {
            assert(store.conversations.contains_key(store.user_conversations[user][i]));
        }
        lemma_conversations_listed_all(store.conversations, ids);
        let found = store.conversations_of(user);
        assert forall|i: int| 0 <= i < found.len() implies (#[trigger] found[i]).participants.contains(
            user,
        ) by {
            assert(store.conversations[store.user_conversations[user][i]].participants.contains(
                user,
            ));
        }
        assert forall|id: Seq<char>|
            store.conversations.contains_key(id) && store.conversations[id].participants.contains(
                user,
            ) implies found.contains(#[trigger] store.conversations[id]) by {
            assert(ids.contains(id));
            let i = choose|i: int| 0 <= i < ids.len() && ids[i] == id;
            assert(found[i] == store.conversations[id]);
        }
    } else {
        assert forall|id: Seq<char>|
            store.conversations.contains_key(id) && store.conversations[id].participants.contains(
                user,
            ) implies store.conversations_of(user).contains(#[trigger] store.conversations[id]) by {
            assert(store.user_conversations.contains_key(user));
        }
    }
}

} // verus!
