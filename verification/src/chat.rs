//! Conversations between two users about a listing: messages, unread
//! counters, typing flags, and the store that finds a conversation again.

use crate::coherence::{
    key_of, lemma_change_keeps_coherent, lemma_get_or_create_keeps_coherent,
    theorem_conversations_of_participant, theorem_key_tells_listing_and_users,
};
use crate::string_map::StringMap;
use crate::text::{
    decimal, decimal_string, holds_no, lemma_occurrences_front, lemma_occurrences_step,
    lemma_occurrences_zero, occurrences, precedes, str_equal, str_precedes, texts,
};
use vstd::prelude::*;
use vstd::string::*;

verus! {

/// One message of a conversation.
#[derive(Debug)]
pub struct Message {
    pub id: String,
    pub sender_id: String,
    pub content: String,
    /// "text", "image", and so on.
    pub message_type: String,
    pub timestamp: u64,
    pub read: bool,
}

/// What a `Message` stands for.
pub struct MessageView {
    pub id: Seq<char>,
    pub sender_id: Seq<char>,
    pub content: Seq<char>,
    pub message_type: Seq<char>,
    pub timestamp: u64,
    pub read: bool,
}

impl View for Message {
    type V = MessageView;

    open spec fn view(&self) -> MessageView {
        MessageView {
            id: self.id@,
            sender_id: self.sender_id@,
            content: self.content@,
            message_type: self.message_type@,
            timestamp: self.timestamp,
            read: self.read,
        }
    }
}

/// The identifier of a message: its sender, a dash, and the time it was sent
/// in decimal.
pub open spec fn message_id(sender_id: Seq<char>, timestamp: u64) -> Seq<char> {
    sender_id + "-"@ + decimal(timestamp as nat)
}

impl MessageView {
    /// A message as it is when sent: not yet read.
    pub open spec fn sent(
        sender_id: Seq<char>,
        content: Seq<char>,
        message_type: Seq<char>,
        timestamp: u64,
    ) -> MessageView {
        MessageView {
            id: message_id(sender_id, timestamp),
            sender_id,
            content,
            message_type,
            timestamp,
            read: false,
        }
    }

    /// The message after `reader` has read the conversation: flagged read
    /// unless `reader` wrote it.
    pub open spec fn seen_by(self, reader: Seq<char>) -> MessageView {
        if self.sender_id != reader {
            MessageView { read: true, ..self }
        } else {
            self
        }
    }
}

impl Clone for Message {
    fn clone(&self) -> (copy: Self)
        ensures
            copy == *self,
    {
        Message {
            id: self.id.clone(),
            sender_id: self.sender_id.clone(),
            content: self.content.clone(),
            message_type: self.message_type.clone(),
            timestamp: self.timestamp,
            read: self.read,
        }
    }
}

impl Message {
    /// A message from `sender_id`, sent at `timestamp`.
    pub fn new(sender_id: String, content: String, message_type: String, timestamp: u64) -> (message:
        Self)
        ensures
            message@ == MessageView::sent(sender_id@, content@, message_type@, timestamp),
    {
        let mut id = sender_id.clone();
        id.append("-");
        id.append(decimal_string(timestamp).as_str());
        Message { id, sender_id, content, message_type, timestamp, read: false }
    }
}

/// A conversation about one listing.
#[derive(Debug)]
pub struct Conversation {
    pub id: String,
    pub participants: Vec<String>,
    pub listing_id: u64,
    pub listing_title: String,
    pub messages: Vec<Message>,
    pub created_at: u64,
    pub last_message_time: Option<u64>,
    /// For each user, the number of messages that came in since the user
    /// last read the conversation.
    pub unread_counts: StringMap<u32>,
    /// The users who are typing; a user who is not has no entry.
    pub typing_users: StringMap<bool>,
}

/// What a `Conversation` stands for.
pub struct ConversationView {
    pub id: Seq<char>,
    pub participants: Seq<Seq<char>>,
    pub listing_id: u64,
    pub listing_title: Seq<char>,
    pub messages: Seq<MessageView>,
    pub created_at: u64,
    pub last_message_time: Option<u64>,
    pub unread_counts: Map<Seq<char>, nat>,
    pub typing_users: Map<Seq<char>, bool>,
}

/// The views of a list of messages, in order.
pub open spec fn message_views(list: Seq<Message>) -> Seq<MessageView> {
    list.map_values(|m: Message| m@)
}

/// Stored counters as natural numbers.
pub open spec fn counters(counts: Map<Seq<char>, u32>) -> Map<Seq<char>, nat> {
    Map::new(|u: Seq<char>| counts.contains_key(u), |u: Seq<char>| counts[u] as nat)
}

impl View for Conversation {
    type V = ConversationView;

    open spec fn view(&self) -> ConversationView {
        ConversationView {
            id: self.id@,
            participants: texts(self.participants@),
            listing_id: self.listing_id,
            listing_title: self.listing_title@,
            messages: message_views(self.messages@),
            created_at: self.created_at,
            last_message_time: self.last_message_time,
            unread_counts: counters(self.unread_counts@),
            typing_users: self.typing_users@,
        }
    }
}

/// The identifier of a conversation: "conv-", the listing's number, a dash,
/// and the time of creation, both in decimal.
pub open spec fn conversation_id(listing_id: u64, timestamp: u64) -> Seq<char> {
    "conv-"@ + decimal(listing_id as nat) + "-"@ + decimal(timestamp as nat)
}

/// The counter that `counts` holds for `user`; zero where it holds none.
pub open spec fn unread_of(counts: Map<Seq<char>, nat>, user: Seq<char>) -> nat {
    if counts.contains_key(user) {
        counts[user]
    } else {
        0
    }
}

/// The counters after a message from `sender`: every entry of `participants`
/// other than `sender` adds one to that participant's counter.
pub open spec fn counters_after_message(
    counts: Map<Seq<char>, nat>,
    participants: Seq<Seq<char>>,
    sender: Seq<char>,
) -> Map<Seq<char>, nat> {
    Map::new(
        |u: Seq<char>| counts.contains_key(u) || (u != sender && participants.contains(u)),
        |u: Seq<char>|
            if u != sender {
                unread_of(counts, u) + occurrences(participants, u)
            } else {
                unread_of(counts, u)
            },
    )
}

/// Whether every counter that a message from `sender` raises stays within
/// 32 bits.
pub open spec fn counters_have_room(
    counts: Map<Seq<char>, nat>,
    participants: Seq<Seq<char>>,
    sender: Seq<char>,
) -> bool {
    forall|u: Seq<char>|
        u != sender && participants.contains(u) ==> unread_of(counts, u) + #[trigger] occurrences(
            participants,
            u,
        ) <= u32::MAX
}

impl ConversationView {
    /// A conversation as it is when created at `timestamp`: no messages, a
    /// counter of zero for each participant, nobody typing.
    pub open spec fn created(
        listing_id: u64,
        listing_title: Seq<char>,
        participants: Seq<Seq<char>>,
        timestamp: u64,
    ) -> ConversationView {
        ConversationView {
            id: conversation_id(listing_id, timestamp),
            participants,
            listing_id,
            listing_title,
            messages: Seq::empty(),
            created_at: timestamp,
            last_message_time: None,
            unread_counts: Map::new(|u: Seq<char>| participants.contains(u), |u: Seq<char>| 0nat),
            typing_users: Map::empty(),
        }
    }

    /// The number of messages that `user` has not read; zero for a user
    /// without a counter.
    pub open spec fn unread(self, user: Seq<char>) -> nat {
        unread_of(self.unread_counts, user)
    }

    /// Whether a message from `sender` can be added without a counter
    /// leaving 32 bits.
    pub open spec fn has_room(self, sender: Seq<char>) -> bool {
        counters_have_room(self.unread_counts, self.participants, sender)
    }

    /// The conversation after `message` was appended.
    pub open spec fn add_message(self, message: MessageView) -> ConversationView {
        ConversationView {
            unread_counts: counters_after_message(
                self.unread_counts,
                self.participants,
                message.sender_id,
            ),
            last_message_time: Some(message.timestamp),
            messages: self.messages.push(message),
            ..self
        }
    }

    /// The conversation after `user` has read it: the user's counter is zero
    /// and every message that the user did not write is flagged read.
    pub open spec fn mark_as_read(self, user: Seq<char>) -> ConversationView {
        ConversationView {
            unread_counts: self.unread_counts.insert(user, 0),
            messages: self.messages.map_values(|m: MessageView| m.seen_by(user)),
            ..self
        }
    }

    /// The conversation after `user` started or stopped typing.
    pub open spec fn set_typing_status(self, user: Seq<char>, is_typing: bool) -> ConversationView {
        ConversationView {
            typing_users: if is_typing {
                self.typing_users.insert(user, true)
            } else {
                self.typing_users.remove(user)
            },
            ..self
        }
    }
}

impl Conversation {
    /// A conversation between `participants` about a listing, created at
    /// `timestamp`.
    pub fn new(
        listing_id: u64,
        listing_title: String,
        participants: Vec<String>,
        timestamp: u64,
    ) -> (conversation: Self)
        ensures
            conversation@ == ConversationView::created(
                listing_id,
                listing_title@,
                texts(participants@),
                timestamp,
            ),
    {
        let mut id = String::from_str("conv-");
        id.append(decimal_string(listing_id).as_str());
        id.append("-");
        id.append(decimal_string(timestamp).as_str());

        let ghost people = texts(participants@);
        let mut unread_counts: StringMap<u32> = StringMap::new();
        let mut i: usize = 0;
        while i < participants.len()
            invariant
                i <= participants.len(),
                people == texts(participants@),
                unread_counts@ == Map::new(
                    |u: Seq<char>| people.take(i as int).contains(u),
                    |u: Seq<char>| 0u32,
                ),
            decreases participants.len() - i,
        {
            unread_counts.insert(participants[i].clone(), 0);
            proof {
                let front = people.take(i as int);
                let next = people.take(i + 1);
                assert forall|u: Seq<char>| next.contains(u) <==> (front.contains(u) || u
                    == people[i as int]) by {
                    assert(next[i as int] == people[i as int]);
                }
            }
            i += 1;
        }
        assert(people.take(i as int) =~= people);
        let conversation = Conversation {
            id,
            participants,
            listing_id,
            listing_title,
            messages: Vec::new(),
            created_at: timestamp,
            last_message_time: None,
            unread_counts,
            typing_users: StringMap::new(),
        };
        proof {
            let target = ConversationView::created(listing_id, listing_title@, people, timestamp);
            assert(conversation@.unread_counts =~= target.unread_counts);
            assert(conversation@.messages =~= target.messages);
        }
        conversation
    }

    /// Appends `message` and counts it as unread for every participant but
    /// its sender.
    pub fn add_message(&mut self, message: Message)
        requires
            old(self)@.has_room(message@.sender_id),
        ensures
            final(self)@ == old(self)@.add_message(message@),
    {
        let mut counts: StringMap<u32> = StringMap::new();
        std::mem::swap(&mut counts, &mut self.unread_counts);
        let ghost start = counters(counts@);
        let ghost people = texts(self.participants@);
        let ghost sender = message.sender_id@;
        let mut i: usize = 0;
        while i < self.participants.len()
            invariant
                i <= self.participants.len(),
                people == texts(self.participants@),
                sender == message.sender_id@,
                counters_have_room(start, people, sender),
                counters(counts@) == counters_after_message(start, people.take(i as int), sender),
            decreases self.participants.len() - i,
        {
            let participant = &self.participants[i];
            let ghost p = people[i as int];
            let ghost front = people.take(i as int);
            let ghost next = people.take(i + 1);
            let ghost before = counts@;
            proof {
                assert forall|u: Seq<char>|
                    occurrences(next, u) == occurrences(front, u) + if p == u {
                        1nat
                    } else {
                        0nat
                    } by {
                    lemma_occurrences_step(people, i as int, u);
                }
                assert forall|u: Seq<char>| front.contains(u) <==> occurrences(front, u) > 0 by {
                    lemma_occurrences_zero(front, u);
                }
            }
            let ghost reached = counters_after_message(start, front, sender);
            let ghost target = counters_after_message(start, next, sender);
            if !str_equal(participant.as_str(), message.sender_id.as_str()) {
                let count: u32 = match counts.get(participant.as_str()) {
                    Some(c) => *c,
                    None => 0,
                };
                proof {
                    lemma_occurrences_front(people, i + 1, p);
                    assert(counters(before).contains_key(p) == reached.contains_key(p));
                    if before.contains_key(p) {
                        assert(counters(before)[p] == reached[p]);
                    }
                }
                counts.insert(participant.clone(), count + 1);
                proof {
                    let after = counters(counts@);
                    assert forall|u: Seq<char>| after.contains_key(u) <==> target.contains_key(
                        u,
                    ) by {
                        assert(counters(before).contains_key(u) == reached.contains_key(u));
                    }
                    assert forall|u: Seq<char>| after.contains_key(u) implies after[u]
                        == target[u] by {
                        if u != p {
                            assert(counters(before)[u] == reached[u]);
                        }
                    }
                }
            }
            i += 1;
        }
        assert(people.take(i as int) =~= people);
        self.unread_counts = counts;
        self.last_message_time = Some(message.timestamp);
        self.messages.push(message);
        proof {
            let target = old(self)@.add_message(message@);
            assert(self@.messages =~= target.messages);
        }
    }

    /// Resets the counter of `user_id` and flags as read every message that
    /// `user_id` did not write.
    pub fn mark_as_read(&mut self, user_id: &str)
        ensures
            final(self)@ == old(self)@.mark_as_read(user_id@),
    {
        self.unread_counts.insert(user_id.to_owned(), 0);
        let mut i: usize = 0;
        while i < self.messages.len()
            invariant
                i <= self.messages.len(),
                self.messages.len() == old(self).messages.len(),
                self.id == old(self).id,
                self.participants == old(self).participants,
                self.listing_id == old(self).listing_id,
                self.listing_title == old(self).listing_title,
                self.created_at == old(self).created_at,
                self.last_message_time == old(self).last_message_time,
                self.typing_users == old(self).typing_users,
                self.unread_counts@ == old(self).unread_counts@.insert(user_id@, 0u32),
                forall|j: int|
                    0 <= j < i ==> (#[trigger] self.messages[j])@ == old(self).messages[j]@.seen_by(
                        user_id@,
                    ),
                forall|j: int|
                    i <= j < self.messages.len() ==> (#[trigger] self.messages[j]) == old(self).messages[j],
            decreases self.messages.len() - i,
        {
            if !str_equal(self.messages[i].sender_id.as_str(), user_id) {
                self.messages[i].read = true;
            }
            i += 1;
        }
        proof {
            let target = old(self)@.mark_as_read(user_id@);
            assert(self@.messages =~= target.messages);
            assert(self@.unread_counts =~= target.unread_counts);
        }
    }

    /// Tells whether `user_id` takes part in the conversation.
    pub fn has_participant(&self, user_id: &str) -> (found: bool)
        ensures
            found == self@.participants.contains(user_id@),
    {
        let mut i: usize = 0;
        while i < self.participants.len()
            invariant
                i <= self.participants.len(),
                forall|j: int| 0 <= j < i ==> texts(self.participants@)[j] != user_id@,
            decreases self.participants.len() - i,
        {
            if str_equal(self.participants[i].as_str(), user_id) {
                assert(texts(self.participants@)[i as int] == user_id@);
                return true;
            }
            i += 1;
        }
        false
    }

    /// Tells whether a message from `sender_id` can be added without a
    /// counter leaving 32 bits.
    pub fn has_room(&self, sender_id: &str) -> (ok: bool)
        ensures
            ok == self@.has_room(sender_id@),
    {
        let ghost people = texts(self.participants@);
        let ghost counts = counters(self.unread_counts@);
        let mut i: usize = 0;
        while i < self.participants.len()
            invariant
                i <= self.participants.len(),
                people == texts(self.participants@),
                counts == counters(self.unread_counts@),
                forall|j: int|
                    0 <= j < i && people[j] != sender_id@ ==> unread_of(counts, people[j])
                        + #[trigger] occurrences(people, people[j]) <= u32::MAX,
            decreases self.participants.len() - i,
        {
            let participant = &self.participants[i];
            if !str_equal(participant.as_str(), sender_id) {
                let count: u32 = match self.unread_counts.get(participant.as_str()) {
                    Some(c) => *c,
                    None => 0,
                };
                let times = count_occurrences(&self.participants, participant.as_str());
                assert(count as nat == unread_of(counts, people[i as int]));
                if times > (u32::MAX - count) as usize {
                    return false;
                }
            }
            i += 1;
        }
        true
    }

    /// Records that `user_id` is typing, or forgets that it was.
    pub fn set_typing_status(&mut self, user_id: &str, is_typing: bool)
        ensures
            final(self)@ == old(self)@.set_typing_status(user_id@, is_typing),
    {
        if is_typing {
            self.typing_users.insert(user_id.to_owned(), true);
        } else {
            self.typing_users.remove(user_id);
        }
    }
}

/// Counts how many times `text` stands in `list`.
fn count_occurrences(list: &Vec<String>, text: &str) -> (times: usize)
    ensures
        times == occurrences(texts(list@), text@),
{
    let ghost all = texts(list@);
    let mut times: usize = 0;
    let mut i: usize = 0;
    while i < list.len()
        invariant
            i <= list.len(),
            all == texts(list@),
            times <= i,
            times == occurrences(all.take(i as int), text@),
        decreases list.len() - i,
    {
        proof {
            lemma_occurrences_step(all, i as int, text@);
        }
        if str_equal(list[i].as_str(), text) {
            times += 1;
        }
        i += 1;
    }
    assert(all.take(i as int) =~= all);
    times
}

impl Clone for Conversation {
    /// A copy that stands for the same conversation.
    fn clone(&self) -> (copy: Self)
        ensures
            copy@ == self@,
    {
        let copy = Conversation {
            id: self.id.clone(),
            participants: self.participants.clone(),
            listing_id: self.listing_id,
            listing_title: self.listing_title.clone(),
            messages: self.messages.clone(),
            created_at: self.created_at,
            last_message_time: self.last_message_time,
            unread_counts: self.unread_counts.clone(),
            typing_users: self.typing_users.clone(),
        };
        proof {
            assert(copy.unread_counts@ =~= self.unread_counts@);
            assert(copy.typing_users@ =~= self.typing_users@);
        }
        copy
    }
}

/// A frame that carries one chat event to a client.
#[derive(Debug)]
pub struct WSMessage {
    pub message_type: String,
    pub conversation_id: String,
    pub data: String,
}

/// What a `WSMessage` stands for.
pub struct WSMessageView {
    pub message_type: Seq<char>,
    pub conversation_id: Seq<char>,
    pub data: Seq<char>,
}

impl View for WSMessage {
    type V = WSMessageView;

    open spec fn view(&self) -> WSMessageView {
        WSMessageView {
            message_type: self.message_type@,
            conversation_id: self.conversation_id@,
            data: self.data@,
        }
    }
}

impl Clone for WSMessage {
    fn clone(&self) -> (copy: Self)
        ensures
            copy == *self,
    {
        WSMessage {
            message_type: self.message_type.clone(),
            conversation_id: self.conversation_id.clone(),
            data: self.data.clone(),
        }
    }
}

/// The typing state of one user in one conversation.
#[derive(Debug)]
pub struct TypingStatus {
    pub conversation_id: String,
    pub user_id: String,
    pub is_typing: bool,
}

/// What a `TypingStatus` stands for.
pub struct TypingStatusView {
    pub conversation_id: Seq<char>,
    pub user_id: Seq<char>,
    pub is_typing: bool,
}

impl View for TypingStatus {
    type V = TypingStatusView;

    open spec fn view(&self) -> TypingStatusView {
        TypingStatusView {
            conversation_id: self.conversation_id@,
            user_id: self.user_id@,
            is_typing: self.is_typing,
        }
    }
}

impl Clone for TypingStatus {
    fn clone(&self) -> (copy: Self)
        ensures
            copy == *self,
    {
        TypingStatus {
            conversation_id: self.conversation_id.clone(),
            user_id: self.user_id.clone(),
            is_typing: self.is_typing,
        }
    }
}

/// The key under which the conversation of two users about a listing is
/// found again: the listing's number in decimal, then the two users, the one
/// that `precedes` the other first, with colons between.
pub open spec fn conversation_key(listing_id: u64, user1: Seq<char>, user2: Seq<char>) -> Seq<
    char,
> {
    if precedes(user1, user2) {
        decimal(listing_id as nat) + ":"@ + user1 + ":"@ + user2
    } else {
        decimal(listing_id as nat) + ":"@ + user2 + ":"@ + user1
    }
}

/// Derives the key of the conversation of `user1` and `user2` about a
/// listing. The order of the two users does not matter.
pub fn get_conversation_key(listing_id: u64, user1: &str, user2: &str) -> (key: String)
    ensures
        key@ == conversation_key(listing_id, user1@, user2@),
{
    let mut key = decimal_string(listing_id);
    key.append(":");
    if str_precedes(user1, user2) {
        key.append(user1);
        key.append(":");
        key.append(user2);
    } else {
        key.append(user2);
        key.append(":");
        key.append(user1);
    }
    key
}

/// All conversations, with two indexes: from a user to the conversations the
/// user takes part in, and from a conversation key to the conversation.
#[derive(Debug)]
pub struct ChatStore {
    pub conversations: StringMap<Conversation>,
    pub user_conversations: StringMap<Vec<String>>,
    pub conversation_keys: StringMap<String>,
}

/// What a `ChatStore` stands for.
pub struct ChatStoreView {
    pub conversations: Map<Seq<char>, ConversationView>,
    pub user_conversations: Map<Seq<char>, Seq<Seq<char>>>,
    pub conversation_keys: Map<Seq<char>, Seq<char>>,
}

impl View for ChatStore {
    type V = ChatStoreView;

    open spec fn view(&self) -> ChatStoreView {
        ChatStoreView {
            conversations: Map::new(
                |id: Seq<char>| self.conversations@.contains_key(id),
                |id: Seq<char>| self.conversations@[id]@,
            ),
            user_conversations: Map::new(
                |user: Seq<char>| self.user_conversations@.contains_key(user),
                |user: Seq<char>| texts(self.user_conversations@[user]@),
            ),
            conversation_keys: Map::new(
                |key: Seq<char>| self.conversation_keys@.contains_key(key),
                |key: Seq<char>| self.conversation_keys@[key]@,
            ),
        }
    }
}

/// The index after `conversation` was listed for `user`, behind what was
/// listed before.
pub open spec fn listed(
    index: Map<Seq<char>, Seq<Seq<char>>>,
    user: Seq<char>,
    conversation: Seq<char>,
) -> Map<Seq<char>, Seq<Seq<char>>> {
    if index.contains_key(user) {
        index.insert(user, index[user].push(conversation))
    } else {
        index.insert(user, seq![conversation])
    }
}

/// Those of `ids` under which `conversations` holds a conversation, each
/// replaced by that conversation, in order.
pub open spec fn conversations_listed(
    conversations: Map<Seq<char>, ConversationView>,
    ids: Seq<Seq<char>>,
) -> Seq<ConversationView>
    decreases ids.len(),
{
    if ids.len() == 0 {
        Seq::empty()
    } else if conversations.contains_key(ids.last()) {
        conversations_listed(conversations, ids.drop_last()).push(conversations[ids.last()])
    } else {
        conversations_listed(conversations, ids.drop_last())
    }
}

/// The text of the error for a conversation that the store does not hold.
pub open spec fn conversation_not_found() -> Seq<char> {
    "Conversation not found"@
}

/// The text of the error for a user who does not take part in a
/// conversation.
pub open spec fn not_a_participant() -> Seq<char> {
    "Not a participant in this conversation"@
}

impl ChatStoreView {
    /// A store without conversations.
    pub open spec fn empty() -> ChatStoreView {
        ChatStoreView {
            conversations: Map::empty(),
            user_conversations: Map::empty(),
            conversation_keys: Map::empty(),
        }
    }

    /// Every key leads to a stored conversation, and every conversation is
    /// stored under its own identifier.
    pub open spec fn wf(self) -> bool {
        &&& forall|key: Seq<char>| #[trigger]
            self.conversation_keys.contains_key(key) ==> self.conversations.contains_key(
                self.conversation_keys[key],
            )
        &&& forall|id: Seq<char>| #[trigger]
            self.conversations.contains_key(id) ==> self.conversations[id].id == id
    }

    /// The store with `conversation` in the place of the one stored under
    /// `id`.
    pub open spec fn with_conversation(
        self,
        id: Seq<char>,
        conversation: ConversationView,
    ) -> ChatStoreView {
        ChatStoreView { conversations: self.conversations.insert(id, conversation), ..self }
    }

    /// The store and the conversation that come of asking for the
    /// conversation of `user1` and `user2` about a listing at `timestamp`:
    /// the one found under their key, or else a new one that is stored,
    /// filed under their key and listed for both users.
    pub open spec fn get_or_create(
        self,
        listing_id: u64,
        listing_title: Seq<char>,
        user1: Seq<char>,
        user2: Seq<char>,
        timestamp: u64,
    ) -> (ChatStoreView, ConversationView) {
        let key = conversation_key(listing_id, user1, user2);
        if self.conversation_keys.contains_key(key) {
            (self, self.conversations[self.conversation_keys[key]])
        } else {
            let conversation = ConversationView::created(
                listing_id,
                listing_title,
                seq![user1, user2],
                timestamp,
            );
            (
                ChatStoreView {
                    conversations: self.conversations.insert(conversation.id, conversation),
                    user_conversations: listed(
                        listed(self.user_conversations, user1, conversation.id),
                        user2,
                        conversation.id,
                    ),
                    conversation_keys: self.conversation_keys.insert(key, conversation.id),
                },
                conversation,
            )
        }
    }

    /// The conversations listed for `user` that the store holds, in the
    /// order in which they were listed.
    pub open spec fn conversations_of(self, user: Seq<char>) -> Seq<ConversationView> {
        if self.user_conversations.contains_key(user) {
            conversations_listed(self.conversations, self.user_conversations[user])
        } else {
            Seq::empty()
        }
    }

    /// What comes of a chat message from `sender` for the conversation
    /// stored under `id`, sent at `timestamp`: the message is appended as a
    /// text message, unless the conversation is unknown or `sender` takes no
    /// part in it.
    pub open spec fn receive_chat_message(
        self,
        id: Seq<char>,
        sender: Seq<char>,
        content: Seq<char>,
        timestamp: u64,
    ) -> Result<(ChatStoreView, MessageView), Seq<char>> {
        if !self.conversations.contains_key(id) {
            Err(conversation_not_found())
        } else if !self.conversations[id].participants.contains(sender) {
            Err(not_a_participant())
        } else {
            let message = MessageView::sent(sender, content, "text"@, timestamp);
            Ok((self.with_conversation(id, self.conversations[id].add_message(message)), message))
        }
    }

    /// Whether a message from `sender` can be added to the conversation
    /// stored under `id`, if there is one, without a counter leaving 32
    /// bits.
    pub open spec fn has_room(self, id: Seq<char>, sender: Seq<char>) -> bool {
        self.conversations.contains_key(id) ==> self.conversations[id].has_room(sender)
    }

    /// The participants of the conversation stored under `id`; none where
    /// there is no such conversation.
    pub open spec fn participants_of(self, id: Seq<char>) -> Seq<Seq<char>> {
        if self.conversations.contains_key(id) {
            self.conversations[id].participants
        } else {
            Seq::empty()
        }
    }
}

/// The views of a list of conversations, in order.
pub open spec fn conversation_views(list: Seq<Conversation>) -> Seq<ConversationView> {
    list.map_values(|c: Conversation| c@)
}

/// Lists `conversation_id` for `user`, behind what was listed before.
fn list_conversation(index: &mut StringMap<Vec<String>>, user: String, conversation_id: String)
    ensures
        Map::new(
            |u: Seq<char>| final(index)@.contains_key(u),
            |u: Seq<char>| texts(final(index)@[u]@),
        ) == listed(
            Map::new(
                |u: Seq<char>| old(index)@.contains_key(u),
                |u: Seq<char>| texts(old(index)@[u]@),
            ),
            user@,
            conversation_id@,
        ),
{
    let ghost start = Map::new(
        |u: Seq<char>| old(index)@.contains_key(u),
        |u: Seq<char>| texts(old(index)@[u]@),
    );
    let mut list = match index.remove(user.as_str()) {
        Some(list) => list,
        None => Vec::new(),
    };
    list.push(conversation_id);
    index.insert(user, list);
    proof {
        let after = Map::new(
            |u: Seq<char>| index@.contains_key(u),
            |u: Seq<char>| texts(index@[u]@),
        );
        let target = listed(start, user@, conversation_id@);
        assert forall|u: Seq<char>| after.contains_key(u) implies after[u] == target[u] by {}
    }
}

impl ChatStore {
    /// Tells whether a message from `sender_id` can be added to the
    /// conversation stored under `conversation_id`, if there is one, without
    /// a counter leaving 32 bits.
    pub fn has_room(&self, conversation_id: &str, sender_id: &str) -> (ok: bool)
        ensures
            ok == self@.has_room(conversation_id@, sender_id@),
    {
        match self.conversations.get(conversation_id) {
            Some(conversation) => conversation.has_room(sender_id),
            None => true,
        }
    }

    /// Tells whether the store is well-formed: every key leads to a stored
    /// conversation, and every conversation is stored under its own
    /// identifier.
    pub fn is_well_formed(&self) -> (ok: bool)
        ensures
            ok == self@.wf(),
    {
        let keys = self.conversation_keys.len();
        let ghost key_order = self.conversation_keys.key_order();
        let mut i: usize = 0;
        while i < keys
            invariant
                i <= keys,
                keys == key_order.len(),
                key_order == self.conversation_keys.key_order(),
                forall|k: Seq<char>|
                    key_order.contains(k) <==> self.conversation_keys@.contains_key(k),
                forall|j: int|
                    0 <= j < i ==> self@.conversations.contains_key(
                        #[trigger] self@.conversation_keys[key_order[j]],
                    ),
            decreases keys - i,
        {
            let id = self.conversation_keys.value_at(i);
            if !self.conversations.contains_key(id.as_str()) {
                assert(self@.conversation_keys.contains_key(key_order[i as int]));
                return false;
            }
            i += 1;
        }
        let stored = self.conversations.len();
        let ghost id_order = self.conversations.key_order();
        let mut j: usize = 0;
        while j < stored
            invariant
                j <= stored,
                stored == id_order.len(),
                id_order == self.conversations.key_order(),
                forall|k: Seq<char>| id_order.contains(k) <==> self.conversations@.contains_key(k),
                forall|k: int|
                    0 <= k < j ==> (#[trigger] self@.conversations[id_order[k]]).id == id_order[k],
            decreases stored - j,
        {
            let id = self.conversations.key_at(j);
            let conversation = self.conversations.value_at(j);
            if !str_equal(conversation.id.as_str(), id.as_str()) {
                assert(self@.conversations.contains_key(id_order[j as int]));
                return false;
            }
            j += 1;
        }
        proof {
            assert forall|key: Seq<char>| #[trigger]
                self@.conversation_keys.contains_key(key) implies self@.conversations.contains_key(
                self@.conversation_keys[key],
            ) by {
                assert(key_order.contains(key));
            }
            assert forall|id: Seq<char>| #[trigger]
                self@.conversations.contains_key(id) implies self@.conversations[id].id == id by {
                assert(id_order.contains(id));
            }
        }
        true
    }

    /// A store without conversations.
    pub fn new() -> (store: Self)
        ensures
            store@ == ChatStoreView::empty(),
            store@.wf(),
            store@.coherent(),
    {
        let store = ChatStore {
            conversations: StringMap::new(),
            user_conversations: StringMap::new(),
            conversation_keys: StringMap::new(),
        };
        assert(store@.conversations =~= Map::<Seq<char>, ConversationView>::empty());
        assert(store@.user_conversations =~= Map::<Seq<char>, Seq<Seq<char>>>::empty());
        assert(store@.conversation_keys =~= Map::<Seq<char>, Seq<char>>::empty());
        store
    }
}

/// Hands out the conversation of `user1` and `user2` about a listing. The
/// first call for a pair creates it, stamped with `timestamp`; later calls,
/// with the users in either order, find it again.
pub fn get_or_create_conversation(
    store: &mut ChatStore,
    listing_id: u64,
    listing_title: String,
    user1: String,
    user2: String,
    timestamp: u64,
) -> (conversation: Conversation)
    requires
        old(store)@.wf(),
    ensures
        final(store)@.wf(),
        final(store)@ == old(store)@.get_or_create(
            listing_id,
            listing_title@,
            user1@,
            user2@,
            timestamp,
        ).0,
        conversation@ == old(store)@.get_or_create(
            listing_id,
            listing_title@,
            user1@,
            user2@,
            timestamp,
        ).1,
        old(store)@.coherent() ==> conversation@.participants.len() == 2 && key_of(conversation@)
            == conversation_key(listing_id, user1@, user2@),
        old(store)@.coherent() && holds_no(user1@, ':') && holds_no(user2@, ':') ==> {
            &&& conversation@.listing_id == listing_id
            &&& conversation@.participants == seq![user1@, user2@] || conversation@.participants
                == seq![user2@, user1@]
        },
        old(store)@.coherent() && !old(store)@.would_overwrite(
            listing_id,
            user1@,
            user2@,
            timestamp,
        ) ==> final(store)@.coherent(),
{
    proof {
        if old(store)@.coherent() && !old(store)@.would_overwrite(
            listing_id,
            user1@,
            user2@,
            timestamp,
        ) {
            lemma_get_or_create_keeps_coherent(
                old(store)@,
                listing_id,
                listing_title@,
                user1@,
                user2@,
                timestamp,
            );
        }
        if old(store)@.coherent() && holds_no(user1@, ':') && holds_no(user2@, ':') {
            let found = old(store)@.get_or_create(
                listing_id,
                listing_title@,
                user1@,
                user2@,
                timestamp,
            ).1;
            if old(store)@.conversation_keys.contains_key(
                conversation_key(listing_id, user1@, user2@),
            ) {
                theorem_key_tells_listing_and_users(
                    found.listing_id,
                    found.participants[0],
                    found.participants[1],
                    listing_id,
                    user1@,
                    user2@,
                );
                assert(found.participants =~= seq![found.participants[0], found.participants[1]]);
            }
        }
    }
    let key = get_conversation_key(listing_id, user1.as_str(), user2.as_str());
    let existing = match store.conversation_keys.get(key.as_str()) {
        Some(id) => Some(id.clone()),
        None => None,
    };
    match existing {
        Some(conversation_id) => {
            assert(store@.conversation_keys.contains_key(key@));
            assert(store@.conversations.contains_key(conversation_id@));
            let found = store.conversations.get(conversation_id.as_str());
            found.unwrap().clone()
        },
        None => {
            let mut participants: Vec<String> = Vec::new();
            participants.push(user1.clone());
            participants.push(user2.clone());
            assert(texts(participants@) =~= seq![user1@, user2@]);
            let conversation = Conversation::new(
                listing_id,
                listing_title,
                participants,
                timestamp,
            );
            let conversation_id = conversation.id.clone();
            store.conversations.insert(conversation_id.clone(), conversation.clone());
            store.conversation_keys.insert(key, conversation_id.clone());
            list_conversation(&mut store.user_conversations, user1, conversation_id.clone());
            list_conversation(&mut store.user_conversations, user2, conversation_id);
            proof {
                let target = old(store)@.get_or_create(
                    listing_id,
                    listing_title@,
                    user1@,
                    user2@,
                    timestamp,
                ).0;
                assert(store@.conversations =~= target.conversations);
                assert(store@.conversation_keys =~= target.conversation_keys);
            }
            conversation
        },
    }
}

/// Appends `message` to the conversation stored under `conversation_id`.
pub fn add_message_to_conversation(
    store: &mut ChatStore,
    conversation_id: &str,
    message: Message,
) -> (result: Result<(), String>)
    requires
        old(store)@.has_room(conversation_id@, message@.sender_id),
    ensures
        match result {
            Ok(_) => old(store)@.conversations.contains_key(conversation_id@) && final(store)@
                == old(store)@.with_conversation(
                conversation_id@,
                old(store)@.conversations[conversation_id@].add_message(message@),
            ),
            Err(error) => !old(store)@.conversations.contains_key(conversation_id@)
                && final(store)@ == old(store)@ && error@ == conversation_not_found(),
        },
        old(store)@.wf() ==> final(store)@.wf(),
        old(store)@.coherent() ==> final(store)@.coherent(),
{
    match store.conversations.remove(conversation_id) {
        Some(mut conversation) => {
            conversation.add_message(message);
            store.conversations.insert(conversation_id.to_owned(), conversation);
            proof {
                let target = old(store)@.with_conversation(
                    conversation_id@,
                    old(store)@.conversations[conversation_id@].add_message(message@),
                );
                assert(store@.conversations =~= target.conversations);
                if old(store)@.coherent() {
                    lemma_change_keeps_coherent(
                        old(store)@,
                        conversation_id@,
                        target.conversations[conversation_id@],
                    );
                }
            }
            Ok(())
        },
        None => {
            proof {
                assert(store@.conversations =~= old(store)@.conversations);
            }
            Err("Conversation not found".to_owned())
        },
    }
}

/// Copies of the conversations that `user_id` takes part in.
pub fn get_user_conversations(store: &ChatStore, user_id: &str) -> (found: Vec<Conversation>)
    ensures
        conversation_views(found@) == store@.conversations_of(user_id@),
        store@.coherent() ==> forall|i: int|
            0 <= i < found.len() ==> (#[trigger] conversation_views(
                found@,
            )[i]).participants.contains(user_id@),
        store@.coherent() ==> forall|id: Seq<char>|
            store@.conversations.contains_key(id) && store@.conversations[id].participants.contains(
                user_id@,
            ) ==> conversation_views(found@).contains(#[trigger] store@.conversations[id]),
{
    proof {
        if store@.coherent() {
            theorem_conversations_of_participant(store@, user_id@);
        }
    }
    let mut found: Vec<Conversation> = Vec::new();
    match store.user_conversations.get(user_id) {
        Some(ids) => {
            let ghost listed_ids = texts(ids@);
            let mut i: usize = 0;
            while i < ids.len()
                invariant
                    i <= ids.len(),
                    listed_ids == texts(ids@),
                    conversation_views(found@) == conversations_listed(
                        store@.conversations,
                        listed_ids.take(i as int),
                    ),
                decreases ids.len() - i,
            {
                proof {
                    assert(listed_ids.take(i + 1).drop_last() =~= listed_ids.take(i as int));
                }
                match store.conversations.get(ids[i].as_str()) {
                    Some(conversation) => {
                        let copy = conversation.clone();
                        found.push(copy);
                    },
                    None => {},
                }
                i += 1;
            }
            assert(listed_ids.take(i as int) =~= listed_ids);
        },
        None => {},
    }
    found
}

/// Marks the conversation stored under `conversation_id` as read by
/// `user_id`.
pub fn mark_conversation_as_read(store: &mut ChatStore, conversation_id: &str, user_id: &str) -> (result:
    Result<(), String>)
    ensures
        match result {
            Ok(_) => old(store)@.conversations.contains_key(conversation_id@) && final(store)@
                == old(store)@.with_conversation(
                conversation_id@,
                old(store)@.conversations[conversation_id@].mark_as_read(user_id@),
            ),
            Err(error) => !old(store)@.conversations.contains_key(conversation_id@)
                && final(store)@ == old(store)@ && error@ == conversation_not_found(),
        },
        old(store)@.wf() ==> final(store)@.wf(),
        old(store)@.coherent() ==> final(store)@.coherent(),
{
    match store.conversations.remove(conversation_id) {
        Some(mut conversation) => {
            conversation.mark_as_read(user_id);
            store.conversations.insert(conversation_id.to_owned(), conversation);
            proof {
                let target = old(store)@.with_conversation(
                    conversation_id@,
                    old(store)@.conversations[conversation_id@].mark_as_read(user_id@),
                );
                assert(store@.conversations =~= target.conversations);
                if old(store)@.coherent() {
                    lemma_change_keeps_coherent(
                        old(store)@,
                        conversation_id@,
                        target.conversations[conversation_id@],
                    );
                }
            }
            Ok(())
        },
        None => {
            proof {
                assert(store@.conversations =~= old(store)@.conversations);
            }
            Err("Conversation not found".to_owned())
        },
    }
}

/// Records in the conversation stored under `conversation_id` whether
/// `user_id` is typing.
pub fn update_typing_status(
    store: &mut ChatStore,
    conversation_id: &str,
    user_id: &str,
    is_typing: bool,
) -> (result: Result<(), String>)
    ensures
        match result {
            Ok(_) => old(store)@.conversations.contains_key(conversation_id@) && final(store)@
                == old(store)@.with_conversation(
                conversation_id@,
                old(store)@.conversations[conversation_id@].set_typing_status(
                    user_id@,
                    is_typing,
                ),
            ),
            Err(error) => !old(store)@.conversations.contains_key(conversation_id@)
                && final(store)@ == old(store)@ && error@ == conversation_not_found(),
        },
        old(store)@.wf() ==> final(store)@.wf(),
        old(store)@.coherent() ==> final(store)@.coherent(),
{
    match store.conversations.remove(conversation_id) {
        Some(mut conversation) => {
            conversation.set_typing_status(user_id, is_typing);
            store.conversations.insert(conversation_id.to_owned(), conversation);
            proof {
                let target = old(store)@.with_conversation(
                    conversation_id@,
                    old(store)@.conversations[conversation_id@].set_typing_status(
                        user_id@,
                        is_typing,
                    ),
                );
                assert(store@.conversations =~= target.conversations);
                if old(store)@.coherent() {
                    lemma_change_keeps_coherent(
                        old(store)@,
                        conversation_id@,
                        target.conversations[conversation_id@],
                    );
                }
            }
            Ok(())
        },
        None => {
            proof {
                assert(store@.conversations =~= old(store)@.conversations);
            }
            Err("Conversation not found".to_owned())
        },
    }
}

} // verus!
