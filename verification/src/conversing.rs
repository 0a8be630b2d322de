//! The chat requests of the marketplace: opening a conversation with the
//! owner of a listing, writing into it and reading it.

use crate::chat::{
    add_message_to_conversation, conversation_id, conversation_key, conversation_not_found,
    conversation_views, get_or_create_conversation, get_user_conversations,
    mark_conversation_as_read, message_views, not_a_participant, update_typing_status,
    Conversation, ConversationView, Message, MessageView,
};
use crate::coherence::key_of;
use crate::market::{find_listing, listing_position, result_view, Marketplace, MarketplaceView};
use crate::text::{holds_no, str_equal};
use vstd::prelude::*;

verus! {

impl MarketplaceView {
    /// The state with `chat` in the place of its chat store.
    pub open spec fn with_chat(self, chat: crate::chat::ChatStoreView) -> MarketplaceView {
        MarketplaceView { chat, ..self }
    }

    /// What comes of a request to talk to the owner of a listing: the
    /// conversation of the caller and the owner about it, found or created.
    /// An owner cannot open one about the owner's own listing.
    pub open spec fn create_conversation(self, caller: Seq<char>, listing_id: u64, timestamp: u64) -> (
        MarketplaceView,
        Result<ConversationView, Seq<char>>,
    ) {
        match listing_position(self.listings, listing_id) {
            None => (self, Err("Listing not found"@)),
            Some(i) => {
                let listing = self.listings[i];
                if caller == listing.owner_id {
                    (self, Err("Cannot create conversation with yourself"@))
                } else {
                    let found = self.chat.get_or_create(
                        listing_id,
                        listing.title,
                        caller,
                        listing.owner_id,
                        timestamp,
                    );
                    (self.with_chat(found.0), Ok(found.1))
                }
            },
        }
    }

    /// What comes of a request to write into a conversation. Only a
    /// participant may.
    pub open spec fn send_chat_message(
        self,
        caller: Seq<char>,
        conversation_id: Seq<char>,
        content: Seq<char>,
        timestamp: u64,
    ) -> (MarketplaceView, Result<MessageView, Seq<char>>) {
        match self.chat.receive_chat_message(conversation_id, caller, content, timestamp) {
            Ok((chat, message)) => (self.with_chat(chat), Ok(message)),
            Err(error) => (self, Err(error)),
        }
    }

    /// The messages of a conversation, for a participant.
    pub open spec fn conversation_messages(self, caller: Seq<char>, conversation_id: Seq<char>) -> Result<
        Seq<MessageView>,
        Seq<char>,
    > {
        if !self.chat.conversations.contains_key(conversation_id) {
            Err(conversation_not_found())
        } else if !self.chat.conversations[conversation_id].participants.contains(caller) {
            Err(not_a_participant())
        } else {
            Ok(self.chat.conversations[conversation_id].messages)
        }
    }
}

impl Marketplace {
    /// Opens the conversation of `caller` with the owner of the listing
    /// numbered `listing_id`; a first request creates it, stamped with
    /// `timestamp`.
    pub fn create_conversation(&mut self, caller: &str, listing_id: u64, timestamp: u64) -> (result:
        Result<Conversation, String>)
        requires
            old(self)@.chat.wf(),
        ensures
            final(self)@ == old(self)@.create_conversation(caller@, listing_id, timestamp).0,
            result_view(result) == old(self)@.create_conversation(
                caller@,
                listing_id,
                timestamp,
            ).1,
            final(self)@.chat.wf(),
            old(self)@.wf() ==> final(self)@.wf(),
            old(self)@.chat.coherent() ==> (result matches Ok(conversation) ==> {
                &&& conversation@.participants.len() == 2
                &&& key_of(conversation@) == conversation_key(
                    listing_id,
                    caller@,
                    old(self)@.listing(listing_id)->0.owner_id,
                )
            }),
            old(self)@.chat.coherent() && holds_no(caller@, ':') && holds_no(
                old(self)@.listing(listing_id)->0.owner_id,
                ':',
            ) ==> (result matches Ok(conversation) ==> {
                &&& conversation@.listing_id == listing_id
                &&& conversation@.participants == seq![
                    caller@,
                    old(self)@.listing(listing_id)->0.owner_id,
                ] || conversation@.participants == seq![
                    old(self)@.listing(listing_id)->0.owner_id,
                    caller@,
                ]
            }),
            old(self)@.chat.coherent() && !old(self)@.chat.conversations.contains_key(
                conversation_id(listing_id, timestamp),
            ) ==> final(self)@.chat.coherent(),
    {
        let i = match find_listing(&self.listings, listing_id) {
            Some(i) => i,
            None => {
                return Err("Listing not found".to_owned());
            },
        };
        if str_equal(caller, self.listings[i].owner_id.as_str()) {
            return Err("Cannot create conversation with yourself".to_owned());
        }
        let conversation = get_or_create_conversation(
            &mut self.chat,
            listing_id,
            self.listings[i].title.clone(),
            caller.to_owned(),
            self.listings[i].owner_id.clone(),
            timestamp,
        );
        Ok(conversation)
    }

    /// Writes a text message of `caller` into a conversation, stamped with
    /// `timestamp`.
    pub fn send_chat_message(
        &mut self,
        caller: &str,
        conversation_id: &str,
        content: String,
        timestamp: u64,
    ) -> (result: Result<Message, String>)
        requires
            old(self)@.chat.has_room(conversation_id@, caller@),
        ensures
            final(self)@ == old(self)@.send_chat_message(
                caller@,
                conversation_id@,
                content@,
                timestamp,
            ).0,
            result_view(result) == old(self)@.send_chat_message(
                caller@,
                conversation_id@,
                content@,
                timestamp,
            ).1,
            old(self)@.wf() ==> final(self)@.wf(),
            old(self)@.chat.coherent() ==> final(self)@.chat.coherent(),
    {
        let taking_part = match self.chat.conversations.get(conversation_id) {
            Some(conversation) => conversation.has_participant(caller),
            None => {
                return Err("Conversation not found".to_owned());
            },
        };
        if !taking_part {
            return Err("Not a participant in this conversation".to_owned());
        }
        let message = Message::new(caller.to_owned(), content, "text".to_owned(), timestamp);
        match add_message_to_conversation(&mut self.chat, conversation_id, message.clone()) {
            Ok(_) => Ok(message),
            Err(error) => Err(error),
        }
    }

    /// Copies of the messages of a conversation that `caller` takes part
    /// in.
    pub fn get_conversation_messages(&self, caller: &str, conversation_id: &str) -> (result: Result<
        Vec<Message>,
        String,
    >)
        ensures
            match result {
                Ok(messages) => self@.conversation_messages(caller@, conversation_id@) == Ok::<
                    Seq<MessageView>,
                    Seq<char>,
                >(message_views(messages@)),
                Err(error) => self@.conversation_messages(caller@, conversation_id@) == Err::<
                    Seq<MessageView>,
                    Seq<char>,
                >(error@),
            },
    {
        match self.chat.conversations.get(conversation_id) {
            Some(conversation) => {
                if conversation.has_participant(caller) {
                    let messages = conversation.messages.clone();
                    Ok(messages)
                } else {
                    Err("Not a participant in this conversation".to_owned())
                }
            },
            None => Err("Conversation not found".to_owned()),
        }
    }

    /// Copies of the conversations that `caller` takes part in.
    pub fn get_user_conversations(&self, caller: &str) -> (found: Vec<Conversation>)
        ensures
            conversation_views(found@) == self@.chat.conversations_of(caller@),
            self@.chat.coherent() ==> forall|i: int|
                0 <= i < found.len() ==> (#[trigger] conversation_views(
                    found@,
                )[i]).participants.contains(caller@),
            self@.chat.coherent() ==> forall|id: Seq<char>|
                self@.chat.conversations.contains_key(id)
                    && self@.chat.conversations[id].participants.contains(caller@)
                    ==> conversation_views(found@).contains(
                    #[trigger] self@.chat.conversations[id],
                ),
    {
        get_user_conversations(&self.chat, caller)
    }

    /// Marks a conversation as read by `caller`.
    pub fn mark_conversation_read(&mut self, caller: &str, conversation_id: &str) -> (result: Result<
        (),
        String,
    >)
        ensures
            match result {
                Ok(_) => old(self)@.chat.conversations.contains_key(conversation_id@)
                    && final(self)@ == old(self)@.with_chat(
                    old(self)@.chat.with_conversation(
                        conversation_id@,
                        old(self)@.chat.conversations[conversation_id@].mark_as_read(caller@),
                    ),
                ),
                Err(error) => !old(self)@.chat.conversations.contains_key(conversation_id@)
                    && final(self)@ == old(self)@ && error@ == conversation_not_found(),
            },
            old(self)@.wf() ==> final(self)@.wf(),
            old(self)@.chat.coherent() ==> final(self)@.chat.coherent(),
    {
        mark_conversation_as_read(&mut self.chat, conversation_id, caller)
    }

    /// Records whether `caller` is typing in a conversation.
    pub fn set_typing_status(&mut self, caller: &str, conversation_id: &str, is_typing: bool) -> (result:
        Result<(), String>)
        ensures
            match result {
                Ok(_) => old(self)@.chat.conversations.contains_key(conversation_id@)
                    && final(self)@ == old(self)@.with_chat(
                    old(self)@.chat.with_conversation(
                        conversation_id@,
                        old(self)@.chat.conversations[conversation_id@].set_typing_status(
                            caller@,
                            is_typing,
                        ),
                    ),
                ),
                Err(error) => !old(self)@.chat.conversations.contains_key(conversation_id@)
                    && final(self)@ == old(self)@ && error@ == conversation_not_found(),
            },
            old(self)@.wf() ==> final(self)@.wf(),
            old(self)@.chat.coherent() ==> final(self)@.chat.coherent(),
    {
        update_typing_status(&mut self.chat, conversation_id, caller, is_typing)
    }
}

} // verus!
