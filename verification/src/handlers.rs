//! What the chat does when a client connects, speaks or leaves: which state
//! changes, and which connected clients are to be told.

use crate::chat::{
    add_message_to_conversation, conversation_not_found, update_typing_status, ChatStore,
    Message, MessageView,
};
use crate::string_map::StringMap;
use crate::text::{str_equal, texts};
use vstd::prelude::*;

verus! {

/// The text form of the identity whose raw bytes are `bytes`, as
/// `candid::Principal` prints it.
pub uninterp spec fn principal_text(bytes: Seq<u8>) -> Seq<char>;

/// The greatest number of bytes of an identity.
pub const MAX_PRINCIPAL_BYTES: usize = 29;

/// Calls `candid::Principal::from_slice` and `Principal::to_text`. The text
/// is computed from the bytes alone (a checksum and the bytes, in base 32,
/// grouped by dashes); the contract gives it the name `principal_text`.
/// `from_slice` panics on more than 29 bytes, which `requires` leaves out.
#[verifier::external_body]
fn principal_to_text(bytes: &Vec<u8>) -> (text: String)
    requires
        bytes@.len() <= MAX_PRINCIPAL_BYTES,
    ensures
        text@ == principal_text(bytes@),
{
    candid::Principal::from_slice(bytes.as_slice()).to_text()
}

/// The identity of a connected client: at most 29 raw bytes.
#[derive(Debug)]
pub struct ClientPrincipal {
    bytes: Vec<u8>,
}

impl View for ClientPrincipal {
    type V = Seq<u8>;

    closed spec fn view(&self) -> Seq<u8> {
        self.bytes@
    }
}

impl Clone for ClientPrincipal {
    fn clone(&self) -> (copy: Self)
        ensures
            copy@ == self@,
    {
        proof {
            use_type_invariant(self);
        }
        ClientPrincipal { bytes: self.bytes.clone() }
    }
}

impl ClientPrincipal {
    #[verifier::type_invariant]
    spec fn well_formed(self) -> bool {
        self.bytes@.len() <= MAX_PRINCIPAL_BYTES
    }

    /// The identity with the given raw bytes; none for more than 29 bytes.
    pub fn from_bytes(bytes: Vec<u8>) -> (principal: Option<Self>)
        ensures
            principal is Some <==> bytes@.len() <= MAX_PRINCIPAL_BYTES,
            principal matches Some(p) ==> p@ == bytes@,
    {
        if bytes.len() <= MAX_PRINCIPAL_BYTES {
            Some(ClientPrincipal { bytes })
        } else {
            None
        }
    }

    /// The raw bytes.
    pub fn as_bytes(&self) -> (bytes: &Vec<u8>)
        ensures
            bytes@ == self@,
            bytes@.len() <= MAX_PRINCIPAL_BYTES,
    {
        proof {
            use_type_invariant(self);
        }
        &self.bytes
    }

    /// The text form, under which the client is known as a user.
    pub fn to_text(&self) -> (text: String)
        ensures
            text@ == principal_text(self@),
    {
        proof {
            use_type_invariant(self);
        }
        principal_to_text(&self.bytes)
    }
}

/// A chat event as it travels to and from clients.
#[derive(Debug, PartialEq, Eq)]
pub struct ChatMessage {
    /// "chat_message", "typing_status", "user_joined" or "user_left".
    pub message_type: String,
    pub conversation_id: String,
    pub sender_id: String,
    pub content: String,
    pub timestamp: u64,
}

/// What a `ChatMessage` stands for.
pub struct ChatMessageView {
    pub message_type: Seq<char>,
    pub conversation_id: Seq<char>,
    pub sender_id: Seq<char>,
    pub content: Seq<char>,
    pub timestamp: u64,
}

impl View for ChatMessage {
    type V = ChatMessageView;

    open spec fn view(&self) -> ChatMessageView {
        ChatMessageView {
            message_type: self.message_type@,
            conversation_id: self.conversation_id@,
            sender_id: self.sender_id@,
            content: self.content@,
            timestamp: self.timestamp,
        }
    }
}

impl Clone for ChatMessage {
    fn clone(&self) -> (copy: Self)
        ensures
            copy == *self,
    {
        ChatMessage {
            message_type: self.message_type.clone(),
            conversation_id: self.conversation_id.clone(),
            sender_id: self.sender_id.clone(),
            content: self.content.clone(),
            timestamp: self.timestamp,
        }
    }
}

/// The notice that a user started or stopped typing.
#[derive(Debug, PartialEq, Eq)]
pub struct TypingStatusMessage {
    /// "typing_status".
    pub message_type: String,
    pub conversation_id: String,
    pub user_id: String,
    pub is_typing: bool,
}

/// What a `TypingStatusMessage` stands for.
pub struct TypingStatusMessageView {
    pub message_type: Seq<char>,
    pub conversation_id: Seq<char>,
    pub user_id: Seq<char>,
    pub is_typing: bool,
}

impl View for TypingStatusMessage {
    type V = TypingStatusMessageView;

    open spec fn view(&self) -> TypingStatusMessageView {
        TypingStatusMessageView {
            message_type: self.message_type@,
            conversation_id: self.conversation_id@,
            user_id: self.user_id@,
            is_typing: self.is_typing,
        }
    }
}

impl Clone for TypingStatusMessage {
    fn clone(&self) -> (copy: Self)
        ensures
            copy == *self,
    {
        TypingStatusMessage {
            message_type: self.message_type.clone(),
            conversation_id: self.conversation_id.clone(),
            user_id: self.user_id.clone(),
            is_typing: self.is_typing,
        }
    }
}

/// The envelope of every frame: a type tag and a payload in JSON.
#[derive(Debug, PartialEq, Eq)]
pub struct AppMessage {
    pub message_type: String,
    pub data: String,
}

/// What an `AppMessage` stands for.
pub struct AppMessageView {
    pub message_type: Seq<char>,
    pub data: Seq<char>,
}

impl View for AppMessage {
    type V = AppMessageView;

    open spec fn view(&self) -> AppMessageView {
        AppMessageView { message_type: self.message_type@, data: self.data@ }
    }
}

impl Clone for AppMessage {
    fn clone(&self) -> (copy: Self)
        ensures
            copy == *self,
    {
        AppMessage { message_type: self.message_type.clone(), data: self.data.clone() }
    }
}

/// The clients that are connected, each under the text form of its identity.
#[derive(Debug)]
pub struct ConnectedClients {
    pub clients: StringMap<ClientPrincipal>,
}

impl View for ConnectedClients {
    type V = Map<Seq<char>, Seq<u8>>;

    open spec fn view(&self) -> Map<Seq<char>, Seq<u8>> {
        Map::new(
            |user: Seq<char>| self.clients@.contains_key(user),
            |user: Seq<char>| self.clients@[user]@,
        )
    }
}

/// A connected client that an event goes to.
#[derive(Debug)]
pub struct Recipient {
    pub user_id: String,
    pub client_principal: ClientPrincipal,
}

/// What a `Recipient` stands for.
pub struct RecipientView {
    pub user_id: Seq<char>,
    pub client_principal: Seq<u8>,
}

impl View for Recipient {
    type V = RecipientView;

    open spec fn view(&self) -> RecipientView {
        RecipientView { user_id: self.user_id@, client_principal: self.client_principal@ }
    }
}

/// The views of a list of recipients, in order.
pub open spec fn recipient_views(list: Seq<Recipient>) -> Seq<RecipientView> {
    list.map_values(|r: Recipient| r@)
}

/// The participants that an event goes to: those that are connected, but
/// for the excluded one, in the order of `participants`.
pub open spec fn recipients_among(
    participants: Seq<Seq<char>>,
    clients: Map<Seq<char>, Seq<u8>>,
    excluded: Option<Seq<char>>,
) -> Seq<RecipientView>
    decreases participants.len(),
{
    if participants.len() == 0 {
        Seq::empty()
    } else {
        let front = recipients_among(participants.drop_last(), clients, excluded);
        let user = participants.last();
        if excluded != Some(user) && clients.contains_key(user) {
            front.push(RecipientView { user_id: user, client_principal: clients[user] })
        } else {
            front
        }
    }
}

/// The greeting that a client gets when it has connected.
pub open spec fn welcome() -> AppMessageView {
    AppMessageView { message_type: "connection_established"@, data: "Welcome to chat!"@ }
}

/// The event that tells of a new message in a conversation.
pub open spec fn new_message_event(conversation_id: Seq<char>, message: MessageView) -> ChatMessageView {
    ChatMessageView {
        message_type: "new_message"@,
        conversation_id,
        sender_id: message.sender_id,
        content: message.content,
        timestamp: message.timestamp,
    }
}

/// The event that tells whether a user is typing in a conversation.
pub open spec fn typing_event(
    conversation_id: Seq<char>,
    user_id: Seq<char>,
    is_typing: bool,
) -> TypingStatusMessageView {
    TypingStatusMessageView {
        message_type: "typing_status"@,
        conversation_id,
        user_id,
        is_typing,
    }
}

/// What the payload of a frame is to be read as.
#[derive(Clone, Copy, Debug, PartialEq, Eq, Structural)]
pub enum PayloadKind {
    /// A `ChatMessage`.
    ChatMessage,
    /// A `TypingStatusMessage`.
    TypingStatus,
    /// Nothing that the chat knows.
    Unknown,
}

/// The kind of payload that a type tag announces.
pub open spec fn payload_kind(message_type: Seq<char>) -> PayloadKind {
    if message_type == "chat_message"@ {
        PayloadKind::ChatMessage
    } else if message_type == "typing_status"@ {
        PayloadKind::TypingStatus
    } else {
        PayloadKind::Unknown
    }
}

impl ConnectedClients {
    /// No client is connected.
    pub fn new() -> (clients: Self)
        ensures
            clients@ == Map::<Seq<char>, Seq<u8>>::empty(),
    {
        ConnectedClients { clients: StringMap::new() }
    }

    /// Records that the client known as `user_id` is connected.
    pub fn register(&mut self, user_id: String, client_principal: ClientPrincipal)
        ensures
            final(self)@ == old(self)@.insert(user_id@, client_principal@),
    {
        self.clients.insert(user_id, client_principal);
    }

    /// Forgets the client known as `user_id`.
    pub fn unregister(&mut self, user_id: &str)
        ensures
            final(self)@ == old(self)@.remove(user_id@),
    {
        self.clients.remove(user_id);
    }
}

/// A client has connected: it is registered under the text form of its
/// identity, and the greeting for it is handed back.
pub fn on_open(clients: &mut ConnectedClients, client_principal: ClientPrincipal) -> (greeting:
    AppMessage)
    ensures
        final(clients)@ == old(clients)@.insert(
            principal_text(client_principal@),
            client_principal@,
        ),
        greeting@ == welcome(),
{
    let user_id = client_principal.to_text();
    clients.register(user_id, client_principal);
    AppMessage {
        message_type: "connection_established".to_owned(),
        data: "Welcome to chat!".to_owned(),
    }
}

/// A frame has come in: tells what its payload is to be read as.
pub fn on_message(message: &AppMessage) -> (kind: PayloadKind)
    ensures
        kind == payload_kind(message@.message_type),
{
    if str_equal(message.message_type.as_str(), "chat_message") {
        PayloadKind::ChatMessage
    } else if str_equal(message.message_type.as_str(), "typing_status") {
        PayloadKind::TypingStatus
    } else {
        PayloadKind::Unknown
    }
}

/// A client has left: it is no longer registered.
pub fn on_close(clients: &mut ConnectedClients, client_principal: &ClientPrincipal)
    ensures
        final(clients)@ == old(clients)@.remove(principal_text(client_principal@)),
{
    let user_id = client_principal.to_text();
    clients.unregister(user_id.as_str());
}

/// The connected participants of a conversation that an event goes to:
/// every one but `exclude_user`. An unknown conversation has none.
pub fn broadcast_to_conversation(
    store: &ChatStore,
    clients: &ConnectedClients,
    conversation_id: &str,
    exclude_user: Option<&str>,
) -> (recipients: Vec<Recipient>)
    ensures
        recipient_views(recipients@) == recipients_among(
            store@.participants_of(conversation_id@),
            clients@,
            match exclude_user {
                Some(user) => Some(user@),
                None => None,
            },
        ),
{
    let mut recipients: Vec<Recipient> = Vec::new();
    let ghost excluded: Option<Seq<char>> = match exclude_user {
        Some(user) => Some(user@),
        None => None,
    };
    match store.conversations.get(conversation_id) {
        Some(conversation) => {
            let ghost people = texts(conversation.participants@);
            let mut i: usize = 0;
            while i < conversation.participants.len()
                invariant
                    i <= conversation.participants.len(),
                    people == texts(conversation.participants@),
                    excluded == match exclude_user {
                        Some(user) => Some(user@),
                        None => None,
                    },
                    recipient_views(recipients@) == recipients_among(
                        people.take(i as int),
                        clients@,
                        excluded,
                    ),
                decreases conversation.participants.len() - i,
            {
                let participant = &conversation.participants[i];
                proof {
                    assert(people.take(i + 1).drop_last() =~= people.take(i as int));
                }
                let wanted = match exclude_user {
                    Some(user) => !str_equal(participant.as_str(), user),
                    None => true,
                };
                if wanted {
                    match clients.clients.get(participant.as_str()) {
                        Some(client_principal) => {
                            let recipient = Recipient {
                                user_id: participant.clone(),
                                client_principal: client_principal.clone(),
                            };
                            recipients.push(recipient);
                        },
                        None => {},
                    }
                }
                i += 1;
            }
            assert(people.take(i as int) =~= people);
        },
        None => {},
    }
    recipients
}

/// The event for a message that was added to a conversation, with the
/// clients it goes to: the connected participants but for the sender.
pub fn broadcast_message_to_conversation(
    store: &ChatStore,
    clients: &ConnectedClients,
    conversation_id: &str,
    message: &Message,
) -> (broadcast: (ChatMessage, Vec<Recipient>))
    ensures
        broadcast.0@ == new_message_event(conversation_id@, message@),
        recipient_views(broadcast.1@) == recipients_among(
            store@.participants_of(conversation_id@),
            clients@,
            Some(message@.sender_id),
        ),
{
    let event = ChatMessage {
        message_type: "new_message".to_owned(),
        conversation_id: conversation_id.to_owned(),
        sender_id: message.sender_id.clone(),
        content: message.content.clone(),
        timestamp: message.timestamp,
    };
    let recipients = broadcast_to_conversation(
        store,
        clients,
        conversation_id,
        Some(message.sender_id.as_str()),
    );
    (event, recipients)
}

/// The event for a change of typing state, with the clients it goes to: the
/// connected participants but for the user who types.
pub fn broadcast_typing_status_to_conversation(
    store: &ChatStore,
    clients: &ConnectedClients,
    conversation_id: &str,
    user_id: &str,
    is_typing: bool,
) -> (broadcast: (TypingStatusMessage, Vec<Recipient>))
    ensures
        broadcast.0@ == typing_event(conversation_id@, user_id@, is_typing),
        recipient_views(broadcast.1@) == recipients_among(
            store@.participants_of(conversation_id@),
            clients@,
            Some(user_id@),
        ),
{
    let event = TypingStatusMessage {
        message_type: "typing_status".to_owned(),
        conversation_id: conversation_id.to_owned(),
        user_id: user_id.to_owned(),
        is_typing,
    };
    let recipients = broadcast_to_conversation(store, clients, conversation_id, Some(user_id));
    (event, recipients)
}

/// A chat message has come in from the client known as `sender_id`: it is
/// appended to its conversation, and the event that tells of it is handed
/// back with the clients it goes to. A message for an unknown conversation,
/// or from a user who takes no part in it, changes nothing.
pub fn handle_chat_message(
    store: &mut ChatStore,
    clients: &ConnectedClients,
    chat_msg: &ChatMessage,
    sender_id: &str,
    timestamp: u64,
) -> (result: Result<(ChatMessage, Vec<Recipient>), String>)
    requires
        old(store)@.has_room(chat_msg@.conversation_id, sender_id@),
    ensures
        match old(store)@.receive_chat_message(
            chat_msg@.conversation_id,
            sender_id@,
            chat_msg@.content,
            timestamp,
        ) {
            Ok((after, message)) => result matches Ok((event, recipients)) && final(store)@
                == after && event@ == new_message_event(chat_msg@.conversation_id, message)
                && recipient_views(recipients@) == recipients_among(
                old(store)@.participants_of(chat_msg@.conversation_id),
                clients@,
                Some(sender_id@),
            ),
            Err(reason) => result matches Err(error) && error@ == reason && final(store)@ == old(store)@,
        },
        old(store)@.wf() ==> final(store)@.wf(),
        old(store)@.coherent() ==> final(store)@.coherent(),
{
    let taking_part = match store.conversations.get(chat_msg.conversation_id.as_str()) {
        Some(conversation) => conversation.has_participant(sender_id),
        None => {
            return Err("Conversation not found".to_owned());
        },
    };
    if !taking_part {
        return Err("Not a participant in this conversation".to_owned());
    }
    let message = Message::new(
        sender_id.to_owned(),
        chat_msg.content.clone(),
        "text".to_owned(),
        timestamp,
    );
    match add_message_to_conversation(store, chat_msg.conversation_id.as_str(), message.clone()) {
        Ok(_) => {
            let broadcast = broadcast_message_to_conversation(
                store,
                clients,
                chat_msg.conversation_id.as_str(),
                &message,
            );
            Ok(broadcast)
        },
        Err(error) => Err(error),
    }
}

/// A change of typing state has come in from the client known as
/// `sender_id`: it is recorded for that client, and the event that tells of
/// it is handed back with the clients it goes to. A change for an unknown
/// conversation changes nothing.
pub fn handle_typing_status(
    store: &mut ChatStore,
    clients: &ConnectedClients,
    typing_msg: &TypingStatusMessage,
    sender_id: &str,
) -> (result: Result<(TypingStatusMessage, Vec<Recipient>), String>)
    ensures
        match result {
            Ok((event, recipients)) => old(store)@.conversations.contains_key(
                typing_msg@.conversation_id,
            ) && final(store)@ == old(store)@.with_conversation(
                typing_msg@.conversation_id,
                old(store)@.conversations[typing_msg@.conversation_id].set_typing_status(
                    sender_id@,
                    typing_msg@.is_typing,
                ),
            ) && event@ == typing_event(
                typing_msg@.conversation_id,
                typing_msg@.user_id,
                typing_msg@.is_typing,
            ) && recipient_views(recipients@) == recipients_among(
                old(store)@.participants_of(typing_msg@.conversation_id),
                clients@,
                Some(sender_id@),
            ),
            Err(error) => !old(store)@.conversations.contains_key(typing_msg@.conversation_id)
                && error@ == conversation_not_found() && final(store)@ == old(store)@,
        },
        old(store)@.wf() ==> final(store)@.wf(),
        old(store)@.coherent() ==> final(store)@.coherent(),
{
    match update_typing_status(
        store,
        typing_msg.conversation_id.as_str(),
        sender_id,
        typing_msg.is_typing,
    ) {
        Ok(_) => {
            let event = TypingStatusMessage {
                message_type: "typing_status".to_owned(),
                conversation_id: typing_msg.conversation_id.clone(),
                user_id: typing_msg.user_id.clone(),
                is_typing: typing_msg.is_typing,
            };
            let recipients = broadcast_to_conversation(
                store,
                clients,
                typing_msg.conversation_id.as_str(),
                Some(sender_id),
            );
            Ok((event, recipients))
        },
        Err(error) => Err(error),
    }
}

} // verus!
