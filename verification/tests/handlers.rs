use candid::Principal;
use icp_hackathon_backend::chat::{get_or_create_conversation, ChatStore, Message};
use icp_hackathon_backend::handlers::{
    broadcast_message_to_conversation, broadcast_to_conversation,
    broadcast_typing_status_to_conversation, handle_chat_message, handle_typing_status,
    on_close, on_message, on_open, AppMessage, ChatMessage, ClientPrincipal, ConnectedClients,
    PayloadKind, TypingStatusMessage,
};

fn principal(bytes: &[u8]) -> ClientPrincipal {
    ClientPrincipal::from_bytes(bytes.to_vec()).unwrap()
}

fn text_of(bytes: &[u8]) -> String {
    Principal::from_slice(bytes).to_text()
}

/// A store with one conversation of the two users, and both connected.
fn chat_of(a: &[u8], b: &[u8]) -> (ChatStore, ConnectedClients, String) {
    let mut store = ChatStore::new();
    let conversation =
        get_or_create_conversation(&mut store, 3, "Bike".to_string(), text_of(a), text_of(b), 7);
    let mut clients = ConnectedClients::new();
    on_open(&mut clients, principal(a));
    on_open(&mut clients, principal(b));
    (store, clients, conversation.id)
}

#[test]
fn client_principal_holds_up_to_29_bytes() {
    assert!(ClientPrincipal::from_bytes(vec![]).is_some());
    assert!(ClientPrincipal::from_bytes(vec![7; 29]).is_some());
    assert!(ClientPrincipal::from_bytes(vec![7; 30]).is_none());
    let p = principal(&[1, 2, 3]);
    assert_eq!(p.as_bytes(), &vec![1, 2, 3]);
    assert_eq!(p.clone().as_bytes(), &vec![1, 2, 3]);
}

#[test]
fn client_principal_text_is_the_text_of_the_principal() {
    assert_eq!(principal(&[]).to_text(), "aaaaa-aa");
    assert_eq!(principal(&[4]).to_text(), "2vxsx-fae");
    assert_eq!(principal(&[4]).to_text(), Principal::anonymous().to_text());
    for bytes in [vec![0u8], vec![1, 2, 3], vec![0xef, 0xcd, 0xab, 0, 0, 0, 0, 0, 1], vec![9; 29]] {
        assert_eq!(principal(&bytes).to_text(), Principal::from_slice(&bytes).to_text());
    }
    assert_eq!(
        principal(&[0xef, 0xcd, 0xab, 0, 0, 0, 0, 0, 1]).to_text(),
        "2chl6-4hpzw-vqaaa-aaaaa-c"
    );
}

#[test]
fn on_open_registers_the_client_and_greets_it() {
    let mut clients = ConnectedClients::new();
    let greeting = on_open(&mut clients, principal(&[4]));
    assert_eq!(
        greeting,
        AppMessage {
            message_type: "connection_established".to_string(),
            data: "Welcome to chat!".to_string(),
        }
    );
    assert_eq!(clients.clients.len(), 1);
    assert_eq!(clients.clients.get("2vxsx-fae").unwrap().as_bytes(), &vec![4]);
    on_open(&mut clients, principal(&[4]));
    assert_eq!(clients.clients.len(), 1);
    on_open(&mut clients, principal(&[]));
    assert_eq!(clients.clients.len(), 2);
    assert!(clients.clients.contains_key("aaaaa-aa"));
}

#[test]
fn on_close_forgets_the_client() {
    let mut clients = ConnectedClients::new();
    on_open(&mut clients, principal(&[4]));
    on_open(&mut clients, principal(&[1, 2]));
    on_close(&mut clients, &principal(&[4]));
    assert_eq!(clients.clients.len(), 1);
    assert!(!clients.clients.contains_key("2vxsx-fae"));
    on_close(&mut clients, &principal(&[4]));
    assert_eq!(clients.clients.len(), 1);
    assert!(clients.clients.contains_key(&text_of(&[1, 2])));
}

#[test]
fn on_message_reads_the_type_tag() {
    let frame = |message_type: &str| AppMessage {
        message_type: message_type.to_string(),
        data: "{}".to_string(),
    };
    assert_eq!(on_message(&frame("chat_message")), PayloadKind::ChatMessage);
    assert_eq!(on_message(&frame("typing_status")), PayloadKind::TypingStatus);
    assert_eq!(on_message(&frame("new_message")), PayloadKind::Unknown);
    assert_eq!(on_message(&frame("")), PayloadKind::Unknown);
    assert_eq!(on_message(&frame("chat_message ")), PayloadKind::Unknown);
    assert_eq!(on_message(&frame("Chat_message")), PayloadKind::Unknown);
}

#[test]
fn broadcast_leaves_out_the_sender() {
    let (a, b) = ([1u8, 1], [2u8, 2]);
    let (store, clients, id) = chat_of(&a, &b);
    let recipients = broadcast_to_conversation(&store, &clients, &id, Some(&text_of(&a)));
    assert_eq!(recipients.len(), 1);
    assert_eq!(recipients[0].user_id, text_of(&b));
    assert_eq!(recipients[0].client_principal.as_bytes(), &b.to_vec());
    let recipients = broadcast_to_conversation(&store, &clients, &id, Some(&text_of(&b)));
    assert_eq!(recipients.len(), 1);
    assert_eq!(recipients[0].user_id, text_of(&a));
    let recipients = broadcast_to_conversation(&store, &clients, &id, None);
    assert_eq!(recipients.len(), 2);
    assert_eq!(recipients[0].user_id, text_of(&a));
    assert_eq!(recipients[1].user_id, text_of(&b));
}

#[test]
fn broadcast_reaches_connected_participants_only() {
    let (a, b, c) = ([1u8, 1], [2u8, 2], [3u8, 3]);
    let (store, mut clients, id) = chat_of(&a, &b);
    on_open(&mut clients, principal(&c));
    let recipients = broadcast_to_conversation(&store, &clients, &id, Some(&text_of(&c)));
    assert_eq!(recipients.len(), 2);
    on_close(&mut clients, &principal(&b));
    let recipients = broadcast_to_conversation(&store, &clients, &id, Some(&text_of(&a)));
    assert!(recipients.is_empty());
    let recipients = broadcast_to_conversation(&store, &clients, "conv-9-9", None);
    assert!(recipients.is_empty());
}

#[test]
fn broadcast_message_builds_the_event() {
    let (a, b) = ([1u8, 1], [2u8, 2]);
    let (store, clients, id) = chat_of(&a, &b);
    let message = Message::new(text_of(&a), "hello".to_string(), "text".to_string(), 42);
    let (event, recipients) = broadcast_message_to_conversation(&store, &clients, &id, &message);
    assert_eq!(
        event,
        ChatMessage {
            message_type: "new_message".to_string(),
            conversation_id: id.clone(),
            sender_id: text_of(&a),
            content: "hello".to_string(),
            timestamp: 42,
        }
    );
    assert_eq!(recipients.len(), 1);
    assert_eq!(recipients[0].user_id, text_of(&b));
}

#[test]
fn broadcast_typing_status_builds_the_event() {
    let (a, b) = ([1u8, 1], [2u8, 2]);
    let (store, clients, id) = chat_of(&a, &b);
    let (event, recipients) =
        broadcast_typing_status_to_conversation(&store, &clients, &id, &text_of(&b), true);
    assert_eq!(
        event,
        TypingStatusMessage {
            message_type: "typing_status".to_string(),
            conversation_id: id.clone(),
            user_id: text_of(&b),
            is_typing: true,
        }
    );
    assert_eq!(recipients.len(), 1);
    assert_eq!(recipients[0].user_id, text_of(&a));
}

#[test]
fn handle_chat_message_stores_and_tells_the_other_side() {
    let (a, b) = ([1u8, 1], [2u8, 2]);
    let (mut store, clients, id) = chat_of(&a, &b);
    let incoming = ChatMessage {
        message_type: "chat_message".to_string(),
        conversation_id: id.clone(),
        sender_id: "whoever the client claims".to_string(),
        content: "hello".to_string(),
        timestamp: 1,
    };
    assert!(store.has_room(&id, &text_of(&a)));
    let (event, recipients) =
        handle_chat_message(&mut store, &clients, &incoming, &text_of(&a), 99).unwrap();
    assert_eq!(event.message_type, "new_message");
    assert_eq!(event.conversation_id, id);
    assert_eq!(event.sender_id, text_of(&a));
    assert_eq!(event.content, "hello");
    assert_eq!(event.timestamp, 99);
    assert_eq!(recipients.len(), 1);
    assert_eq!(recipients[0].user_id, text_of(&b));
    assert_eq!(recipients[0].client_principal.as_bytes(), &b.to_vec());
    let stored = store.conversations.get(&id).unwrap();
    assert_eq!(stored.messages.len(), 1);
    assert_eq!(stored.messages[0].sender_id, text_of(&a));
    assert_eq!(stored.messages[0].message_type, "text");
    assert_eq!(stored.unread_counts.get(&text_of(&b)), Some(&1));
    assert_eq!(stored.unread_counts.get(&text_of(&a)), Some(&0));
}

#[test]
fn handle_chat_message_refuses_strangers_and_unknown_conversations() {
    let (a, b) = ([1u8, 1], [2u8, 2]);
    let (mut store, clients, id) = chat_of(&a, &b);
    let incoming = |conversation_id: &str| ChatMessage {
        message_type: "chat_message".to_string(),
        conversation_id: conversation_id.to_string(),
        sender_id: String::new(),
        content: "hello".to_string(),
        timestamp: 1,
    };
    assert_eq!(
        handle_chat_message(&mut store, &clients, &incoming("conv-9-9"), &text_of(&a), 5)
            .unwrap_err(),
        "Conversation not found"
    );
    assert_eq!(
        handle_chat_message(&mut store, &clients, &incoming(&id), &text_of(&[3, 3]), 5)
            .unwrap_err(),
        "Not a participant in this conversation"
    );
    assert!(store.conversations.get(&id).unwrap().messages.is_empty());
}

#[test]
fn handle_typing_status_records_and_tells_the_other_side() {
    let (a, b) = ([1u8, 1], [2u8, 2]);
    let (mut store, clients, id) = chat_of(&a, &b);
    let incoming = TypingStatusMessage {
        message_type: "typing_status".to_string(),
        conversation_id: id.clone(),
        user_id: "claimed".to_string(),
        is_typing: true,
    };
    let (event, recipients) =
        handle_typing_status(&mut store, &clients, &incoming, &text_of(&a)).unwrap();
    assert_eq!(event.message_type, "typing_status");
    assert_eq!(event.user_id, "claimed");
    assert!(event.is_typing);
    assert_eq!(recipients.len(), 1);
    assert_eq!(recipients[0].user_id, text_of(&b));
    let stored = store.conversations.get(&id).unwrap();
    assert_eq!(stored.typing_users.get(&text_of(&a)), Some(&true));
    let unknown = TypingStatusMessage { conversation_id: "conv-9-9".to_string(), ..incoming };
    assert_eq!(
        handle_typing_status(&mut store, &clients, &unknown, &text_of(&a)).unwrap_err(),
        "Conversation not found"
    );
}
