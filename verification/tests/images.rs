use icp_hackathon_backend::chat::{get_or_create_conversation, ChatStore};
use icp_hackathon_backend::images::encode_images;
use icp_hackathon_backend::market::Marketplace;

fn market_with_user() -> Marketplace {
    let mut market = Marketplace::new();
    market
        .add_user(
            "alice",
            "Alice Seller".to_string(),
            "alice@example.com".to_string(),
            "123456789".to_string(),
            "Trade Company".to_string(),
            1,
        )
        .unwrap();
    market
}

#[test]
fn encode_images_puts_each_image_into_base64() {
    assert!(encode_images(&vec![]).is_empty());
    let encoded = encode_images(&vec![
        "hello".to_string(),
        "".to_string(),
        "a".to_string(),
        "ab".to_string(),
        "abc".to_string(),
        "żółw".to_string(),
        "\u{0}\u{7f}".to_string(),
    ]);
    assert_eq!(encoded, ["aGVsbG8=", "", "YQ==", "YWI=", "YWJj", "xbzDs8WCdw==", "AH8="]);
}

#[test]
fn add_listing_encoded_stores_images_as_given() {
    let mut market = market_with_user();
    let listing = market
        .add_listing_encoded(
            "alice",
            "Vintage bicycle for sale".to_string(),
            "A well kept city bicycle with new tyres, lights and a lock.".to_string(),
            "Vehicles".to_string(),
            0,
            1,
            vec!["first".to_string(), "second".to_string()],
            "Vehicles".to_string(),
            5,
        )
        .unwrap();
    assert_eq!(listing.images_id, vec![0, 1]);
    assert_eq!(market.images, ["first", "second"]);
    assert_eq!(market.get_image_by_id(1), Some("second".to_string()));
}

#[test]
fn edit_listing_encoded_stores_images_as_given() {
    let mut market = market_with_user();
    market
        .add_listing_encoded(
            "alice",
            "Vintage bicycle for sale".to_string(),
            "A well kept city bicycle with new tyres, lights and a lock.".to_string(),
            "Vehicles".to_string(),
            0,
            1,
            vec!["first".to_string()],
            "Vehicles".to_string(),
            5,
        )
        .unwrap();
    let result = market.edit_listing_encoded(
        "alice",
        0,
        "Vintage bicycle for sale".to_string(),
        "A well kept city bicycle with new tyres, lights and a lock.".to_string(),
        "Vehicles".to_string(),
        0,
        1,
        vec!["second".to_string(), "third".to_string()],
        "Vehicles".to_string(),
    );
    assert!(result.is_ok());
    assert_eq!(market.images, ["first", "second", "third"]);
    assert_eq!(market.get_listing_by_id(0).unwrap().images_id, vec![1, 2]);
    // Images of a refused change stay stored.
    let refused = market.edit_listing_encoded(
        "mallory",
        0,
        "Vintage bicycle for sale".to_string(),
        "A well kept city bicycle with new tyres, lights and a lock.".to_string(),
        "Vehicles".to_string(),
        0,
        1,
        vec!["fourth".to_string()],
        "Vehicles".to_string(),
    );
    assert!(refused.is_err());
    assert_eq!(market.images.len(), 4);
    assert_eq!(market.get_listing_by_id(0).unwrap().images_id, vec![1, 2]);
}

#[test]
fn chat_store_tells_whether_it_is_well_formed() {
    let mut store = ChatStore::new();
    assert!(store.is_well_formed());
    let conversation = get_or_create_conversation(
        &mut store,
        1,
        "One".to_string(),
        "alice".to_string(),
        "bob".to_string(),
        10,
    );
    assert!(store.is_well_formed());
    assert!(store.has_room(&conversation.id, "alice"));
    assert!(store.has_room("no such conversation", "alice"));
    store.conversation_keys.insert("9:x:y".to_string(), "conv-9-9".to_string());
    assert!(!store.is_well_formed());
    store.conversation_keys.remove("9:x:y");
    assert!(store.is_well_formed());
    let mut moved = store.conversations.remove(&conversation.id).unwrap();
    moved.id = "conv-1-11".to_string();
    store.conversations.insert(conversation.id.clone(), moved);
    assert!(!store.is_well_formed());
}
