use icp_hackathon_backend::listing::Listing;
use icp_hackathon_backend::market::Marketplace;
use icp_hackathon_backend::user::User;

const DESCRIPTION: &str = "A well kept city bicycle with new tyres, lights and a lock.";

fn register(market: &mut Marketplace, id: &str, name: &str) -> User {
    market
        .add_user(
            id,
            name.to_string(),
            format!("{id}@example.com"),
            "123456789".to_string(),
            "Trade Company".to_string(),
            1,
        )
        .unwrap()
}

fn offer(market: &mut Marketplace, owner: &str, title: &str) -> Result<Listing, String> {
    market.add_listing(
        owner,
        title.to_string(),
        DESCRIPTION.to_string(),
        "Vehicles".to_string(),
        0x4059_0000_0000_0000,
        3,
        vec![],
        "Vehicles/Bicycles".to_string(),
        50,
    )
}

fn market_with_listing() -> Marketplace {
    let mut market = Marketplace::new();
    register(&mut market, "alice", "Alice Seller");
    register(&mut market, "bob", "Bob the Buyer");
    offer(&mut market, "alice", "Vintage bicycle for sale").unwrap();
    market
}

#[test]
fn new_marketplace_is_empty() {
    let market = Marketplace::new();
    assert!(market.get_listings().is_empty());
    assert!(market.get_users().is_empty());
    assert_eq!(market.next_listing_id, 0);
    assert_eq!(market.get_image_by_id(0), None);
    assert_eq!(market.get_config().max_title_len, 250);
    assert_eq!(market.get_categories().len(), 7);
}

#[test]
fn add_user_registers_once() {
    let mut market = Marketplace::new();
    let user = register(&mut market, "alice", "Alice Seller");
    assert_eq!(user.id, "alice");
    assert_eq!(user.name, "Alice Seller");
    assert_eq!(user.email, "alice@example.com");
    assert_eq!(user.phone_number, "123456789");
    assert_eq!(user.company_name, "Trade Company");
    assert_eq!(user.creation_date, 1);
    assert_eq!(user.favorites_id, None);
    let again = market.add_user(
        "alice",
        "Alice Again".to_string(),
        "a@example.com".to_string(),
        "123456789".to_string(),
        "Trade Company".to_string(),
        2,
    );
    assert_eq!(again.unwrap_err(), "Użytkownik już istnieje!");
    assert_eq!(market.get_users().len(), 1);
    assert_eq!(market.get_active_user("alice").unwrap().name, "Alice Seller");
    assert!(market.get_active_user("bob").is_none());
    assert_eq!(market.get_user_by_principal("alice").unwrap().creation_date, 1);
}

#[test]
fn add_user_checks_each_text() {
    let mut market = Marketplace::new();
    let mut attempt = |name: &str, email: &str, phone: &str, company: &str| {
        market
            .add_user(
                "alice",
                name.to_string(),
                email.to_string(),
                phone.to_string(),
                company.to_string(),
                1,
            )
            .map(|user| user.id)
    };
    assert_eq!(
        attempt("Al", "alice@example.com", "123456789", "Company"),
        Err("Długość nazwy użytkownika jest poza zakresem!".to_string())
    );
    assert_eq!(
        attempt(&"x".repeat(51), "alice@example.com", "123456789", "Company"),
        Err("Długość nazwy użytkownika jest poza zakresem!".to_string())
    );
    assert_eq!(
        attempt("Alice", "alice.example.com", "123456789", "Company"),
        Err("Nieprawidłowy adres e-mail!".to_string())
    );
    assert_eq!(
        attempt("Alice", "alice@example.com", "12345678", "Company"),
        Err("Nieprawidłowy numer telefonu!".to_string())
    );
    assert_eq!(
        attempt("Alice", "alice@example.com", "123456789", "Co"),
        Err("Długość nazwy firmy jest poza zakresem!".to_string())
    );
    assert_eq!(
        attempt("Alice", "alice@example.com", "123456789", &"c".repeat(51)),
        Err("Długość nazwy firmy jest poza zakresem!".to_string())
    );
    assert_eq!(
        attempt("Alice", "alice@example.com", "123456789", &"c".repeat(50)),
        Ok("alice".to_string())
    );
}

#[test]
fn add_empty_user_registers_a_blank_profile() {
    let mut market = Marketplace::new();
    let user = market.add_empty_user("carol", 9).unwrap();
    assert_eq!(user.id, "carol");
    assert_eq!(user.name, "");
    assert_eq!(user.email, "");
    assert_eq!(user.phone_number, "");
    assert_eq!(user.company_name, "");
    assert_eq!(user.creation_date, 9);
    assert_eq!(market.add_empty_user("carol", 10).unwrap_err(), "Użytkownik już istnieje!");
    assert_eq!(market.get_users().len(), 1);
}

#[test]
fn edit_active_user_changes_the_texts_only() {
    let mut market = Marketplace::new();
    assert_eq!(
        market.edit_active_user(
            "alice",
            "Alice".to_string(),
            "a@b.io".to_string(),
            "000000000".to_string(),
            "Company".to_string()
        ),
        Some("Nie znaleziono użytkownika!".to_string())
    );
    register(&mut market, "alice", "Alice Seller");
    assert_eq!(
        market.edit_active_user(
            "alice",
            "Alice Renamed".to_string(),
            "new@example.org".to_string(),
            "987654321".to_string(),
            "New Company".to_string()
        ),
        None
    );
    let user = market.get_active_user("alice").unwrap();
    assert_eq!(user.name, "Alice Renamed");
    assert_eq!(user.email, "new@example.org");
    assert_eq!(user.phone_number, "987654321");
    assert_eq!(user.company_name, "New Company");
    assert_eq!(user.creation_date, 1);
    assert_eq!(
        market.edit_active_user(
            "alice",
            "Alice Renamed".to_string(),
            "not an address".to_string(),
            "987654321".to_string(),
            "New Company".to_string()
        ),
        Some("Nieprawidłowy adres e-mail!".to_string())
    );
    assert_eq!(market.get_active_user("alice").unwrap().email, "new@example.org");
}

#[test]
fn add_listing_numbers_listings_upwards() {
    let mut market = Marketplace::new();
    register(&mut market, "alice", "Alice Seller");
    let first = offer(&mut market, "alice", "Vintage bicycle for sale").unwrap();
    let second = offer(&mut market, "alice", "Another bicycle for sale").unwrap();
    assert_eq!(first.id, 0);
    assert_eq!(second.id, 1);
    assert_eq!(first.title, "Vintage bicycle for sale");
    assert_eq!(first.description, DESCRIPTION);
    assert_eq!(first.category, "Vehicles");
    assert_eq!(first.price_bits, 0x4059_0000_0000_0000);
    assert_eq!(f64::from_bits(first.price_bits), 100.0);
    assert_eq!(first.amount, 3);
    assert_eq!(first.owner_id, "alice");
    assert_eq!(first.date, 50);
    assert_eq!(first.categories_path, "Vehicles/Bicycles");
    assert!(first.images_id.is_empty());
    assert!(first.reviews.is_none());
    assert_eq!(market.next_listing_id, 2);
    assert_eq!(market.get_listings().len(), 2);
    assert_eq!(market.get_listing_by_id(1).unwrap().title, "Another bicycle for sale");
    assert!(market.get_listing_by_id(2).is_none());
}

#[test]
fn add_listing_needs_a_registered_owner() {
    let mut market = Marketplace::new();
    let result = market.add_listing(
        "nobody",
        "Vintage bicycle for sale".to_string(),
        DESCRIPTION.to_string(),
        "Vehicles".to_string(),
        0,
        1,
        vec!["image".to_string()],
        "Vehicles".to_string(),
        1,
    );
    assert_eq!(result.unwrap_err(), "Nie znaleziono użytkownika!");
    assert!(market.images.is_empty());
    assert_eq!(market.next_listing_id, 0);
}

#[test]
fn add_listing_stores_images_in_base64() {
    let mut market = Marketplace::new();
    register(&mut market, "alice", "Alice Seller");
    let listing = market
        .add_listing(
            "alice",
            "Vintage bicycle for sale".to_string(),
            DESCRIPTION.to_string(),
            "Vehicles".to_string(),
            0,
            1,
            vec!["hello".to_string(), "".to_string(), "ab".to_string()],
            "Vehicles".to_string(),
            1,
        )
        .unwrap();
    assert_eq!(listing.images_id, vec![0, 1, 2]);
    assert_eq!(market.get_image_by_id(0), Some("aGVsbG8=".to_string()));
    assert_eq!(market.get_image_by_id(1), Some("".to_string()));
    assert_eq!(market.get_image_by_id(2), Some("YWI=".to_string()));
    assert_eq!(market.get_image_by_id(3), None);
    let next = market
        .add_listing(
            "alice",
            "Another bicycle for sale".to_string(),
            DESCRIPTION.to_string(),
            "Vehicles".to_string(),
            0,
            1,
            vec!["hello world".to_string()],
            "Vehicles".to_string(),
            2,
        )
        .unwrap();
    assert_eq!(next.images_id, vec![3]);
    assert_eq!(market.get_image_by_id(3), Some("aGVsbG8gd29ybGQ=".to_string()));
}

#[test]
fn add_listing_keeps_images_of_a_refused_listing() {
    let mut market = Marketplace::new();
    register(&mut market, "alice", "Alice Seller");
    let result = market.add_listing(
        "alice",
        "Too short".to_string(),
        DESCRIPTION.to_string(),
        "Vehicles".to_string(),
        0,
        1,
        vec!["hello".to_string()],
        "Vehicles".to_string(),
        1,
    );
    assert_eq!(result.unwrap_err(), "Długość tytułu jest poza zakresem!");
    assert_eq!(market.images, vec!["aGVsbG8=".to_string()]);
    assert!(market.listings.is_empty());
    assert_eq!(market.next_listing_id, 0);
    let result = market.add_listing(
        "alice",
        "Vintage bicycle for sale".to_string(),
        "Too short".to_string(),
        "Vehicles".to_string(),
        0,
        1,
        vec!["ab".to_string()],
        "Vehicles".to_string(),
        1,
    );
    assert_eq!(result.unwrap_err(), "Długość opisu jest poza zakresem!");
    assert_eq!(market.images.len(), 2);
    assert!(market.listings.is_empty());
}

#[test]
fn title_length_bounds_are_both_allowed() {
    let mut market = Marketplace::new();
    register(&mut market, "alice", "Alice Seller");
    let min = market.config.min_title_len as usize;
    let max = market.config.max_title_len as usize;
    assert_eq!((min, max), (12, 250));
    assert!(offer(&mut market, "alice", &"t".repeat(min)).is_ok());
    assert!(offer(&mut market, "alice", &"t".repeat(max)).is_ok());
    assert_eq!(
        offer(&mut market, "alice", &"t".repeat(min - 1)).unwrap_err(),
        "Długość tytułu jest poza zakresem!"
    );
    assert_eq!(
        offer(&mut market, "alice", &"t".repeat(max + 1)).unwrap_err(),
        "Długość tytułu jest poza zakresem!"
    );
    assert_eq!(market.get_listings().len(), 2);
}

#[test]
fn title_length_is_counted_in_bytes() {
    let mut market = Marketplace::new();
    register(&mut market, "alice", "Alice Seller");
    // Six characters of two bytes each: twelve bytes.
    assert!(offer(&mut market, "alice", "żżżżżż").is_ok());
    // Eleven characters of one byte each.
    assert!(offer(&mut market, "alice", "elevenchars").is_err());
}

#[test]
fn description_length_bounds_are_both_allowed() {
    let mut market = Marketplace::new();
    register(&mut market, "alice", "Alice Seller");
    let mut attempt = |length: usize| {
        market
            .add_listing(
                "alice",
                "Vintage bicycle for sale".to_string(),
                "d".repeat(length),
                "Vehicles".to_string(),
                0,
                1,
                vec![],
                "Vehicles".to_string(),
                1,
            )
            .map(|listing| listing.id)
    };
    assert_eq!(attempt(49), Err("Długość opisu jest poza zakresem!".to_string()));
    assert_eq!(attempt(50), Ok(0));
    assert_eq!(attempt(2000), Ok(1));
    assert_eq!(attempt(2001), Err("Długość opisu jest poza zakresem!".to_string()));
}

#[test]
fn edit_listing_by_its_owner_changes_it() {
    let mut market = market_with_listing();
    let result = market.edit_listing(
        "alice",
        0,
        "Vintage bicycle, now cheaper".to_string(),
        DESCRIPTION.to_string() + " Price lowered.",
        "Bicycles".to_string(),
        7,
        1,
        vec!["pic".to_string()],
        "Vehicles/Bicycles/City".to_string(),
    );
    assert_eq!(result, Ok("Ogłoszenie zostało pomyślnie zaktualizowane!".to_string()));
    let listing = market.get_listing_by_id(0).unwrap();
    assert_eq!(listing.title, "Vintage bicycle, now cheaper");
    assert_eq!(listing.description, DESCRIPTION.to_string() + " Price lowered.");
    assert_eq!(listing.category, "Bicycles");
    assert_eq!(listing.price_bits, 7);
    assert_eq!(listing.amount, 1);
    assert_eq!(listing.categories_path, "Vehicles/Bicycles/City");
    assert_eq!(listing.images_id, vec![0]);
    assert_eq!(listing.owner_id, "alice");
    assert_eq!(listing.date, 50);
    assert_eq!(listing.id, 0);
    assert_eq!(market.get_image_by_id(0), Some("cGlj".to_string()));
}

#[test]
fn edit_listing_by_another_user_is_refused() {
    let mut market = market_with_listing();
    let before = market.get_listing_by_id(0).unwrap();
    let result = market.edit_listing(
        "bob",
        0,
        "Stolen bicycle for sale".to_string(),
        DESCRIPTION.to_string(),
        "Other".to_string(),
        1,
        1,
        vec![],
        "Other".to_string(),
    );
    assert_eq!(
        result,
        Err("Brak uprawnień: Nie jesteś właścicielem tego ogłoszenia.".to_string())
    );
    let after = market.get_listing_by_id(0).unwrap();
    assert_eq!(after.title, before.title);
    assert_eq!(after.description, before.description);
    assert_eq!(after.category, before.category);
    assert_eq!(after.price_bits, before.price_bits);
    assert_eq!(after.amount, before.amount);
    assert_eq!(after.categories_path, before.categories_path);
    assert_eq!(after.images_id, before.images_id);
}

#[test]
fn edit_listing_checks_ownership_before_texts() {
    let mut market = market_with_listing();
    let mut attempt = |caller: &str, id: u64, title: &str, description: &str| {
        market.edit_listing(
            caller,
            id,
            title.to_string(),
            description.to_string(),
            "Vehicles".to_string(),
            1,
            1,
            vec![],
            "Vehicles".to_string(),
        )
    };
    let refused = Err("Brak uprawnień: Nie jesteś właścicielem tego ogłoszenia.".to_string());
    assert_eq!(attempt("bob", 0, "short", DESCRIPTION), refused);
    assert_eq!(attempt("bob", 0, &"t".repeat(251), DESCRIPTION), refused);
    assert_eq!(attempt("bob", 0, "Vintage bicycle for sale", "short"), refused);
    assert_eq!(attempt("bob", 0, "", ""), refused);
    assert_eq!(attempt("stranger", 0, "short", "short"), refused);
    assert_eq!(
        attempt("alice", 0, "short", DESCRIPTION),
        Err("Długość tytułu jest nieprawidłowa!".to_string())
    );
    assert_eq!(
        attempt("alice", 0, "Vintage bicycle for sale", "short"),
        Err("Długość opisu jest nieprawidłowa!".to_string())
    );
    assert_eq!(
        attempt("bob", 9, "short", DESCRIPTION),
        Err("Długość tytułu jest nieprawidłowa!".to_string())
    );
    assert_eq!(
        attempt("alice", 9, "Vintage bicycle for sale", DESCRIPTION),
        Err("Nie znaleziono ogłoszenia!".to_string())
    );
}

#[test]
fn edit_listing_by_another_user_leaves_every_field() {
    let mut market = market_with_listing();
    market.add_review("bob", 0, 4, "Fine".to_string()).unwrap();
    let before = market.get_listings();
    for (title, description) in
        [("short", "short"), ("Stolen bicycle for sale", DESCRIPTION), ("", DESCRIPTION)]
    {
        let result = market.edit_listing(
            "bob",
            0,
            title.to_string(),
            description.to_string(),
            "Other".to_string(),
            9,
            9,
            vec!["picture".to_string()],
            "Other".to_string(),
        );
        assert_eq!(
            result,
            Err("Brak uprawnień: Nie jesteś właścicielem tego ogłoszenia.".to_string())
        );
    }
    let after = market.get_listings();
    assert_eq!(after.len(), before.len());
    for (a, b) in after.iter().zip(before.iter()) {
        assert_eq!(a.id, b.id);
        assert_eq!(a.title, b.title);
        assert_eq!(a.date, b.date);
        assert_eq!(a.description, b.description);
        assert_eq!(a.category, b.category);
        assert_eq!(a.price_bits, b.price_bits);
        assert_eq!(a.amount, b.amount);
        assert_eq!(a.owner_id, b.owner_id);
        assert_eq!(a.images_id, b.images_id);
        assert_eq!(a.categories_path, b.categories_path);
        assert_eq!(a.reviews.as_ref().unwrap().len(), b.reviews.as_ref().unwrap().len());
        assert_eq!(a.reviews.as_ref().unwrap()[0].comment, "Fine");
    }
    // The images of the refused requests stay stored.
    assert_eq!(market.images.len(), 3);
}

#[test]
fn delete_listing_is_for_the_owner() {
    let mut market = market_with_listing();
    assert_eq!(
        market.delete_listing("bob", 0),
        Some("Brak uprawnień: Nie jesteś właścicielem tego ogłoszenia.".to_string())
    );
    assert_eq!(market.get_listings().len(), 1);
    assert_eq!(market.delete_listing("alice", 5), Some("Nie znaleziono ogłoszenia.".to_string()));
    assert_eq!(market.delete_listing("alice", 0), None);
    assert!(market.get_listings().is_empty());
    assert_eq!(market.delete_listing("alice", 0), Some("Nie znaleziono ogłoszenia.".to_string()));
    // The number of a deleted listing is not given again.
    assert_eq!(offer(&mut market, "alice", "Vintage bicycle for sale").unwrap().id, 1);
}

#[test]
fn listings_are_found_by_category_number_and_owner() {
    let mut market = market_with_listing();
    market
        .add_listing(
            "bob",
            "Garden table and chairs".to_string(),
            DESCRIPTION.to_string(),
            "Home & Garden".to_string(),
            0,
            1,
            vec![],
            "Home & Garden/Furniture".to_string(),
            60,
        )
        .unwrap();
    offer(&mut market, "alice", "Second bicycle for sale").unwrap();
    assert_eq!(market.get_listings_id_by_category("Vehicles"), vec![0, 2]);
    assert_eq!(market.get_listings_id_by_category("Home & Garden"), vec![1]);
    assert!(market.get_listings_id_by_category("Books").is_empty());
    let found = market.get_listings_by_id(&vec![2, 7, 0, 2]);
    assert_eq!(found.iter().map(|l| l.id).collect::<Vec<_>>(), vec![0, 2]);
    assert!(market.get_listings_by_id(&vec![]).is_empty());
    let of_alice = market.get_listings_by_active_user("alice").unwrap();
    assert_eq!(of_alice.iter().map(|l| l.id).collect::<Vec<_>>(), vec![0, 2]);
    let of_bob = market.get_listings_by_active_user("bob").unwrap();
    assert_eq!(of_bob.iter().map(|l| l.id).collect::<Vec<_>>(), vec![1]);
    assert!(market.get_listings_by_active_user("stranger").unwrap().is_empty());
}

#[test]
fn favorites_are_kept_in_order_and_skip_own_listings() {
    let mut market = market_with_listing();
    market
        .add_listing(
            "bob",
            "Garden table and chairs".to_string(),
            DESCRIPTION.to_string(),
            "Home & Garden".to_string(),
            0,
            1,
            vec![],
            "Home & Garden/Furniture".to_string(),
            60,
        )
        .unwrap();
    offer(&mut market, "alice", "Second bicycle for sale").unwrap();
    assert!(market.get_active_user_favorite_listings("bob").is_empty());
    market.add_favorite_listing("bob", 2);
    market.add_favorite_listing("bob", 0);
    market.add_favorite_listing("bob", 1); // own listing
    market.add_favorite_listing("bob", 9); // no such listing
    market.add_favorite_listing("stranger", 0); // no such user
    assert_eq!(market.get_active_user("bob").unwrap().favorites_id, Some(vec![2, 0]));
    let favorites = market.get_active_user_favorite_listings("bob");
    assert_eq!(favorites.iter().map(|l| l.id).collect::<Vec<_>>(), vec![2, 0]);
    assert_eq!(market.delete_listing("alice", 2), None);
    let favorites = market.get_active_user_favorite_listings("bob");
    assert_eq!(favorites.iter().map(|l| l.id).collect::<Vec<_>>(), vec![0]);
    assert!(market.get_active_user_favorite_listings("stranger").is_empty());
    assert_eq!(market.get_active_user("alice").unwrap().favorites_id, None);
}
