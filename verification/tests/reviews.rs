use icp_hackathon_backend::market::Marketplace;
use icp_hackathon_backend::review::Review;
use icp_hackathon_backend::reviewing::RatingTotal;

fn market_with_listing() -> Marketplace {
    let mut market = Marketplace::new();
    for (id, name) in [("alice", "Alice Seller"), ("bob", "Bob the Buyer"), ("carol", "Carol")] {
        market
            .add_user(
                id,
                name.to_string(),
                format!("{id}@example.com"),
                "123456789".to_string(),
                "Trade Company".to_string(),
                1,
            )
            .unwrap();
    }
    market
        .add_listing(
            "alice",
            "Vintage bicycle for sale".to_string(),
            "A well kept city bicycle with new tyres, lights and a lock.".to_string(),
            "Vehicles".to_string(),
            0,
            1,
            vec![],
            "Vehicles/Bicycles".to_string(),
            50,
        )
        .unwrap();
    market
}

#[test]
fn review_new_keeps_its_arguments() {
    let review = Review::new("bob".to_string(), 4, "Fine".to_string());
    assert_eq!(review.owner_id, "bob");
    assert_eq!(review.rating, 4);
    assert_eq!(review.comment, "Fine");
    let copy = review.clone();
    assert_eq!(copy.owner_id, "bob");
    assert_eq!(copy.rating, 4);
}

#[test]
fn add_review_accepts_ratings_up_to_five_only() {
    for rating in 0..=5u8 {
        let mut market = market_with_listing();
        let review = market.add_review("bob", 0, rating, "ok".to_string()).unwrap();
        assert_eq!(review.rating, rating);
        assert_eq!(review.owner_id, "bob");
        assert_eq!(review.comment, "ok");
    }
    for rating in 6..=255u8 {
        let mut market = market_with_listing();
        assert_eq!(
            market.add_review("bob", 0, rating, "ok".to_string()).unwrap_err(),
            "Ocena musi być w zakresie od 0 do 5."
        );
        assert!(market.get_listing_by_id(0).unwrap().reviews.is_none());
    }
}

#[test]
fn add_review_is_refused_the_second_time() {
    let mut market = market_with_listing();
    assert!(market.add_review("bob", 0, 5, "Great".to_string()).is_ok());
    assert_eq!(
        market.add_review("bob", 0, 1, "Changed my mind".to_string()).unwrap_err(),
        "Już dodałeś opinię dla tego ogłoszenia."
    );
    let reviews = market.get_reviews_of_listing(0).unwrap();
    assert_eq!(reviews.len(), 1);
    assert_eq!(reviews[0].rating, 5);
    assert_eq!(reviews[0].comment, "Great");
    assert!(market.add_review("carol", 0, 2, "Meh".to_string()).is_ok());
    assert_eq!(market.get_reviews_of_listing(0).unwrap().len(), 2);
}

#[test]
fn add_review_names_what_is_missing() {
    let mut market = market_with_listing();
    assert_eq!(
        market.add_review("stranger", 0, 3, "x".to_string()).unwrap_err(),
        "Nie znaleziono użytkownika."
    );
    assert_eq!(
        market.add_review("bob", 4, 3, "x".to_string()).unwrap_err(),
        "Nie znaleziono ogłoszenia."
    );
    assert_eq!(
        market.add_review("alice", 0, 3, "x".to_string()).unwrap_err(),
        "Nie możesz wystawić opinii pod własnym ogłoszeniem."
    );
    // The rating is checked first.
    assert_eq!(
        market.add_review("stranger", 4, 6, "x".to_string()).unwrap_err(),
        "Ocena musi być w zakresie od 0 do 5."
    );
}

#[test]
fn edit_review_changes_rating_and_comment() {
    let mut market = market_with_listing();
    assert_eq!(
        market.edit_review("bob", 0, 3, "x".to_string()),
        Some("Nie znaleziono opinii.".to_string())
    );
    market.add_review("bob", 0, 5, "Great".to_string()).unwrap();
    market.add_review("carol", 0, 1, "Bad".to_string()).unwrap();
    assert_eq!(market.edit_review("bob", 0, 2, "Less great".to_string()), None);
    let reviews = market.get_reviews_of_listing(0).unwrap();
    assert_eq!(reviews[0].owner_id, "bob");
    assert_eq!(reviews[0].rating, 2);
    assert_eq!(reviews[0].comment, "Less great");
    assert_eq!(reviews[1].rating, 1);
    assert_eq!(
        market.edit_review("bob", 0, 6, "x".to_string()),
        Some("Ocena musi być w zakresie od 0 do 5.".to_string())
    );
    assert_eq!(
        market.edit_review("stranger", 0, 3, "x".to_string()),
        Some("Nie znaleziono użytkownika!".to_string())
    );
    assert_eq!(
        market.edit_review("bob", 8, 3, "x".to_string()),
        Some("Nie znaleziono ogłoszenia.".to_string())
    );
    assert_eq!(
        market.edit_review("alice", 0, 3, "x".to_string()),
        Some("Nie znaleziono opinii.".to_string())
    );
}

#[test]
fn delete_review_removes_only_the_callers_review() {
    let mut market = market_with_listing();
    assert_eq!(market.delete_review("bob", 3), Some("Nie znaleziono ogłoszenia.".to_string()));
    assert_eq!(market.delete_review("bob", 0), Some("Nie znaleziono opinii.".to_string()));
    market.add_review("bob", 0, 5, "Great".to_string()).unwrap();
    market.add_review("carol", 0, 1, "Bad".to_string()).unwrap();
    assert_eq!(market.delete_review("bob", 0), None);
    let reviews = market.get_reviews_of_listing(0).unwrap();
    assert_eq!(reviews.len(), 1);
    assert_eq!(reviews[0].owner_id, "carol");
    assert_eq!(market.delete_review("bob", 0), Some("Nie znaleziono opinii.".to_string()));
    // After deleting, the user may review again.
    assert!(market.add_review("bob", 0, 4, "Again".to_string()).is_ok());
}

#[test]
fn reviews_of_listing_tell_why_there_are_none() {
    let mut market = market_with_listing();
    assert_eq!(market.get_reviews_of_listing(3).unwrap_err(), "Nie znaleziono ogłoszenia.");
    assert_eq!(market.get_reviews_of_listing(0).unwrap_err(), "Brak opinii dla tego ogłoszenia.");
    market.add_review("bob", 0, 5, "Great".to_string()).unwrap();
    market.delete_review("bob", 0);
    assert!(market.get_reviews_of_listing(0).unwrap().is_empty());
}

#[test]
fn average_rating_is_the_sum_over_the_count() {
    let mut market = market_with_listing();
    assert_eq!(
        market.calculate_average_rating_of_listing(3).unwrap_err(),
        "Nie znaleziono ogłoszenia."
    );
    assert_eq!(
        market.calculate_average_rating_of_listing(0).unwrap_err(),
        "Brak opinii dla tego ogłoszenia."
    );
    market.add_review("bob", 0, 5, "Great".to_string()).unwrap();
    assert_eq!(
        market.calculate_average_rating_of_listing(0),
        Ok(RatingTotal { sum: 5, count: 1 })
    );
    market.add_review("carol", 0, 2, "Meh".to_string()).unwrap();
    let total = market.calculate_average_rating_of_listing(0).unwrap();
    assert_eq!(total, RatingTotal { sum: 7, count: 2 });
    assert_eq!(total.sum as f64 / total.count as f64, 3.5);
    market.delete_review("bob", 0);
    market.delete_review("carol", 0);
    assert_eq!(
        market.calculate_average_rating_of_listing(0).unwrap_err(),
        "Brak opinii dla tego ogłoszenia."
    );
}
