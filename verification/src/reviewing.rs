//! Reviews of listings: one per user and listing, none by the owner, each
//! with a rating from 0 to 5.

use crate::listing::{listing_views, ListingView};
use crate::market::{
    error_view, find_listing, find_user, listing_position, result_view, user_position,
    Marketplace, MarketplaceView,
};
use crate::review::{review_views, Review, ReviewView};
use crate::text::str_equal;
use vstd::prelude::*;

verus! {

/// The highest rating.
pub const MAX_RATING: u8 = 5;

/// Whether `i` is the first position at which `reviews` holds the review of
/// `owner`.
pub open spec fn is_review_position(reviews: Seq<ReviewView>, owner: Seq<char>, i: int) -> bool {
    &&& 0 <= i < reviews.len()
    &&& reviews[i].owner_id == owner
    &&& forall|j: int| 0 <= j < i ==> (#[trigger] reviews[j]).owner_id != owner
}

/// The first position at which `reviews` holds the review of `owner`.
pub open spec fn review_position(reviews: Seq<ReviewView>, owner: Seq<char>) -> Option<int> {
    if exists|i: int| is_review_position(reviews, owner, i) {
        Some(choose|i: int| is_review_position(reviews, owner, i))
    } else {
        None
    }
}

/// The position of the review of `owner` among the reviews of a listing;
/// none for a listing that was never reviewed.
pub open spec fn review_position_in(listing: ListingView, owner: Seq<char>) -> Option<int> {
    match listing.reviews {
        Some(reviews) => review_position(reviews, owner),
        None => None,
    }
}

/// The sum of the ratings of `reviews`.
pub open spec fn rating_sum(reviews: Seq<ReviewView>) -> nat
    decreases reviews.len(),
{
    if reviews.len() == 0 {
        0
    } else {
        rating_sum(reviews.drop_last()) + reviews.last().rating as nat
    }
}

/// The ratings of a listing added up, with their number: the mean rating is
/// `sum` divided by `count`.
#[derive(Clone, Copy, Debug, PartialEq, Eq, Structural)]
pub struct RatingTotal {
    pub sum: u128,
    pub count: usize,
}

impl MarketplaceView {
    /// The state with `listing` at position `i`.
    pub open spec fn with_listing(self, i: int, listing: ListingView) -> MarketplaceView {
        MarketplaceView { listings: self.listings.update(i, listing), ..self }
    }

    /// What comes of a request to review a listing. The rating must be at
    /// most 5, the caller a user and not the owner of the listing, and the
    /// caller's first review of it.
    pub open spec fn add_review(
        self,
        caller: Seq<char>,
        listing_id: u64,
        rating: u8,
        comment: Seq<char>,
    ) -> (MarketplaceView, Result<ReviewView, Seq<char>>) {
        if rating > MAX_RATING {
            (self, Err("Ocena musi być w zakresie od 0 do 5."@))
        } else if user_position(self.users, caller) is None {
            (self, Err("Nie znaleziono użytkownika."@))
        } else {
            match listing_position(self.listings, listing_id) {
                None => (self, Err("Nie znaleziono ogłoszenia."@)),
                Some(i) => {
                    let listing = self.listings[i];
                    if listing.owner_id == caller {
                        (self, Err("Nie możesz wystawić opinii pod własnym ogłoszeniem."@))
                    } else if review_position_in(listing, caller) is Some {
                        (self, Err("Już dodałeś opinię dla tego ogłoszenia."@))
                    } else {
                        let review = ReviewView { owner_id: caller, rating, comment };
                        let reviews = match listing.reviews {
                            Some(reviews) => reviews.push(review),
                            None => seq![review],
                        };
                        (
                            self.with_listing(
                                i,
                                ListingView { reviews: Some(reviews), ..listing },
                            ),
                            Ok(review),
                        )
                    }
                },
            }
        }
    }

    /// What comes of a request to change the caller's review of a listing.
    pub open spec fn edit_review(
        self,
        caller: Seq<char>,
        listing_id: u64,
        rating: u8,
        comment: Seq<char>,
    ) -> (MarketplaceView, Option<Seq<char>>) {
        if rating > MAX_RATING {
            (self, Some("Ocena musi być w zakresie od 0 do 5."@))
        } else if user_position(self.users, caller) is None {
            (self, Some("Nie znaleziono użytkownika!"@))
        } else {
            match listing_position(self.listings, listing_id) {
                None => (self, Some("Nie znaleziono ogłoszenia."@)),
                Some(i) => {
                    let listing = self.listings[i];
                    match review_position_in(listing, caller) {
                        None => (self, Some("Nie znaleziono opinii."@)),
                        Some(r) => {
                            let reviews = listing.reviews->0;
                            (
                                self.with_listing(
                                    i,
                                    ListingView {
                                        reviews: Some(
                                            reviews.update(
                                                r,
                                                ReviewView { rating, comment, ..reviews[r] },
                                            ),
                                        ),
                                        ..listing
                                    },
                                ),
                                None,
                            )
                        },
                    }
                },
            }
        }
    }

    /// What comes of a request to delete the caller's review of a listing.
    pub open spec fn delete_review(self, caller: Seq<char>, listing_id: u64) -> (
        MarketplaceView,
        Option<Seq<char>>,
    ) {
        match listing_position(self.listings, listing_id) {
            None => (self, Some("Nie znaleziono ogłoszenia."@)),
            Some(i) => {
                let listing = self.listings[i];
                match review_position_in(listing, caller) {
                    None => (self, Some("Nie znaleziono opinii."@)),
                    Some(r) => (
                        self.with_listing(
                            i,
                            ListingView {
                                reviews: Some((listing.reviews->0).remove(r)),
                                ..listing
                            },
                        ),
                        None,
                    ),
                }
            },
        }
    }

    /// The reviews of a listing, or why there are none to show.
    pub open spec fn reviews_of_listing(self, listing_id: u64) -> Result<
        Seq<ReviewView>,
        Seq<char>,
    > {
        match self.listing(listing_id) {
            None => Err("Nie znaleziono ogłoszenia."@),
            Some(listing) => match listing.reviews {
                None => Err("Brak opinii dla tego ogłoszenia."@),
                Some(reviews) => Ok(reviews),
            },
        }
    }

    /// The ratings of a listing added up, with their number, or why there
    /// is no mean rating.
    pub open spec fn rating_total(self, listing_id: u64) -> Result<(nat, nat), Seq<char>> {
        match self.listing(listing_id) {
            None => Err("Nie znaleziono ogłoszenia."@),
            Some(listing) => match listing.reviews {
                None => Err("Brak opinii dla tego ogłoszenia."@),
                Some(reviews) => if reviews.len() == 0 {
                    Err("Brak opinii dla tego ogłoszenia."@)
                } else {
                    Ok((rating_sum(reviews), reviews.len()))
                },
            },
        }
    }
}

/// Where no position is the first to hold a review, no position holds it.
pub proof fn lemma_no_review_position(
    reviews: Seq<ReviewView>,
    owner: Seq<char>,
    j: int,
)
    requires
        review_position(reviews, owner) is None,
        0 <= j < reviews.len(),
    ensures
        reviews[j].owner_id != owner,
    decreases j,
{
    if reviews[j].owner_id == owner {
        if forall|k: int| 0 <= k < j ==> (#[trigger] reviews[k]).owner_id != owner {
            assert(is_review_position(reviews, owner, j));
        } else {
            let k = choose|k: int| 0 <= k < j && (#[trigger] reviews[k]).owner_id == owner;
            lemma_no_review_position(reviews, owner, k);
        }
    }
}

/// The position of the review of `owner`, if there is one.
fn find_review(reviews: &Vec<Review>, owner: &str) -> (found: Option<usize>)
    ensures
        match found {
            Some(i) => review_position(review_views(reviews@), owner@) == Some(i as int),
            None => review_position(review_views(reviews@), owner@) is None,
        },
{
    let mut i: usize = 0;
    while i < reviews.len()
        invariant
            i <= reviews.len(),
            forall|j: int| 0 <= j < i ==> (#[trigger] review_views(reviews@)[j]).owner_id != owner@,
        decreases reviews.len() - i,
    {
        if str_equal(reviews[i].owner_id.as_str(), owner) {
            proof {
                let views = review_views(reviews@);
                assert(is_review_position(views, owner@, i as int));
            }
            return Some(i);
        }
        i += 1;
    }
    None
}

/// The position of the review of `owner` among the reviews of a listing.
fn find_review_in(reviews: &Option<Vec<Review>>, owner: &str) -> (found: Option<usize>)
    ensures
        match (found, *reviews) {
            (Some(i), Some(list)) => review_position(review_views(list@), owner@) == Some(
                i as int,
            ),
            (Some(_), None) => false,
            (None, Some(list)) => review_position(review_views(list@), owner@) is None,
            (None, None) => true,
        },
{
    match reviews {
        Some(list) => find_review(list, owner),
        None => None,
    }
}

impl Marketplace {
    /// Adds the review of `caller` to the listing numbered `listing_id`.
    pub fn add_review(&mut self, caller: &str, listing_id: u64, rating: u8, comment: String) -> (result:
        Result<Review, String>)
        ensures
            final(self)@ == old(self)@.add_review(caller@, listing_id, rating, comment@).0,
            result_view(result) == old(self)@.add_review(
                caller@,
                listing_id,
                rating,
                comment@,
            ).1,
            old(self)@.wf() ==> final(self)@.wf(),
    {
        if rating > MAX_RATING {
            return Err("Ocena musi być w zakresie od 0 do 5.".to_owned());
        }
        if find_user(&self.users, caller).is_none() {
            return Err("Nie znaleziono użytkownika.".to_owned());
        }
        let i = match find_listing(&self.listings, listing_id) {
            Some(i) => i,
            None => {
                return Err("Nie znaleziono ogłoszenia.".to_owned());
            },
        };
        if str_equal(self.listings[i].owner_id.as_str(), caller) {
            return Err("Nie możesz wystawić opinii pod własnym ogłoszeniem.".to_owned());
        }
        if find_review_in(&self.listings[i].reviews, caller).is_some() {
            return Err("Już dodałeś opinię dla tego ogłoszenia.".to_owned());
        }
        let review = Review::new(caller.to_owned(), rating, comment);
        let copy = review.clone();
        let ghost before = listing_views(self.listings@);
        let ghost target = old(self)@.add_review(caller@, listing_id, rating, comment@).0;
        let mut reviews = match self.listings[i].reviews.take() {
            Some(reviews) => reviews,
            None => Vec::new(),
        };
        reviews.push(review);
        self.listings[i].reviews = Some(reviews);
        proof {
            assert(self.listings@[i as int]@.reviews->0 =~= target.listings[i as int].reviews->0);
            assert(listing_views(self.listings@) =~= target.listings);
            if old(self)@.wf() {
                let old_listing = before[i as int];
                let new_reviews = target.listings[i as int].reviews->0;
                let last = new_reviews.len() - 1;
                if old_listing.reviews is Some {
                    let old_reviews = old_listing.reviews->0;
                    assert forall|j: int| 0 <= j < last implies (#[trigger] new_reviews[j])
                        == old_reviews[j] && new_reviews[j].owner_id != caller@ by {
                        lemma_no_review_position(old_reviews, caller@, j);
                    }
                }
            }
        }
        Ok(copy)
    }

    /// Changes the review of `caller` of the listing numbered `listing_id`.
    /// Hands back the text of an error, or none.
    pub fn edit_review(&mut self, caller: &str, listing_id: u64, rating: u8, comment: String) -> (result:
        Option<String>)
        ensures
            final(self)@ == old(self)@.edit_review(caller@, listing_id, rating, comment@).0,
            error_view(result) == old(self)@.edit_review(
                caller@,
                listing_id,
                rating,
                comment@,
            ).1,
            old(self)@.wf() ==> final(self)@.wf(),
    {
        if rating > MAX_RATING {
            return Some("Ocena musi być w zakresie od 0 do 5.".to_owned());
        }
        if find_user(&self.users, caller).is_none() {
            return Some("Nie znaleziono użytkownika!".to_owned());
        }
        let i = match find_listing(&self.listings, listing_id) {
            Some(i) => i,
            None => {
                return Some("Nie znaleziono ogłoszenia.".to_owned());
            },
        };
        let r = match find_review_in(&self.listings[i].reviews, caller) {
            Some(r) => r,
            None => {
                return Some("Nie znaleziono opinii.".to_owned());
            },
        };
        let ghost target = old(self)@.edit_review(caller@, listing_id, rating, comment@).0;
        let mut reviews = match self.listings[i].reviews.take() {
            Some(reviews) => reviews,
            None => Vec::new(),
        };
        reviews[r].rating = rating;
        reviews[r].comment = comment;
        self.listings[i].reviews = Some(reviews);
        proof {
            assert(self.listings@[i as int]@.reviews->0 =~= target.listings[i as int].reviews->0);
            assert(listing_views(self.listings@) =~= target.listings);
        }
        None
    }

    /// Deletes the review of `caller` of the listing numbered `listing_id`.
    /// Hands back the text of an error, or none.
    pub fn delete_review(&mut self, caller: &str, listing_id: u64) -> (result: Option<String>)
        ensures
            final(self)@ == old(self)@.delete_review(caller@, listing_id).0,
            error_view(result) == old(self)@.delete_review(caller@, listing_id).1,
            old(self)@.wf() ==> final(self)@.wf(),
    {
        let i = match find_listing(&self.listings, listing_id) {
            Some(i) => i,
            None => {
                return Some("Nie znaleziono ogłoszenia.".to_owned());
            },
        };
        let r = match find_review_in(&self.listings[i].reviews, caller) {
            Some(r) => r,
            None => {
                return Some("Nie znaleziono opinii.".to_owned());
            },
        };
        let ghost target = old(self)@.delete_review(caller@, listing_id).0;
        let mut reviews = match self.listings[i].reviews.take() {
            Some(reviews) => reviews,
            None => Vec::new(),
        };
        reviews.remove(r);
        self.listings[i].reviews = Some(reviews);
        proof {
            assert(self.listings@[i as int]@.reviews->0 =~= target.listings[i as int].reviews->0);
            assert(listing_views(self.listings@) =~= target.listings);
        }
        None
    }

    /// Copies of the reviews of the listing numbered `listing_id`.
    pub fn get_reviews_of_listing(&self, listing_id: u64) -> (result: Result<Vec<Review>, String>)
        ensures
            match result {
                Ok(reviews) => self@.reviews_of_listing(listing_id) == Ok::<
                    Seq<ReviewView>,
                    Seq<char>,
                >(review_views(reviews@)),
                Err(error) => self@.reviews_of_listing(listing_id) == Err::<
                    Seq<ReviewView>,
                    Seq<char>,
                >(error@),
            },
    {
        match find_listing(&self.listings, listing_id) {
            None => Err("Nie znaleziono ogłoszenia.".to_owned()),
            Some(i) => match &self.listings[i].reviews {
                None => Err("Brak opinii dla tego ogłoszenia.".to_owned()),
                Some(reviews) => {
                    let copies = reviews.clone();
                    Ok(copies)
                },
            },
        }
    }

    /// The ratings of the listing numbered `listing_id` added up, with
    /// their number.
    pub fn calculate_average_rating_of_listing(&self, listing_id: u64) -> (result: Result<
        RatingTotal,
        String,
    >)
        ensures
            match result {
                Ok(total) => self@.rating_total(listing_id) == Ok::<(nat, nat), Seq<char>>(
                    (total.sum as nat, total.count as nat),
                ),
                Err(error) => self@.rating_total(listing_id) == Err::<(nat, nat), Seq<char>>(
                    error@,
                ),
            },
    {
        match find_listing(&self.listings, listing_id) {
            None => Err("Nie znaleziono ogłoszenia.".to_owned()),
            Some(i) => match &self.listings[i].reviews {
                None => Err("Brak opinii dla tego ogłoszenia.".to_owned()),
                Some(reviews) => {
                    if reviews.len() == 0 {
                        return Err("Brak opinii dla tego ogłoszenia.".to_owned());
                    }
                    let ghost views = review_views(reviews@);
                    let mut sum: u128 = 0;
                    let mut k: usize = 0;
                    while k < reviews.len()
                        invariant
                            k <= reviews.len(),
                            views == review_views(reviews@),
                            sum == rating_sum(views.take(k as int)),
                            sum <= 255 * k,
                        decreases reviews.len() - k,
                    {
                        proof {
                            assert(views.take(k + 1).drop_last() =~= views.take(k as int));
                        }
                        sum = sum + reviews[k].rating as u128;
                        k += 1;
                    }
                    assert(views.take(k as int) =~= views);
                    Ok(RatingTotal { sum, count: reviews.len() })
                },
            },
        }
    }
}

} // verus!
