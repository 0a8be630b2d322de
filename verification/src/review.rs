//! Reviews of listings.

use vstd::prelude::*;

verus! {

/// One user's review of a listing.
#[derive(Debug)]
pub struct Review {
    pub owner_id: String,
    /// From 0 to 5.
    pub rating: u8,
    pub comment: String,
}

/// What a `Review` stands for.
pub struct ReviewView {
    pub owner_id: Seq<char>,
    pub rating: u8,
    pub comment: Seq<char>,
}

impl View for Review {
    type V = ReviewView;

    open spec fn view(&self) -> ReviewView {
        ReviewView { owner_id: self.owner_id@, rating: self.rating, comment: self.comment@ }
    }
}

/// The views of a list of reviews, in order.
pub open spec fn review_views(list: Seq<Review>) -> Seq<ReviewView> {
    list.map_values(|r: Review| r@)
}

impl Clone for Review {
    fn clone(&self) -> (copy: Self)
        ensures
            copy == *self,
    {
        Review {
            owner_id: self.owner_id.clone(),
            rating: self.rating,
            comment: self.comment.clone(),
        }
    }
}

impl Review {
    /// The review of `owner_id`.
    pub fn new(owner_id: String, rating: u8, comment: String) -> (review: Self)
        ensures
            review.owner_id == owner_id,
            review.rating == rating,
            review.comment == comment,
    {
        Review { owner_id, rating, comment }
    }
}

} // verus!
