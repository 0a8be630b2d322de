//! Listings: what a user offers on the marketplace.

use crate::review::{review_views, Review, ReviewView};
use vstd::prelude::*;

verus! {

/// An offer. Its number is given at creation and never used again.
#[derive(Debug)]
pub struct Listing {
    pub id: u64,
    pub title: String,
    pub date: u64,
    pub description: String,
    pub category: String,
    /// The price as the 64 bits of its binary encoding; the marketplace
    /// stores it and hands it back, and never reads it.
    pub price_bits: u64,
    pub amount: u32,
    pub owner_id: String,
    /// Positions of the listing's images in the image store.
    pub images_id: Vec<u64>,
    pub categories_path: String,
    pub reviews: Option<Vec<Review>>,
}

/// What a `Listing` stands for.
pub struct ListingView {
    pub id: u64,
    pub title: Seq<char>,
    pub date: u64,
    pub description: Seq<char>,
    pub category: Seq<char>,
    pub price_bits: u64,
    pub amount: u32,
    pub owner_id: Seq<char>,
    pub images_id: Seq<u64>,
    pub categories_path: Seq<char>,
    pub reviews: Option<Seq<ReviewView>>,
}

impl View for Listing {
    type V = ListingView;

    open spec fn view(&self) -> ListingView {
        ListingView {
            id: self.id,
            title: self.title@,
            date: self.date,
            description: self.description@,
            category: self.category@,
            price_bits: self.price_bits,
            amount: self.amount,
            owner_id: self.owner_id@,
            images_id: self.images_id@,
            categories_path: self.categories_path@,
            reviews: match self.reviews {
                Some(list) => Some(review_views(list@)),
                None => None,
            },
        }
    }
}

/// The views of a list of listings, in order.
pub open spec fn listing_views(list: Seq<Listing>) -> Seq<ListingView> {
    list.map_values(|l: Listing| l@)
}

impl Clone for Listing {
    fn clone(&self) -> (copy: Self)
        ensures
            copy@ == self@,
    {
        let images_id = self.images_id.clone();
        let reviews = match &self.reviews {
            Some(list) => {
                let copy = list.clone();
                Some(copy)
            },
            None => None,
        };
        Listing {
            id: self.id,
            title: self.title.clone(),
            date: self.date,
            description: self.description.clone(),
            category: self.category.clone(),
            price_bits: self.price_bits,
            amount: self.amount,
            owner_id: self.owner_id.clone(),
            images_id,
            categories_path: self.categories_path.clone(),
            reviews,
        }
    }
}

impl Listing {
    /// The listing numbered `id`, created at `date`, without reviews.
    pub fn new(
        id: u64,
        title: String,
        description: String,
        category: String,
        price_bits: u64,
        amount: u32,
        owner_id: String,
        images_id: Vec<u64>,
        categories_path: String,
        date: u64,
    ) -> (listing: Self)
        ensures
            listing@ == (ListingView {
                id,
                title: title@,
                date,
                description: description@,
                category: category@,
                price_bits,
                amount,
                owner_id: owner_id@,
                images_id: images_id@,
                categories_path: categories_path@,
                reviews: None,
            }),
    {
        Listing {
            id,
            title,
            date,
            description,
            category,
            price_bits,
            amount,
            owner_id,
            images_id,
            categories_path,
            reviews: None,
        }
    }
}

} // verus!
