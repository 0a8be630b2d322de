//! The state of the marketplace: users, listings with their images and
//! reviews, and the chat about listings. The requests are methods of
//! `Marketplace`, each of which takes the identity of the caller and, where
//! it stamps a record, the time; they are defined in the modules `accounts`,
//! `offers`, `images`, `reviewing` and `conversing`.

use crate::category::{category_views, lemma_category_views_index, Category};
use crate::chat::{ChatStore, ChatStoreView};
use crate::config::{Config, ConfigView};
use crate::listing::{listing_views, Listing, ListingView};
use crate::text::{str_equal, texts};
use crate::user::{user_views, User, UserView};
use vstd::prelude::*;

verus! {

/// The whole state of the marketplace.
#[derive(Debug)]
pub struct Marketplace {
    pub config: Config,
    pub listings: Vec<Listing>,
    pub users: Vec<User>,
    /// The images of all listings, each in base64.
    pub images: Vec<String>,
    /// The number that the next listing gets.
    pub next_listing_id: u64,
    pub chat: ChatStore,
}

/// What a `Marketplace` stands for.
pub struct MarketplaceView {
    pub config: ConfigView,
    pub listings: Seq<ListingView>,
    pub users: Seq<UserView>,
    pub images: Seq<Seq<char>>,
    pub next_listing_id: nat,
    pub chat: ChatStoreView,
}

impl View for Marketplace {
    type V = MarketplaceView;

    open spec fn view(&self) -> MarketplaceView {
        MarketplaceView {
            config: self.config@,
            listings: listing_views(self.listings@),
            users: user_views(self.users@),
            images: texts(self.images@),
            next_listing_id: self.next_listing_id as nat,
            chat: self.chat@,
        }
    }
}

/// Whether `i` is the first position at which `users` holds the user `id`.
pub open spec fn is_user_position(users: Seq<UserView>, id: Seq<char>, i: int) -> bool {
    &&& 0 <= i < users.len()
    &&& users[i].id == id
    &&& forall|j: int| 0 <= j < i ==> (#[trigger] users[j]).id != id
}

/// The first position at which `users` holds the user `id`.
pub open spec fn user_position(users: Seq<UserView>, id: Seq<char>) -> Option<int> {
    if exists|i: int| is_user_position(users, id, i) {
        Some(choose|i: int| is_user_position(users, id, i))
    } else {
        None
    }
}

/// Whether `i` is the first position at which `listings` holds the listing
/// numbered `id`.
pub open spec fn is_listing_position(listings: Seq<ListingView>, id: u64, i: int) -> bool {
    &&& 0 <= i < listings.len()
    &&& listings[i].id == id
    &&& forall|j: int| 0 <= j < i ==> (#[trigger] listings[j]).id != id
}

/// The first position at which `listings` holds the listing numbered `id`.
pub open spec fn listing_position(listings: Seq<ListingView>, id: u64) -> Option<int> {
    if exists|i: int| is_listing_position(listings, id, i) {
        Some(choose|i: int| is_listing_position(listings, id, i))
    } else {
        None
    }
}

/// The view of what a request hands back: a value or the text of an error.
pub open spec fn result_view<T: View>(result: Result<T, String>) -> Result<T::V, Seq<char>> {
    match result {
        Ok(value) => Ok(value@),
        Err(error) => Err(error@),
    }
}

/// The view of what a request hands back: the text of an error, or none.
pub open spec fn error_view(result: Option<String>) -> Option<Seq<char>> {
    match result {
        Some(error) => Some(error@),
        None => None,
    }
}

/// The view of a listing that a request hands back, if it hands one back.
pub open spec fn optional_view<T: View>(value: Option<T>) -> Option<T::V> {
    match value {
        Some(value) => Some(value@),
        None => None,
    }
}

/// Whether the reviews of a listing are as they should be: each rating is 5
/// at most, no user has reviewed twice, and the owner has not reviewed.
pub open spec fn reviews_in_order(listing: ListingView) -> bool {
    listing.reviews matches Some(reviews) ==> {
        &&& forall|k: int| 0 <= k < reviews.len() ==> (#[trigger] reviews[k]).rating <= 5
        &&& forall|k: int|
            0 <= k < reviews.len() ==> (#[trigger] reviews[k]).owner_id != listing.owner_id
        &&& forall|a: int, b: int|
            0 <= a < b < reviews.len() ==> (#[trigger] reviews[a]).owner_id != (
            #[trigger] reviews[b]).owner_id
    }
}

impl MarketplaceView {
    /// No chat key dangles, no two listings have the same number, every
    /// number in use is below the next one to give, the reviews of every
    /// listing are in order, and no two users have the same identity.
    pub open spec fn wf(self) -> bool {
        &&& self.chat.wf()
        &&& forall|i: int|
            0 <= i < self.listings.len() ==> reviews_in_order(#[trigger] self.listings[i])
        &&& forall|i: int|
            0 <= i < self.listings.len() ==> (#[trigger] self.listings[i]).id
                < self.next_listing_id
        &&& forall|i: int, j: int|
            0 <= i < j < self.listings.len() ==> (#[trigger] self.listings[i]).id != (
            #[trigger] self.listings[j]).id
        &&& forall|i: int, j: int|
            0 <= i < j < self.users.len() ==> (#[trigger] self.users[i]).id != (
            #[trigger] self.users[j]).id
    }

    /// The state after `images` were put into the image store as they are.
    pub open spec fn with_images(self, images: Seq<Seq<char>>) -> MarketplaceView {
        MarketplaceView { images: self.images + images, ..self }
    }

    /// The user `id`, if registered.
    pub open spec fn user(self, id: Seq<char>) -> Option<UserView> {
        match user_position(self.users, id) {
            Some(i) => Some(self.users[i]),
            None => None,
        }
    }

    /// The listing numbered `id`, if there is one.
    pub open spec fn listing(self, id: u64) -> Option<ListingView> {
        match listing_position(self.listings, id) {
            Some(i) => Some(self.listings[i]),
            None => None,
        }
    }
}

/// The position of the user `id`, if there is one.
pub(crate) fn find_user(users: &Vec<User>, id: &str) -> (found: Option<usize>)
    ensures
        match found {
            Some(i) => user_position(user_views(users@), id@) == Some(i as int),
            None => user_position(user_views(users@), id@) is None,
        },
{
    let mut i: usize = 0;
    while i < users.len()
        invariant
            i <= users.len(),
            forall|j: int| 0 <= j < i ==> (#[trigger] user_views(users@)[j]).id != id@,
        decreases users.len() - i,
    {
        if str_equal(users[i].id.as_str(), id) {
            proof {
                let views = user_views(users@);
                assert(is_user_position(views, id@, i as int));
            }
            return Some(i);
        }
        i += 1;
    }
    None
}

/// The position of the listing numbered `id`, if there is one.
pub(crate) fn find_listing(listings: &Vec<Listing>, id: u64) -> (found: Option<usize>)
    ensures
        match found {
            Some(i) => listing_position(listing_views(listings@), id) == Some(i as int),
            None => listing_position(listing_views(listings@), id) is None,
        },
{
    let mut i: usize = 0;
    while i < listings.len()
        invariant
            i <= listings.len(),
            forall|j: int| 0 <= j < i ==> (#[trigger] listing_views(listings@)[j]).id != id,
        decreases listings.len() - i,
    {
        if listings[i].id == id {
            proof {
                let views = listing_views(listings@);
                assert(is_listing_position(views, id, i as int));
            }
            return Some(i);
        }
        i += 1;
    }
    None
}

/// Where no position is the first to hold a user, no position holds it.
pub proof fn lemma_no_user_position(users: Seq<UserView>, id: Seq<char>, j: int)
    requires
        user_position(users, id) is None,
        0 <= j < users.len(),
    ensures
        users[j].id != id,
    decreases j,
{
    if users[j].id == id {
        if forall|k: int| 0 <= k < j ==> (#[trigger] users[k]).id != id {
            assert(is_user_position(users, id, j));
        } else {
            let k = choose|k: int| 0 <= k < j && (#[trigger] users[k]).id == id;
            lemma_no_user_position(users, id, k);
        }
    }
}

/// Copies of `listings`, in order.
pub(crate) fn copy_listings(listings: &Vec<Listing>) -> (copies: Vec<Listing>)
    ensures
        listing_views(copies@) == listing_views(listings@),
{
    let mut copies: Vec<Listing> = Vec::new();
    let mut i: usize = 0;
    while i < listings.len()
        invariant
            i <= listings.len(),
            copies.len() == i,
            forall|j: int| 0 <= j < i ==> (#[trigger] copies[j])@ == listings[j]@,
        decreases listings.len() - i,
    {
        copies.push(listings[i].clone());
        i += 1;
    }
    copies
}

/// Copies of `users`, in order.
pub(crate) fn copy_users(users: &Vec<User>) -> (copies: Vec<User>)
    ensures
        user_views(copies@) == user_views(users@),
{
    let mut copies: Vec<User> = Vec::new();
    let mut i: usize = 0;
    while i < users.len()
        invariant
            i <= users.len(),
            copies.len() == i,
            forall|j: int| 0 <= j < i ==> (#[trigger] copies[j])@ == users[j]@,
        decreases users.len() - i,
    {
        copies.push(users[i].clone());
        i += 1;
    }
    copies
}

impl Marketplace {
    /// An empty marketplace with the starting configuration.
    pub fn new() -> (market: Self)
        ensures
            market@.config == crate::config::default_config(),
            market@.listings == Seq::<ListingView>::empty(),
            market@.users == Seq::<UserView>::empty(),
            market@.images == Seq::<Seq<char>>::empty(),
            market@.next_listing_id == 0,
            market@.chat == ChatStoreView::empty(),
            market@.wf(),
    {
        Marketplace {
            config: Config::new(),
            listings: Vec::new(),
            users: Vec::new(),
            images: Vec::new(),
            next_listing_id: 0,
            chat: ChatStore::new(),
        }
    }

    /// A copy of the configuration.
    pub fn get_config(&self) -> (config: Config)
        ensures
            config@ == self@.config,
    {
        self.config.clone()
    }

    /// A copy of the category tree.
    pub fn get_categories(&self) -> (categories: Vec<Category>)
        ensures
            category_views(categories@) == self@.config.categories,
    {
        let mut categories: Vec<Category> = Vec::new();
        let mut i: usize = 0;
        while i < self.config.categories.len()
            invariant
                i <= self.config.categories.len(),
                categories.len() == i,
                forall|j: int|
                    0 <= j < i ==> (#[trigger] categories[j])@ == self.config.categories[j]@,
            decreases self.config.categories.len() - i,
        {
            categories.push(self.config.categories[i].clone());
            i += 1;
        }
        proof {
            lemma_category_views_index(self.config.categories@);
            lemma_category_views_index(categories@);
        }
        categories
    }
}

} // verus!
