//! Listings on offer: creating, changing and deleting them, which only the
//! owner may, and finding them.

use crate::images::{encode_images, encoded, image_positions, store_images};
use crate::listing::{listing_views, Listing, ListingView};
use crate::market::{
    copy_listings, error_view, find_listing, find_user, is_listing_position, listing_position,
    optional_view, result_view, user_position, Marketplace, MarketplaceView,
};
use crate::text::{str_equal, texts};
use crate::validation::{has_length_within, length_within};
use vstd::prelude::*;

verus! {

/// The listings that belong to `owner`.
pub open spec fn owned_by(owner: Seq<char>) -> spec_fn(ListingView) -> bool {
    |listing: ListingView| listing.owner_id == owner
}

/// The listings whose number is one of `ids`.
pub open spec fn numbered_among(ids: Seq<u64>) -> spec_fn(ListingView) -> bool {
    |listing: ListingView| ids.contains(listing.id)
}

/// The positions of the listings filed under `category`, ascending.
pub open spec fn positions_in_category(listings: Seq<ListingView>, category: Seq<char>) -> Seq<
    usize,
>
    decreases listings.len(),
{
    if listings.len() == 0 {
        Seq::empty()
    } else if listings.last().category == category {
        positions_in_category(listings.drop_last(), category).push((listings.len() - 1) as usize)
    } else {
        positions_in_category(listings.drop_last(), category)
    }
}

impl MarketplaceView {
    /// Whether the title meets the configured bounds.
    pub open spec fn title_fits(self, title: Seq<char>) -> bool {
        length_within(title, self.config.min_title_len, self.config.max_title_len)
    }

    /// Whether the description meets the configured bounds.
    pub open spec fn description_fits(self, description: Seq<char>) -> bool {
        length_within(
            description,
            self.config.min_description_len,
            self.config.max_description_len,
        )
    }

    /// What comes of a request to create a listing, the images given in
    /// base64. The caller must be a user. The images are stored before the
    /// texts are checked and stay stored when a text is refused.
    pub open spec fn add_listing_encoded(
        self,
        caller: Seq<char>,
        title: Seq<char>,
        description: Seq<char>,
        category: Seq<char>,
        price_bits: u64,
        amount: u32,
        images: Seq<Seq<char>>,
        categories_path: Seq<char>,
        timestamp: u64,
    ) -> (MarketplaceView, Result<ListingView, Seq<char>>) {
        if user_position(self.users, caller) is None {
            (self, Err("Nie znaleziono użytkownika!"@))
        } else if !self.title_fits(title) {
            (self.with_images(images), Err("Długość tytułu jest poza zakresem!"@))
        } else if !self.description_fits(description) {
            (self.with_images(images), Err("Długość opisu jest poza zakresem!"@))
        } else {
            let listing = ListingView {
                id: self.next_listing_id as u64,
                title,
                date: timestamp,
                description,
                category,
                price_bits,
                amount,
                owner_id: caller,
                images_id: image_positions(self.images.len(), images.len()),
                categories_path,
                reviews: None,
            };
            (
                MarketplaceView {
                    listings: self.listings.push(listing),
                    next_listing_id: self.next_listing_id + 1,
                    ..self.with_images(images)
                },
                Ok(listing),
            )
        }
    }

    /// What comes of a request to create a listing: the images are put into
    /// base64, and the request goes on as `add_listing_encoded` says.
    pub open spec fn add_listing(
        self,
        caller: Seq<char>,
        title: Seq<char>,
        description: Seq<char>,
        category: Seq<char>,
        price_bits: u64,
        amount: u32,
        images: Seq<Seq<char>>,
        categories_path: Seq<char>,
        timestamp: u64,
    ) -> (MarketplaceView, Result<ListingView, Seq<char>>) {
        self.add_listing_encoded(
            caller,
            title,
            description,
            category,
            price_bits,
            amount,
            encoded(images),
            categories_path,
            timestamp,
        )
    }

    /// Whether the listing numbered `id` exists and belongs to somebody
    /// other than `caller`.
    pub open spec fn belongs_to_another(self, caller: Seq<char>, id: u64) -> bool {
        self.listing(id) matches Some(listing) && listing.owner_id != caller
    }

    /// What comes of a request to change a listing, the images given in
    /// base64. The images are stored first and stay stored whatever
    /// follows. Only the owner may change a listing: anybody else is
    /// refused for want of ownership, whatever the texts are. The texts are
    /// checked next, and only then is a missing listing reported.
    pub open spec fn edit_listing_encoded(
        self,
        caller: Seq<char>,
        id: u64,
        title: Seq<char>,
        description: Seq<char>,
        category: Seq<char>,
        price_bits: u64,
        amount: u32,
        images: Seq<Seq<char>>,
        categories_path: Seq<char>,
    ) -> (MarketplaceView, Result<Seq<char>, Seq<char>>) {
        let stored = self.with_images(images);
        if self.belongs_to_another(caller, id) {
            (stored, Err("Brak uprawnień: Nie jesteś właścicielem tego ogłoszenia."@))
        } else if !self.title_fits(title) {
            (stored, Err("Długość tytułu jest nieprawidłowa!"@))
        } else if !self.description_fits(description) {
            (stored, Err("Długość opisu jest nieprawidłowa!"@))
        } else {
            match listing_position(self.listings, id) {
                None => (stored, Err("Nie znaleziono ogłoszenia!"@)),
                Some(i) => (
                    MarketplaceView {
                        listings: self.listings.update(
                            i,
                            ListingView {
                                title,
                                description,
                                category,
                                price_bits,
                                amount,
                                categories_path,
                                images_id: image_positions(self.images.len(), images.len()),
                                ..self.listings[i]
                            },
                        ),
                        ..stored
                    },
                    Ok("Ogłoszenie zostało pomyślnie zaktualizowane!"@),
                ),
            }
        }
    }

    /// What comes of a request to change a listing: the images are put into
    /// base64, and the request goes on as `edit_listing_encoded` says.
    pub open spec fn edit_listing(
        self,
        caller: Seq<char>,
        id: u64,
        title: Seq<char>,
        description: Seq<char>,
        category: Seq<char>,
        price_bits: u64,
        amount: u32,
        images: Seq<Seq<char>>,
        categories_path: Seq<char>,
    ) -> (MarketplaceView, Result<Seq<char>, Seq<char>>) {
        self.edit_listing_encoded(
            caller,
            id,
            title,
            description,
            category,
            price_bits,
            amount,
            encoded(images),
            categories_path,
        )
    }

    /// What comes of a request to delete a listing. Only its owner may.
    pub open spec fn delete_listing(self, caller: Seq<char>, id: u64) -> (
        MarketplaceView,
        Option<Seq<char>>,
    ) {
        match listing_position(self.listings, id) {
            None => (self, Some("Nie znaleziono ogłoszenia."@)),
            Some(i) => if self.listings[i].owner_id != caller {
                (self, Some("Brak uprawnień: Nie jesteś właścicielem tego ogłoszenia."@))
            } else {
                (MarketplaceView { listings: self.listings.remove(i), ..self }, None)
            },
        }
    }

    /// The caller's own listings; none for a caller who is no user.
    pub open spec fn listings_by(self, caller: Seq<char>) -> Seq<ListingView> {
        if user_position(self.users, caller) is None {
            Seq::empty()
        } else {
            self.listings.filter(owned_by(caller))
        }
    }
}

impl Marketplace {
    /// Creates a listing of `caller`, stamped with `timestamp`. Each image
    /// is put into base64 and stored.
    pub fn add_listing(
        &mut self,
        caller: &str,
        title: String,
        description: String,
        category: String,
        price_bits: u64,
        amount: u32,
        images_strings: Vec<String>,
        categories_path: String,
        timestamp: u64,
    ) -> (result: Result<Listing, String>)
        requires
            old(self)@.next_listing_id < u64::MAX,
        ensures
            final(self)@ == old(self)@.add_listing(
                caller@,
                title@,
                description@,
                category@,
                price_bits,
                amount,
                texts(images_strings@),
                categories_path@,
                timestamp,
            ).0,
            result_view(result) == old(self)@.add_listing(
                caller@,
                title@,
                description@,
                category@,
                price_bits,
                amount,
                texts(images_strings@),
                categories_path@,
                timestamp,
            ).1,
            old(self)@.wf() && result is Ok ==> is_listing_position(
                final(self)@.listings,
                old(self)@.next_listing_id as u64,
                old(self)@.listings.len() as int,
            ),
            old(self)@.wf() ==> final(self)@.wf(),
    {
        let images = encode_images(&images_strings);
        self.add_listing_encoded(
            caller,
            title,
            description,
            category,
            price_bits,
            amount,
            images,
            categories_path,
            timestamp,
        )
    }

    /// Creates a listing of `caller`, stamped with `timestamp`. The images
    /// are stored as they are given.
    pub fn add_listing_encoded(
        &mut self,
        caller: &str,
        title: String,
        description: String,
        category: String,
        price_bits: u64,
        amount: u32,
        images: Vec<String>,
        categories_path: String,
        timestamp: u64,
    ) -> (result: Result<Listing, String>)
        requires
            old(self)@.next_listing_id < u64::MAX,
        ensures
            final(self)@ == old(self)@.add_listing_encoded(
                caller@,
                title@,
                description@,
                category@,
                price_bits,
                amount,
                texts(images@),
                categories_path@,
                timestamp,
            ).0,
            result_view(result) == old(self)@.add_listing_encoded(
                caller@,
                title@,
                description@,
                category@,
                price_bits,
                amount,
                texts(images@),
                categories_path@,
                timestamp,
            ).1,
            old(self)@.wf() && result is Ok ==> is_listing_position(
                final(self)@.listings,
                old(self)@.next_listing_id as u64,
                old(self)@.listings.len() as int,
            ),
            old(self)@.wf() ==> final(self)@.wf(),
    {
        if find_user(&self.users, caller).is_none() {
            return Err("Nie znaleziono użytkownika!".to_owned());
        }
        let images_id = store_images(&mut self.images, images);
        if !has_length_within(
            title.as_str(),
            self.config.min_title_len as usize,
            self.config.max_title_len as usize,
        ) {
            return Err("Długość tytułu jest poza zakresem!".to_owned());
        }
        if !has_length_within(
            description.as_str(),
            self.config.min_description_len as usize,
            self.config.max_description_len as usize,
        ) {
            return Err("Długość opisu jest poza zakresem!".to_owned());
        }
        let listing = Listing::new(
            self.next_listing_id,
            title,
            description,
            category,
            price_bits,
            amount,
            caller.to_owned(),
            images_id,
            categories_path,
            timestamp,
        );
        let copy = listing.clone();
        let ghost before = listing_views(self.listings@);
        self.next_listing_id = self.next_listing_id + 1;
        self.listings.push(listing);
        proof {
            assert(listing_views(self.listings@) =~= before.push(listing@));
        }
        Ok(copy)
    }

    /// Changes the listing numbered `id`, which must be a listing of
    /// `caller`. Each image is put into base64 and stored.
    pub fn edit_listing(
        &mut self,
        caller: &str,
        id: u64,
        title: String,
        description: String,
        category: String,
        price_bits: u64,
        amount: u32,
        images_strings: Vec<String>,
        categories_path: String,
    ) -> (result: Result<String, String>)
        ensures
            final(self)@ == old(self)@.edit_listing(
                caller@,
                id,
                title@,
                description@,
                category@,
                price_bits,
                amount,
                texts(images_strings@),
                categories_path@,
            ).0,
            result_view(result) == old(self)@.edit_listing(
                caller@,
                id,
                title@,
                description@,
                category@,
                price_bits,
                amount,
                texts(images_strings@),
                categories_path@,
            ).1,
            old(self)@.wf() ==> final(self)@.wf(),
    {
        let images = encode_images(&images_strings);
        self.edit_listing_encoded(
            caller,
            id,
            title,
            description,
            category,
            price_bits,
            amount,
            images,
            categories_path,
        )
    }

    /// Changes the listing numbered `id`, which must be a listing of
    /// `caller`. The images are stored as they are given.
    pub fn edit_listing_encoded(
        &mut self,
        caller: &str,
        id: u64,
        title: String,
        description: String,
        category: String,
        price_bits: u64,
        amount: u32,
        images: Vec<String>,
        categories_path: String,
    ) -> (result: Result<String, String>)
        ensures
            final(self)@ == old(self)@.edit_listing_encoded(
                caller@,
                id,
                title@,
                description@,
                category@,
                price_bits,
                amount,
                texts(images@),
                categories_path@,
            ).0,
            result_view(result) == old(self)@.edit_listing_encoded(
                caller@,
                id,
                title@,
                description@,
                category@,
                price_bits,
                amount,
                texts(images@),
                categories_path@,
            ).1,
            old(self)@.wf() ==> final(self)@.wf(),
    {
        let images_id = store_images(&mut self.images, images);
        let found = find_listing(&self.listings, id);
        if let Some(i) = found {
            if !str_equal(self.listings[i].owner_id.as_str(), caller) {
                return Err("Brak uprawnień: Nie jesteś właścicielem tego ogłoszenia.".to_owned());
            }
        }
        if !has_length_within(
            title.as_str(),
            self.config.min_title_len as usize,
            self.config.max_title_len as usize,
        ) {
            return Err("Długość tytułu jest nieprawidłowa!".to_owned());
        }
        if !has_length_within(
            description.as_str(),
            self.config.min_description_len as usize,
            self.config.max_description_len as usize,
        ) {
            return Err("Długość opisu jest nieprawidłowa!".to_owned());
        }
        match found {
            None => Err("Nie znaleziono ogłoszenia!".to_owned()),
            Some(i) => {
                let ghost before = listing_views(self.listings@);
                self.listings[i].title = title;
                self.listings[i].description = description;
                self.listings[i].category = category;
                self.listings[i].price_bits = price_bits;
                self.listings[i].amount = amount;
                self.listings[i].categories_path = categories_path;
                self.listings[i].images_id = images_id;
                proof {
                    assert(listing_views(self.listings@) =~= before.update(
                        i as int,
                        self.listings@[i as int]@,
                    ));
                }
                Ok("Ogłoszenie zostało pomyślnie zaktualizowane!".to_owned())
            },
        }
    }

    /// Deletes the listing numbered `id`, which must be a listing of
    /// `caller`. Hands back the text of an error, or none.
    pub fn delete_listing(&mut self, caller: &str, id: u64) -> (result: Option<String>)
        ensures
            final(self)@ == old(self)@.delete_listing(caller@, id).0,
            error_view(result) == old(self)@.delete_listing(caller@, id).1,
            old(self)@.wf() ==> final(self)@.wf(),
    {
        match find_listing(&self.listings, id) {
            None => Some("Nie znaleziono ogłoszenia.".to_owned()),
            Some(i) => {
                if !str_equal(self.listings[i].owner_id.as_str(), caller) {
                    return Some(
                        "Brak uprawnień: Nie jesteś właścicielem tego ogłoszenia.".to_owned(),
                    );
                }
                let ghost before = listing_views(self.listings@);
                self.listings.remove(i);
                proof {
                    let after = listing_views(self.listings@);
                    assert(after =~= before.remove(i as int));
                }
                None
            },
        }
    }

    /// Copies of all listings.
    pub fn get_listings(&self) -> (listings: Vec<Listing>)
        ensures
            listing_views(listings@) == self@.listings,
    {
        copy_listings(&self.listings)
    }

    /// A copy of the listing numbered `id`, if there is one.
    pub fn get_listing_by_id(&self, id: u64) -> (listing: Option<Listing>)
        ensures
            optional_view(listing) == self@.listing(id),
    {
        match find_listing(&self.listings, id) {
            Some(i) => Some(self.listings[i].clone()),
            None => None,
        }
    }

    /// Copies of the listings whose number is one of `ids`, in the order of
    /// the listings.
    pub fn get_listings_by_id(&self, ids: &Vec<u64>) -> (found: Vec<Listing>)
        ensures
            listing_views(found@) == self@.listings.filter(numbered_among(ids@)),
    {
        let mut found: Vec<Listing> = Vec::new();
        let ghost listings = listing_views(self.listings@);
        let ghost wanted = numbered_among(ids@);
        let mut i: usize = 0;
        while i < self.listings.len()
            invariant
                i <= self.listings.len(),
                listings == listing_views(self.listings@),
                wanted == numbered_among(ids@),
                listing_views(found@) == listings.take(i as int).filter(wanted),
            decreases self.listings.len() - i,
        {
            proof {
                assert(listings.take(i + 1) =~= listings.take(i as int).push(listings[i as int]));
                listings.take(i as int).lemma_filter_push(listings[i as int], wanted);
            }
            if holds_number(ids, self.listings[i].id) {
                let copy = self.listings[i].clone();
                found.push(copy);
            }
            i += 1;
        }
        assert(listings.take(i as int) =~= listings);
        found
    }

    /// The positions of the listings filed under `category`.
    pub fn get_listings_id_by_category(&self, category: &str) -> (positions: Vec<usize>)
        ensures
            positions@ == positions_in_category(self@.listings, category@),
    {
        let mut positions: Vec<usize> = Vec::new();
        let ghost listings = listing_views(self.listings@);
        let mut i: usize = 0;
        while i < self.listings.len()
            invariant
                i <= self.listings.len(),
                listings == listing_views(self.listings@),
                positions@ == positions_in_category(listings.take(i as int), category@),
            decreases self.listings.len() - i,
        {
            proof {
                assert(listings.take(i + 1).drop_last() =~= listings.take(i as int));
            }
            if str_equal(self.listings[i].category.as_str(), category) {
                positions.push(i);
            }
            i += 1;
        }
        assert(listings.take(i as int) =~= listings);
        positions
    }

    /// Copies of the caller's own listings; none for a caller who is no
    /// user.
    pub fn get_listings_by_active_user(&self, caller: &str) -> (result: Result<Vec<Listing>, String>)
        ensures
            result matches Ok(listings) && listing_views(listings@) == self@.listings_by(caller@),
    {
        let mut found: Vec<Listing> = Vec::new();
        if find_user(&self.users, caller).is_none() {
            return Ok(found);
        }
        let ghost listings = listing_views(self.listings@);
        let ghost wanted = owned_by(caller@);
        let mut i: usize = 0;
        while i < self.listings.len()
            invariant
                i <= self.listings.len(),
                listings == listing_views(self.listings@),
                wanted == owned_by(caller@),
                listing_views(found@) == listings.take(i as int).filter(wanted),
            decreases self.listings.len() - i,
        {
            proof {
                assert(listings.take(i + 1) =~= listings.take(i as int).push(listings[i as int]));
                listings.take(i as int).lemma_filter_push(listings[i as int], wanted);
            }
            if str_equal(self.listings[i].owner_id.as_str(), caller) {
                let copy = self.listings[i].clone();
                found.push(copy);
            }
            i += 1;
        }
        assert(listings.take(i as int) =~= listings);
        Ok(found)
    }
}

/// Tells whether `ids` holds `id`.
fn holds_number(ids: &Vec<u64>, id: u64) -> (found: bool)
    ensures
        found == ids@.contains(id),
{
    let mut i: usize = 0;
    while i < ids.len()
        invariant
            i <= ids.len(),
            forall|j: int| 0 <= j < i ==> ids@[j] != id,
        decreases ids.len() - i,
    {
        if ids[i] == id {
            return true;
        }
        i += 1;
    }
    false
}

} // verus!
