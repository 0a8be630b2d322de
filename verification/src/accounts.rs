//! The users: registering, changing one's texts, and one's favorite
//! listings.

use crate::listing::{listing_views, Listing, ListingView};
use crate::market::{
    copy_users, error_view, find_listing, find_user, is_user_position, lemma_no_user_position,
    listing_position, optional_view, result_view, user_position, Marketplace, MarketplaceView,
};
use crate::text::str_equal;
use crate::user::{user_views, User, UserView};
use crate::validation::{
    has_length_within, is_email, is_phone_number, is_valid_email, is_valid_phone_number,
    length_within,
};
use vstd::prelude::*;

verus! {

/// For each of `ids` in turn, the listing with that number, where there is
/// one.
pub open spec fn listings_numbered(listings: Seq<ListingView>, ids: Seq<u64>) -> Seq<ListingView>
    decreases ids.len(),
{
    if ids.len() == 0 {
        Seq::empty()
    } else {
        match listing_position(listings, ids.last()) {
            Some(i) => listings_numbered(listings, ids.drop_last()).push(listings[i]),
            None => listings_numbered(listings, ids.drop_last()),
        }
    }
}

impl MarketplaceView {
    /// Whether the name of a user meets the configured bounds.
    pub open spec fn user_name_fits(self, name: Seq<char>) -> bool {
        length_within(name, self.config.min_user_name_len, self.config.max_user_name_len)
    }

    /// Whether the name of a company meets the configured bounds.
    pub open spec fn company_name_fits(self, name: Seq<char>) -> bool {
        length_within(name, self.config.min_company_name_len, self.config.max_company_name_len)
    }

    /// The first of the rules for a user's texts that these texts break, as
    /// the text of the error; none where they meet them all.
    pub open spec fn profile_error(
        self,
        name: Seq<char>,
        email: Seq<char>,
        phone_number: Seq<char>,
        company_name: Seq<char>,
    ) -> Option<Seq<char>> {
        if !self.user_name_fits(name) {
            Some("Długość nazwy użytkownika jest poza zakresem!"@)
        } else if !is_email(email) {
            Some("Nieprawidłowy adres e-mail!"@)
        } else if !is_phone_number(phone_number) {
            Some("Nieprawidłowy numer telefonu!"@)
        } else if !self.company_name_fits(company_name) {
            Some("Długość nazwy firmy jest poza zakresem!"@)
        } else {
            None
        }
    }

    /// What comes of a request to register the caller. An identity
    /// registers once, and the texts must meet the rules for a user.
    pub open spec fn add_user(
        self,
        caller: Seq<char>,
        name: Seq<char>,
        email: Seq<char>,
        phone_number: Seq<char>,
        company_name: Seq<char>,
        timestamp: u64,
    ) -> (MarketplaceView, Result<UserView, Seq<char>>) {
        if user_position(self.users, caller) is Some {
            (self, Err("Użytkownik już istnieje!"@))
        } else {
            match self.profile_error(name, email, phone_number, company_name) {
                Some(error) => (self, Err(error)),
                None => {
                    let user = UserView::registered(
                        caller,
                        name,
                        email,
                        phone_number,
                        company_name,
                        timestamp,
                    );
                    (MarketplaceView { users: self.users.push(user), ..self }, Ok(user))
                },
            }
        }
    }

    /// What comes of a request to register the caller with nothing filled
    /// in yet.
    pub open spec fn add_empty_user(self, caller: Seq<char>, timestamp: u64) -> (
        MarketplaceView,
        Result<UserView, Seq<char>>,
    ) {
        if user_position(self.users, caller) is Some {
            (self, Err("Użytkownik już istnieje!"@))
        } else {
            let user = UserView::registered(
                caller,
                Seq::empty(),
                Seq::empty(),
                Seq::empty(),
                Seq::empty(),
                timestamp,
            );
            (MarketplaceView { users: self.users.push(user), ..self }, Ok(user))
        }
    }

    /// What comes of a request to change the caller's own texts.
    pub open spec fn edit_active_user(
        self,
        caller: Seq<char>,
        name: Seq<char>,
        email: Seq<char>,
        phone_number: Seq<char>,
        company_name: Seq<char>,
    ) -> (MarketplaceView, Option<Seq<char>>) {
        match user_position(self.users, caller) {
            None => (self, Some("Nie znaleziono użytkownika!"@)),
            Some(i) => match self.profile_error(name, email, phone_number, company_name) {
                Some(error) => (self, Some(error)),
                None => (
                    MarketplaceView {
                        users: self.users.update(
                            i,
                            UserView { name, email, phone_number, company_name, ..self.users[i] },
                        ),
                        ..self
                    },
                    None,
                ),
            },
        }
    }

    /// The state after the caller marked the listing numbered `listing_id`
    /// as a favorite. Nothing changes where the caller is no user, where
    /// there is no such listing, or where the listing is the caller's own.
    pub open spec fn add_favorite_listing(self, caller: Seq<char>, listing_id: u64) -> MarketplaceView {
        match (user_position(self.users, caller), listing_position(self.listings, listing_id)) {
            (Some(u), Some(l)) => if self.listings[l].owner_id == caller {
                self
            } else {
                MarketplaceView {
                    users: self.users.update(
                        u,
                        UserView {
                            favorites_id: Some(
                                match self.users[u].favorites_id {
                                    Some(favorites) => favorites.push(listing_id),
                                    None => seq![listing_id],
                                },
                            ),
                            ..self.users[u]
                        },
                    ),
                    ..self
                }
            },
            _ => self,
        }
    }

    /// The caller's favorite listings that still exist, in the order in
    /// which the caller marked them.
    pub open spec fn favorite_listings(self, caller: Seq<char>) -> Seq<ListingView> {
        match self.user(caller) {
            Some(user) => match user.favorites_id {
                Some(favorites) => listings_numbered(self.listings, favorites),
                None => Seq::empty(),
            },
            None => Seq::empty(),
        }
    }
}

impl Marketplace {
    /// Tells which rule for a user's texts these texts break first.
    fn check_profile(&self, name: &str, email: &str, phone_number: &str, company_name: &str) -> (error:
        Option<String>)
        ensures
            error_view(error) == self@.profile_error(
                name@,
                email@,
                phone_number@,
                company_name@,
            ),
    {
        if !has_length_within(
            name,
            self.config.min_user_name_len as usize,
            self.config.max_user_name_len as usize,
        ) {
            Some("Długość nazwy użytkownika jest poza zakresem!".to_owned())
        } else if !is_valid_email(email) {
            Some("Nieprawidłowy adres e-mail!".to_owned())
        } else if !is_valid_phone_number(phone_number) {
            Some("Nieprawidłowy numer telefonu!".to_owned())
        } else if !has_length_within(
            company_name,
            self.config.min_company_name_len as usize,
            self.config.max_company_name_len as usize,
        ) {
            Some("Długość nazwy firmy jest poza zakresem!".to_owned())
        } else {
            None
        }
    }

    /// Registers `caller` as a user, stamped with `timestamp`.
    pub fn add_user(
        &mut self,
        caller: &str,
        name: String,
        email: String,
        phone_number: String,
        company_name: String,
        timestamp: u64,
    ) -> (result: Result<User, String>)
        ensures
            final(self)@ == old(self)@.add_user(
                caller@,
                name@,
                email@,
                phone_number@,
                company_name@,
                timestamp,
            ).0,
            result_view(result) == old(self)@.add_user(
                caller@,
                name@,
                email@,
                phone_number@,
                company_name@,
                timestamp,
            ).1,
            result is Ok ==> is_user_position(
                final(self)@.users,
                caller@,
                old(self)@.users.len() as int,
            ),
            old(self)@.wf() ==> final(self)@.wf(),
    {
        if find_user(&self.users, caller).is_some() {
            return Err("Użytkownik już istnieje!".to_owned());
        }
        match self.check_profile(
            name.as_str(),
            email.as_str(),
            phone_number.as_str(),
            company_name.as_str(),
        ) {
            Some(error) => Err(error),
            None => {
                let user = User::new(
                    caller.to_owned(),
                    name,
                    email,
                    phone_number,
                    company_name,
                    timestamp,
                );
                let copy = user.clone();
                self.push_user(user);
                Ok(copy)
            },
        }
    }

    /// Adds a user whose identity is not registered yet.
    fn push_user(&mut self, user: User)
        requires
            user_position(old(self)@.users, user@.id) is None,
        ensures
            final(self)@ == (MarketplaceView {
                users: old(self)@.users.push(user@),
                ..old(self)@
            }),
            is_user_position(final(self)@.users, user@.id, old(self)@.users.len() as int),
            old(self)@.wf() ==> final(self)@.wf(),
    {
        let ghost before = user_views(self.users@);
        self.users.push(user);
        proof {
            let after = user_views(self.users@);
            assert(after =~= before.push(user@));
            assert forall|j: int| 0 <= j < before.len() implies (#[trigger] before[j]).id
                != user@.id by {
                lemma_no_user_position(before, user@.id, j);
            }
        }
    }

    /// Registers `caller` as a user with nothing filled in yet.
    pub fn add_empty_user(&mut self, caller: &str, timestamp: u64) -> (result: Result<User, String>)
        ensures
            final(self)@ == old(self)@.add_empty_user(caller@, timestamp).0,
            result_view(result) == old(self)@.add_empty_user(caller@, timestamp).1,
            result is Ok ==> is_user_position(
                final(self)@.users,
                caller@,
                old(self)@.users.len() as int,
            ),
            old(self)@.wf() ==> final(self)@.wf(),
    {
        if find_user(&self.users, caller).is_some() {
            return Err("Użytkownik już istnieje!".to_owned());
        }
        let user = User::new(
            caller.to_owned(),
            String::new(),
            String::new(),
            String::new(),
            String::new(),
            timestamp,
        );
        let copy = user.clone();
        self.push_user(user);
        Ok(copy)
    }

    /// Copies of all users.
    pub fn get_users(&self) -> (users: Vec<User>)
        ensures
            user_views(users@) == self@.users,
    {
        copy_users(&self.users)
    }

    /// A copy of the user `principal`, if registered.
    pub fn get_user_by_principal(&self, principal: &str) -> (user: Option<User>)
        ensures
            optional_view(user) == self@.user(principal@),
    {
        match find_user(&self.users, principal) {
            Some(i) => Some(self.users[i].clone()),
            None => None,
        }
    }

    /// A copy of the caller's own record, if the caller is a user.
    pub fn get_active_user(&self, caller: &str) -> (user: Option<User>)
        ensures
            optional_view(user) == self@.user(caller@),
    {
        self.get_user_by_principal(caller)
    }

    /// Changes the caller's own texts. Hands back the text of an error, or
    /// none.
    pub fn edit_active_user(
        &mut self,
        caller: &str,
        name: String,
        email: String,
        phone_number: String,
        company_name: String,
    ) -> (result: Option<String>)
        ensures
            final(self)@ == old(self)@.edit_active_user(
                caller@,
                name@,
                email@,
                phone_number@,
                company_name@,
            ).0,
            error_view(result) == old(self)@.edit_active_user(
                caller@,
                name@,
                email@,
                phone_number@,
                company_name@,
            ).1,
            old(self)@.wf() ==> final(self)@.wf(),
    {
        match find_user(&self.users, caller) {
            None => Some("Nie znaleziono użytkownika!".to_owned()),
            Some(i) => {
                match self.check_profile(
                    name.as_str(),
                    email.as_str(),
                    phone_number.as_str(),
                    company_name.as_str(),
                ) {
                    Some(error) => Some(error),
                    None => {
                        let ghost before = user_views(self.users@);
                        self.users[i].name = name;
                        self.users[i].email = email;
                        self.users[i].phone_number = phone_number;
                        self.users[i].company_name = company_name;
                        proof {
                            assert(user_views(self.users@) =~= before.update(
                                i as int,
                                self.users@[i as int]@,
                            ));
                        }
                        None
                    },
                }
            },
        }
    }

    /// Marks the listing numbered `listing_id` as a favorite of `caller`.
    pub fn add_favorite_listing(&mut self, caller: &str, listing_id: u64)
        ensures
            final(self)@ == old(self)@.add_favorite_listing(caller@, listing_id),
            old(self)@.wf() ==> final(self)@.wf(),
    {
        let user = match find_user(&self.users, caller) {
            Some(user) => user,
            None => {
                return ;
            },
        };
        let listing = match find_listing(&self.listings, listing_id) {
            Some(listing) => listing,
            None => {
                return ;
            },
        };
        if str_equal(self.listings[listing].owner_id.as_str(), caller) {
            return ;
        }
        let mut favorites = match self.users[user].favorites_id.take() {
            Some(favorites) => favorites,
            None => Vec::new(),
        };
        favorites.push(self.listings[listing].id);
        self.users[user].favorites_id = Some(favorites);
        proof {
            let target = old(self)@.add_favorite_listing(caller@, listing_id);
            assert(user_views(self.users@) =~= target.users);
        }
    }

    /// Copies of the caller's favorite listings that still exist.
    pub fn get_active_user_favorite_listings(&self, caller: &str) -> (favorites: Vec<Listing>)
        ensures
            listing_views(favorites@) == self@.favorite_listings(caller@),
    {
        let mut found: Vec<Listing> = Vec::new();
        let ghost listings = listing_views(self.listings@);
        match find_user(&self.users, caller) {
            Some(u) => {
                match &self.users[u].favorites_id {
                    Some(favorites) => {
                        let mut i: usize = 0;
                        while i < favorites.len()
                            invariant
                                i <= favorites.len(),
                                listings == listing_views(self.listings@),
                                listing_views(found@) == listings_numbered(
                                    listings,
                                    favorites@.take(i as int),
                                ),
                            decreases favorites.len() - i,
                        {
                            proof {
                                assert(favorites@.take(i + 1).drop_last() =~= favorites@.take(
                                    i as int,
                                ));
                            }
                            match find_listing(&self.listings, favorites[i]) {
                                Some(l) => {
                                    let copy = self.listings[l].clone();
                                    found.push(copy);
                                },
                                None => {},
                            }
                            i += 1;
                        }
                        assert(favorites@.take(i as int) =~= favorites@);
                    },
                    None => {},
                }
            },
            None => {},
        }
        found
    }
}

} // verus!
