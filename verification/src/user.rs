//! Users of the marketplace.

use vstd::prelude::*;

verus! {

/// A registered user. The identity is given from outside and never changes.
#[derive(Debug)]
pub struct User {
    pub id: String,
    pub name: String,
    pub email: String,
    pub phone_number: String,
    pub company_name: String,
    pub creation_date: u64,
    /// The identifiers of the listings that the user marked, oldest first.
    pub favorites_id: Option<Vec<u64>>,
}

/// What a `User` stands for.
pub struct UserView {
    pub id: Seq<char>,
    pub name: Seq<char>,
    pub email: Seq<char>,
    pub phone_number: Seq<char>,
    pub company_name: Seq<char>,
    pub creation_date: u64,
    pub favorites_id: Option<Seq<u64>>,
}

impl View for User {
    type V = UserView;

    open spec fn view(&self) -> UserView {
        UserView {
            id: self.id@,
            name: self.name@,
            email: self.email@,
            phone_number: self.phone_number@,
            company_name: self.company_name@,
            creation_date: self.creation_date,
            favorites_id: match self.favorites_id {
                Some(list) => Some(list@),
                None => None,
            },
        }
    }
}

/// The views of a list of users, in order.
pub open spec fn user_views(list: Seq<User>) -> Seq<UserView> {
    list.map_values(|u: User| u@)
}

impl UserView {
    /// A user as registered at `creation_date`: no favorites yet.
    pub open spec fn registered(
        id: Seq<char>,
        name: Seq<char>,
        email: Seq<char>,
        phone_number: Seq<char>,
        company_name: Seq<char>,
        creation_date: u64,
    ) -> UserView {
        UserView { id, name, email, phone_number, company_name, creation_date, favorites_id: None }
    }
}

impl Clone for User {
    fn clone(&self) -> (copy: Self)
        ensures
            copy@ == self@,
    {
        let favorites_id = match &self.favorites_id {
            Some(list) => {
                let copy = list.clone();
                Some(copy)
            },
            None => None,
        };
        User {
            id: self.id.clone(),
            name: self.name.clone(),
            email: self.email.clone(),
            phone_number: self.phone_number.clone(),
            company_name: self.company_name.clone(),
            creation_date: self.creation_date,
            favorites_id,
        }
    }
}

impl User {
    /// The user `id`, registered at `creation_date`.
    pub fn new(
        id: String,
        name: String,
        email: String,
        phone_number: String,
        company_name: String,
        creation_date: u64,
    ) -> (user: Self)
        ensures
            user@ == UserView::registered(
                id@,
                name@,
                email@,
                phone_number@,
                company_name@,
                creation_date,
            ),
    {
        User { id, name, email, creation_date, phone_number, company_name, favorites_id: None }
    }
}

} // verus!
