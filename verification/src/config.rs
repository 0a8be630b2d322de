//! The validation bounds and the category tree that the marketplace starts
//! with.

use crate::category::{
    category_views, lemma_category_views_index, lemma_category_views_push, Category,
    CategoryView,
};
use vstd::prelude::*;

verus! {

/// Length bounds for the texts of listings and users, and the category tree.
#[derive(Debug)]
pub struct Config {
    pub max_description_len: u16,
    pub max_title_len: u8,
    pub min_description_len: u16,
    pub min_title_len: u8,
    pub categories: Vec<Category>,
    pub min_user_name_len: u8,
    pub max_user_name_len: u16,
    pub min_company_name_len: u8,
    pub max_company_name_len: u16,
}

/// What a `Config` stands for.
pub struct ConfigView {
    pub max_description_len: nat,
    pub max_title_len: nat,
    pub min_description_len: nat,
    pub min_title_len: nat,
    pub categories: Seq<CategoryView>,
    pub min_user_name_len: nat,
    pub max_user_name_len: nat,
    pub min_company_name_len: nat,
    pub max_company_name_len: nat,
}

impl View for Config {
    type V = ConfigView;

    open spec fn view(&self) -> ConfigView {
        ConfigView {
            max_description_len: self.max_description_len as nat,
            max_title_len: self.max_title_len as nat,
            min_description_len: self.min_description_len as nat,
            min_title_len: self.min_title_len as nat,
            categories: category_views(self.categories@),
            min_user_name_len: self.min_user_name_len as nat,
            max_user_name_len: self.max_user_name_len as nat,
            min_company_name_len: self.min_company_name_len as nat,
            max_company_name_len: self.max_company_name_len as nat,
        }
    }
}

/// A category without sub-categories.
pub open spec fn leaf(name: Seq<char>) -> CategoryView {
    CategoryView { name, lower_categories: None }
}

/// A category with the given sub-categories.
pub open spec fn group(name: Seq<char>, lower: Seq<CategoryView>) -> CategoryView {
    CategoryView { name, lower_categories: Some(lower) }
}

/// The category tree of a new marketplace: seven groups, each closed by
/// "Other".
pub open spec fn default_categories() -> Seq<CategoryView> {
    seq![
        group(
            "Electronics"@,
            seq![
                leaf("Mobile Phones"@),
                leaf("Laptops"@),
                leaf("Televisions"@),
                leaf("Cameras"@),
                leaf("Other"@),
            ],
        ),
        group(
            "Home & Garden"@,
            seq![
                leaf("Furniture"@),
                leaf("Household Appliances"@),
                leaf("Garden Tools"@),
                leaf("Other"@),
            ],
        ),
        group(
            "Fashion"@,
            seq![leaf("Clothing"@), leaf("Footwear"@), leaf("Accessories"@), leaf("Other"@)],
        ),
        group(
            "Vehicles"@,
            seq![leaf("Cars"@), leaf("Motorcycles"@), leaf("Bicycles"@), leaf("Other"@)],
        ),
        group("Agriculture"@, seq![leaf("Crops"@), leaf("Animal Husbandry"@), leaf("Other"@)]),
        group("Handicraft"@, seq![leaf("Jewelry"@), leaf("Home Decorations"@), leaf("Other"@)]),
        group(
            "Books"@,
            seq![leaf("Fiction"@), leaf("Non-fiction"@), leaf("Comics"@), leaf("Other"@)],
        ),
    ]
}

/// The configuration of a new marketplace.
pub open spec fn default_config() -> ConfigView {
    ConfigView {
        max_description_len: 2000,
        max_title_len: 250,
        min_description_len: 50,
        min_title_len: 12,
        categories: default_categories(),
        min_user_name_len: 5,
        max_user_name_len: 50,
        min_company_name_len: 5,
        max_company_name_len: 50,
    }
}

/// Adds a category without sub-categories at the end of `list`.
fn push_leaf(list: &mut Vec<Category>, name: &str)
    ensures
        category_views(final(list)@) == category_views(old(list)@).push(leaf(name@)),
{
    let category = Category::new(name.to_owned(), None);
    proof {
        lemma_category_views_push(list@, category);
    }
    list.push(category);
}

/// Adds a category above `lower` at the end of `list`.
fn push_group(list: &mut Vec<Category>, name: &str, lower: Vec<Category>)
    ensures
        category_views(final(list)@) == category_views(old(list)@).push(
            group(name@, category_views(lower@)),
        ),
{
    let category = Category::new(name.to_owned(), Some(lower));
    proof {
        lemma_category_views_push(list@, category);
    }
    list.push(category);
}

impl Config {
    /// The configuration of a new marketplace.
    pub fn new() -> (config: Self)
        ensures
            config@ == default_config(),
    {
        let mut categories: Vec<Category> = Vec::new();

        let mut electronics: Vec<Category> = Vec::new();
        push_leaf(&mut electronics, "Mobile Phones");
        push_leaf(&mut electronics, "Laptops");
        push_leaf(&mut electronics, "Televisions");
        push_leaf(&mut electronics, "Cameras");
        push_leaf(&mut electronics, "Other");
        assert(category_views(electronics@) =~= default_categories()[0].lower_categories->0);
        push_group(&mut categories, "Electronics", electronics);

        let mut home: Vec<Category> = Vec::new();
        push_leaf(&mut home, "Furniture");
        push_leaf(&mut home, "Household Appliances");
        push_leaf(&mut home, "Garden Tools");
        push_leaf(&mut home, "Other");
        assert(category_views(home@) =~= default_categories()[1].lower_categories->0);
        push_group(&mut categories, "Home & Garden", home);

        let mut fashion: Vec<Category> = Vec::new();
        push_leaf(&mut fashion, "Clothing");
        push_leaf(&mut fashion, "Footwear");
        push_leaf(&mut fashion, "Accessories");
        push_leaf(&mut fashion, "Other");
        assert(category_views(fashion@) =~= default_categories()[2].lower_categories->0);
        push_group(&mut categories, "Fashion", fashion);

        let mut vehicles: Vec<Category> = Vec::new();
        push_leaf(&mut vehicles, "Cars");
        push_leaf(&mut vehicles, "Motorcycles");
        push_leaf(&mut vehicles, "Bicycles");
        push_leaf(&mut vehicles, "Other");
        assert(category_views(vehicles@) =~= default_categories()[3].lower_categories->0);
        push_group(&mut categories, "Vehicles", vehicles);

        let mut agriculture: Vec<Category> = Vec::new();
        push_leaf(&mut agriculture, "Crops");
        push_leaf(&mut agriculture, "Animal Husbandry");
        push_leaf(&mut agriculture, "Other");
        assert(category_views(agriculture@) =~= default_categories()[4].lower_categories->0);
        push_group(&mut categories, "Agriculture", agriculture);

        let mut handicraft: Vec<Category> = Vec::new();
        push_leaf(&mut handicraft, "Jewelry");
        push_leaf(&mut handicraft, "Home Decorations");
        push_leaf(&mut handicraft, "Other");
        assert(category_views(handicraft@) =~= default_categories()[5].lower_categories->0);
        push_group(&mut categories, "Handicraft", handicraft);

        let mut books: Vec<Category> = Vec::new();
        push_leaf(&mut books, "Fiction");
        push_leaf(&mut books, "Non-fiction");
        push_leaf(&mut books, "Comics");
        push_leaf(&mut books, "Other");
        assert(category_views(books@) =~= default_categories()[6].lower_categories->0);
        push_group(&mut categories, "Books", books);

        assert(category_views(categories@) =~= default_categories());
        Config {
            max_description_len: 2000,
            max_title_len: 250,
            min_description_len: 50,
            min_title_len: 12,
            min_user_name_len: 5,
            max_user_name_len: 50,
            min_company_name_len: 5,
            max_company_name_len: 50,
            categories,
        }
    }
}

impl Clone for Config {
    /// A copy with the same bounds and the same category tree.
    fn clone(&self) -> (copy: Self)
        ensures
            copy@ == self@,
    {
        let mut categories: Vec<Category> = Vec::new();
        let mut i: usize = 0;
        while i < self.categories.len()
            invariant
                i <= self.categories.len(),
                categories.len() == i,
                forall|j: int| 0 <= j < i ==> (#[trigger] categories[j])@ == self.categories[j]@,
            decreases self.categories.len() - i,
        {
            categories.push(self.categories[i].clone());
            i += 1;
        }
        proof {
            lemma_category_views_index(self.categories@);
            lemma_category_views_index(categories@);
            assert(category_views(categories@) =~= category_views(self.categories@));
        }
        Config {
            max_description_len: self.max_description_len,
            max_title_len: self.max_title_len,
            min_description_len: self.min_description_len,
            min_title_len: self.min_title_len,
            categories,
            min_user_name_len: self.min_user_name_len,
            max_user_name_len: self.max_user_name_len,
            min_company_name_len: self.min_company_name_len,
            max_company_name_len: self.max_company_name_len,
        }
    }
}

} // verus!
