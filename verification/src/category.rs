//! The category tree that listings are filed under.

use vstd::prelude::*;

verus! {

/// A category with its sub-categories, if it has any.
#[derive(Debug)]
pub struct Category {
    pub name: String,
    pub lower_categories: Option<Vec<Category>>,
}

/// What a `Category` stands for: its name and the trees below it.
pub struct CategoryView {
    pub name: Seq<char>,
    pub lower_categories: Option<Seq<CategoryView>>,
}

/// The views of a list of categories, in order.
pub open spec fn category_views(categories: Seq<Category>) -> Seq<CategoryView>
    decreases categories, 0nat,
{
    if categories.len() == 0 {
        Seq::empty()
    } else {
        category_views(categories.drop_last()).push(category_view(categories.last()))
    }
}

/// The view of one category.
pub open spec fn category_view(category: Category) -> CategoryView
    decreases category, 1nat,
{
    CategoryView {
        name: category.name@,
        lower_categories: match category.lower_categories {
            None => None,
            Some(lower) => Some(category_views(lower@)),
        },
    }
}

impl View for Category {
    type V = CategoryView;

    open spec fn view(&self) -> CategoryView {
        category_view(*self)
    }
}

/// Adding a category at the end adds its view at the end.
pub proof fn lemma_category_views_push(categories: Seq<Category>, category: Category)
    ensures
        category_views(categories.push(category)) == category_views(categories).push(category@),
{
    assert(categories.push(category).drop_last() =~= categories);
}

/// The views of a list are the views of its members, position by position.
pub proof fn lemma_category_views_index(categories: Seq<Category>)
    ensures
        category_views(categories).len() == categories.len(),
        forall|i: int|
            0 <= i < categories.len() ==> (#[trigger] category_views(categories)[i])
                == categories[i]@,
    decreases categories.len(),
{
    if categories.len() > 0 {
        lemma_category_views_index(categories.drop_last());
    }
}

impl Clone for Category {
    /// A copy that stands for the same tree.
    fn clone(&self) -> (copy: Self)
        ensures
            copy@ == self@,
        decreases self,
    {
        let lower_categories = match &self.lower_categories {
            None => None,
            Some(lower) => {
                let mut copies: Vec<Category> = Vec::new();
                let mut i: usize = 0;
                while i < lower.len()
                    invariant
                        i <= lower.len(),
                        copies.len() == i,
                        self.lower_categories == Some(*lower),
                        forall|j: int| 0 <= j < i ==> (#[trigger] copies[j])@ == lower[j]@,
                    decreases lower.len() - i,
                {
                    proof {
                        assert(decreases_to!(self => self.lower_categories->0));
                    }
                    copies.push(lower[i].clone());
                    i += 1;
                }
                proof {
                    lemma_category_views_index(lower@);
                    lemma_category_views_index(copies@);
                    assert(category_views(copies@) =~= category_views(lower@));
                }
                Some(copies)
            },
        };
        Category { name: self.name.clone(), lower_categories }
    }
}

impl Category {
    /// A category called `name` above `lower_categories`.
    pub fn new(name: String, lower_categories: Option<Vec<Category>>) -> (category: Self)
        ensures
            category.name == name,
            category.lower_categories == lower_categories,
    {
        Category { name, lower_categories }
    }
}

} // verus!
