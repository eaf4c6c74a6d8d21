//! A restaurant's front and back of house, flattened into one module.

use vstd::prelude::*;

verus! {

pub fn seat_at_table() {
}

pub fn add_to_waitlist() {
}

pub fn take_order() {
}

pub fn serve_order() {
}

pub fn take_payment() {
}

pub fn cook_order() {
}

pub fn fix_incorrect_order() {
    cook_order();
    serve_order();
}

/// A breakfast order; the seasonal fruit is the kitchen's choice.
pub struct Breakfast {
    pub toast: String,
    seasonal_fruit: String,
}

impl Breakfast {
    /// The kitchen's fruit pick, visible to contracts though the field
    /// itself is not.
    pub closed spec fn spec_fruit(self) -> Seq<char> {
        self.seasonal_fruit@
    }

    /// The chosen toast, for contracts; the struct is opaque to specs
    /// outside its module because one field is private.
    pub closed spec fn spec_toast(self) -> Seq<char> {
        self.toast@
    }

    /// A summer breakfast: the customer's toast, peaches from the
    /// kitchen.
    pub fn summer(toast: &str) -> (r: Breakfast)
        ensures
            r.spec_toast() == toast@,
            r.spec_fruit() == "peaches"@,
    {
        Breakfast { toast: String::from_str(toast), seasonal_fruit: String::from_str("peaches") }
    }
}

/// Starters on the menu.
pub enum Appetizer {
    Soup,
    Salad,
}

/// Order a meal and adjust the toast.
pub fn eat_at_restaurant() {
    crate::eatery::add_to_waitlist();
    add_to_waitlist();
    let mut meal = Breakfast::summer("rye");
    meal.toast = String::from_str("wheat");
    let _order1 = Appetizer::Soup;
    let _order2 = Appetizer::Salad;
}

} // verus!
