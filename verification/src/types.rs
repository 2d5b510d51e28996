//! Shared value types: the dish category with its persisted text form,
//! the keys of the cache that never change, and what requests answer with.

use crate::db_models::{Dish, Order};
use crate::errors::ServiceError;
use vstd::prelude::*;
use vstd::string::*;

verus! {

/// Key of the singleton pointer that names the menu currently served.
pub const ACTIVE_MENU_KEY: &'static str = "active-menu";

/// Prefix of every menu key.
pub const MENU_KEY: &'static str = "menu";

/// Why a connection pool could not be set up.
#[derive(Debug, Clone, PartialEq, Eq)]
pub struct PoolInitializationError(pub String);

/// A stored dish category that names no known variant.
#[derive(Debug, Clone, PartialEq, Eq)]
pub struct UnknownDishType(pub String);

/// The closed set of dish categories.
#[derive(Debug, Clone, Copy, PartialEq, Eq, Structural, Hash)]
pub enum DishType {
    Main,
    Appetizer,
    Garnish,
    Cold,
    Salad,
    Drink,
    Alcohol,
}

/// One ingredient of a new dish: the product and the grams used per portion.
#[derive(Debug, Clone, Copy, PartialEq, Eq, Structural)]
pub struct Ingredient {
    pub id: i64,
    pub used_g: i32,
}

/// A dish as the cache holds it: the dish and, for each of its
/// ingredients, the name of the product and the grams of it in one portion.
#[derive(Debug, Clone, PartialEq, Eq)]
pub struct RedisDish {
    pub dish: Dish,
    pub ingredients: Vec<(String, i32)>,
}

/// A dish of an order with the number of portions ordered.
#[derive(Debug, Clone, PartialEq, Eq)]
pub struct DishWithCount {
    pub dish: Dish,
    pub count: i32,
}

/// An order with its dishes.
#[derive(Debug, Clone, PartialEq, Eq)]
pub struct OrderInfo {
    pub order: Order,
    pub dishes: Vec<DishWithCount>,
}

impl PoolInitializationError {
    /// What went wrong, in words.
    pub fn message(&self) -> (text: String)
        ensures
            text@ == self.0@,
    {
        self.0.clone()
    }
}

impl UnknownDishType {
    /// The error for a stored category that names no variant.
    pub fn new() -> (error: UnknownDishType)
        ensures
            error.0@ == "Couldn't recognize dish type"@,
    {
        UnknownDishType(String::from_str("Couldn't recognize dish type"))
    }

    /// What went wrong, in words.
    pub fn message(&self) -> (text: String)
        ensures
            text@ == self.0@,
    {
        self.0.clone()
    }
}

/// Whether two texts hold the same characters.
pub fn same_text(a: &str, b: &str) -> (same: bool)
    ensures
        same == (a@ == b@),
{
    String::from_str(a) == String::from_str(b)
}

impl DishType {
    /// The text under which a category is persisted.
    pub open spec fn text(self) -> Seq<char> {
        match self {
            DishType::Main => "main"@,
            DishType::Appetizer => "appetizer"@,
            DishType::Garnish => "garnish"@,
            DishType::Cold => "cold"@,
            DishType::Salad => "salad"@,
            DishType::Drink => "drink"@,
            DishType::Alcohol => "alcohol"@,
        }
    }

    /// The category that a text names, if any.
    pub open spec fn parse(input: Seq<char>) -> Option<DishType> {
        if input == "main"@ {
            Some(DishType::Main)
        } else if input == "appetizer"@ {
            Some(DishType::Appetizer)
        } else if input == "garnish"@ {
            Some(DishType::Garnish)
        } else if input == "cold"@ {
            Some(DishType::Cold)
        } else if input == "salad"@ {
            Some(DishType::Salad)
        } else if input == "drink"@ {
            Some(DishType::Drink)
        } else if input == "alcohol"@ {
            Some(DishType::Alcohol)
        } else {
            None
        }
    }

    /// The message that rejects a text naming no category.
    pub open spec fn rejection(input: Seq<char>) -> Seq<char> {
        "Couldn't recognize dish type: "@ + input
    }

    pub fn to_string(self) -> (text: String)
        ensures
            text@ == self.text(),
    {
        match self {
            DishType::Main => String::from_str("main"),
            DishType::Appetizer => String::from_str("appetizer"),
            DishType::Garnish => String::from_str("garnish"),
            DishType::Cold => String::from_str("cold"),
            DishType::Salad => String::from_str("salad"),
            DishType::Drink => String::from_str("drink"),
            DishType::Alcohol => String::from_str("alcohol"),
        }
    }

    /// The category that a stored text names; a text that names none is
    /// an error of its own, not a crash.
    pub fn decode(input: &str) -> (decoded: Result<DishType, ServiceError>)
        ensures
            decoded == match DishType::parse(input@) {
                Some(category) => Ok::<DishType, ServiceError>(category),
                None => Err::<DishType, ServiceError>(ServiceError::UnknownCategory),
            },
    {
        match DishType::from_string(input) {
            Ok(category) => Ok(category),
            Err(_) => Err(ServiceError::UnknownCategory),
        }
    }

    pub fn from_string(input: &str) -> (parsed: Result<Self, String>)
        ensures
            match parsed {
                Ok(category) => DishType::parse(input@) == Some(category),
                Err(message) => DishType::parse(input@) is None && message@ == DishType::rejection(
                    input@,
                ),
            },
    {
        if same_text(input, "main") {
            Ok(DishType::Main)
        } else if same_text(input, "appetizer") {
            Ok(DishType::Appetizer)
        } else if same_text(input, "garnish") {
            Ok(DishType::Garnish)
        } else if same_text(input, "cold") {
            Ok(DishType::Cold)
        } else if same_text(input, "salad") {
            Ok(DishType::Salad)
        } else if same_text(input, "drink") {
            Ok(DishType::Drink)
        } else if same_text(input, "alcohol") {
            Ok(DishType::Alcohol)
        } else {
            Err(String::from_str("Couldn't recognize dish type: ").concat(input))
        }
    }
}

/// Every category is read back from its own persisted text.
pub proof fn lemma_text_round_trip(category: DishType)
    ensures
        DishType::parse(category.text()) == Some(category),
{
    reveal_strlit("main");
    reveal_strlit("appetizer");
    reveal_strlit("garnish");
    reveal_strlit("cold");
    reveal_strlit("salad");
    reveal_strlit("drink");
    reveal_strlit("alcohol");
    assert("appetizer"@.len() == 9);
    assert("garnish"@[0] == 'g');
    assert("cold"@[0] == 'c');
    assert("salad"@[0] == 's');
    assert("drink"@[0] == 'd');
    assert("alcohol"@[0] == 'a');
    assert("main"@[0] == 'm');
}

} // verus!
