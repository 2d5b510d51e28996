//! The requests that the store answers, one struct for each.

use crate::types::{DishType, Ingredient};
use vstd::prelude::*;
use vstd::string::*;

verus! {

#[derive(Debug, Clone, Copy, PartialEq, Eq, Structural)]
pub struct FetchWaiters;

#[derive(Debug, Clone, PartialEq, Eq)]
pub struct AddWaiter {
    pub first_name: String,
    pub last_name: String,
    pub is_admin: bool,
}

#[derive(Debug, Clone, Copy, PartialEq, Eq, Structural)]
pub struct FetchDish(pub i64);

#[derive(Debug, Clone, Copy, PartialEq, Eq, Structural)]
pub struct FetchDishes;

#[derive(Debug, Clone, PartialEq, Eq)]
pub struct FetchSpecificDishes(pub Vec<i64>);

#[derive(Debug, Clone, Copy, PartialEq, Eq, Structural)]
pub struct FetchDishIngredients(pub i64);

/// Asks for a new draft order at a table; the answer is the id of the order.
#[derive(Debug, Clone, Copy, PartialEq, Eq, Structural)]
pub struct CreateOrder(pub i64);

#[derive(Debug, Clone, Copy, PartialEq, Eq, Structural)]
pub struct FetchOrder(pub i64);

#[derive(Debug, Clone, Copy, PartialEq, Eq, Structural)]
pub struct FetchOrders;

#[derive(Debug, Clone, Copy, PartialEq, Eq, Structural)]
pub struct AddDishToOrder {
    pub order_id: i64,
    pub dish_id: i64,
}

#[derive(Debug, Clone, Copy, PartialEq, Eq, Structural)]
pub struct DecrementDishInOrder {
    pub order_id: i64,
    pub dish_id: i64,
}

#[derive(Debug, Clone, Copy, PartialEq, Eq, Structural)]
pub struct DeleteDishFromOrder {
    pub order_id: i64,
    pub dish_id: i64,
}

#[derive(Debug, Clone, Copy, PartialEq, Eq, Structural)]
pub struct ConfirmOrder(pub i64);

#[derive(Debug, Clone, Copy, PartialEq, Eq, Structural)]
pub struct CookOrder(pub i64);

#[derive(Debug, Clone, Copy, PartialEq, Eq, Structural)]
pub struct PayForOrder(pub i64);

#[derive(Debug, Clone, PartialEq, Eq)]
pub struct CreateDish {
    pub dish_name: String,
    pub dish_type: DishType,
    pub price: i32,
    pub approx_cook_time_s: i32,
    pub portion_weight_g: i32,
    pub ingredients: Vec<Ingredient>,
}

} // verus!
