//! The rows that are handed to the store for insertion: a row without the
//! id that the store gives it.

use crate::calendar::{Date, DateTime};
use vstd::prelude::*;
use vstd::string::*;

verus! {

#[derive(Debug, Clone, PartialEq, Eq)]
pub struct NewWaiter {
    pub first_name: String,
    pub last_name: String,
}

#[derive(Debug, Clone, Copy, PartialEq, Eq, Structural)]
pub struct OrderDish {
    pub dish_id: i64,
    pub order_id: i64,
    pub count: i32,
    pub price: i32,
}

#[derive(Debug, Clone, Copy, PartialEq, Eq, Structural)]
pub struct NewOrder {
    pub table_id: i64,
    pub total_cost: i32,
    pub created_at: DateTime,
}

#[derive(Debug, Clone, Copy, PartialEq, Eq, Structural)]
pub struct NewStats {
    pub day: Date,
    pub income: i32,
}

#[derive(Debug, Clone, PartialEq, Eq)]
pub struct NewDish {
    pub name: String,
    pub type_: String,
    pub approx_cook_time_s: i32,
    pub portion_weight_g: i32,
    pub price: i32,
}

#[derive(Debug, Clone, Copy, PartialEq, Eq, Structural)]
pub struct DishProductMapping {
    pub dish_id: i64,
    pub product_id: i64,
    pub weight_g: i32,
}

} // verus!
