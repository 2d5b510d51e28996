//! The rows of the relational store, one struct for each table.

use crate::calendar::{Date, DateTime};
use crate::types::DishType;
use vstd::prelude::*;
use vstd::string::*;

verus! {

/// One line of an order: a dish, how often it was ordered, and the price
/// of the dish at the time the line was made.
#[derive(Debug, Clone, Copy, PartialEq, Eq, Structural)]
pub struct DishToOrder {
    pub id: i64,
    pub dish_id: i64,
    pub order_id: i64,
    pub count: i32,
    pub price: i32,
}

/// How many grams of a product one portion of a dish takes.
#[derive(Debug, Clone, Copy, PartialEq, Eq, Structural)]
pub struct DishToProduct {
    pub id: i64,
    pub dish_id: i64,
    pub product_id: i64,
    pub weight_g: i32,
}

#[derive(Debug, PartialEq, Eq)]
pub struct Dish {
    pub id: i64,
    pub name: String,
    pub type_: DishType,
    pub portion_weight_g: i32,
    pub price: i32,
    pub approx_cook_time_s: i32,
}

/// An order with its three flags; each flag has the time at which it was set.
#[derive(Debug, Clone, Copy, PartialEq, Eq, Structural)]
pub struct Order {
    pub id: i64,
    pub table_id: i64,
    pub total_cost: i32,
    pub is_confirmed: bool,
    pub is_paid: bool,
    pub is_cooked: bool,
    pub created_at: DateTime,
    pub cooked_at: Option<DateTime>,
    pub confirmed_at: Option<DateTime>,
    pub paid_at: Option<DateTime>,
}

#[derive(Debug, PartialEq, Eq)]
pub struct Product {
    pub id: i64,
    pub name: String,
    pub in_stock_g: i32,
}

/// The income of one day.
#[derive(Debug, Clone, Copy, PartialEq, Eq, Structural)]
pub struct Stats {
    pub id: i64,
    pub day: Date,
    pub income: i32,
}

/// A table as the floor plan knows it: its seats, who holds it, and the
/// waiter who serves it.
#[derive(Debug, Clone, PartialEq, Eq)]
pub struct RestaurantTable {
    pub id: i64,
    pub seat_count: u32,
    pub is_occupied: bool,
    pub reserved_at: Option<DateTime>,
    pub reserved_by: Option<String>,
    pub waiter_id: i64,
}

#[derive(Debug, Clone, PartialEq, Eq)]
pub struct Table {
    pub id: i64,
    pub seat_count: i32,
    pub is_occupied: bool,
    pub reserved_at: Option<DateTime>,
    pub reserved_by: Option<String>,
    pub waiter_id: Option<i64>,
}

#[derive(Debug, PartialEq, Eq)]
pub struct Waiter {
    pub id: i64,
    pub first_name: String,
    pub last_name: String,
}

#[derive(Debug, Clone, PartialEq, Eq)]
pub struct Worker {
    pub id: i32,
    pub first_name: String,
    pub last_name: String,
    pub role_id: i32,
    pub created_at: DateTime,
    pub deleted_at: Option<DateTime>,
}

#[derive(Debug, Clone, PartialEq, Eq)]
pub struct WorkerAuth {
    pub id: i32,
    pub email: String,
    pub password: String,
    pub token: Option<String>,
    pub worker_id: i32,
    pub created_at: DateTime,
    pub deleted_at: Option<DateTime>,
}

#[derive(Debug, Clone, PartialEq, Eq)]
pub struct WorkerRole {
    pub id: i32,
    pub title: String,
    pub created_at: DateTime,
    pub deleted_at: Option<DateTime>,
}

impl Clone for Dish {
    fn clone(&self) -> (copy: Self)
        ensures
            copy == *self,
    {
        Dish {
            id: self.id,
            name: self.name.clone(),
            type_: self.type_,
            portion_weight_g: self.portion_weight_g,
            price: self.price,
            approx_cook_time_s: self.approx_cook_time_s,
        }
    }
}

impl Clone for Product {
    fn clone(&self) -> (copy: Self)
        ensures
            copy == *self,
    {
        Product { id: self.id, name: self.name.clone(), in_stock_g: self.in_stock_g }
    }
}

impl Clone for Waiter {
    fn clone(&self) -> (copy: Self)
        ensures
            copy == *self,
    {
        Waiter {
            id: self.id,
            first_name: self.first_name.clone(),
            last_name: self.last_name.clone(),
        }
    }
}

impl Order {
    /// The flags of an order never contradict each other: what is cooked
    /// or paid was confirmed, and a flag is set exactly where its time is.
    pub open spec fn wf(self) -> bool {
        &&& self.is_cooked ==> self.is_confirmed
        &&& self.is_paid ==> self.is_confirmed
        &&& self.is_confirmed <==> self.confirmed_at is Some
        &&& self.is_cooked <==> self.cooked_at is Some
        &&& self.is_paid <==> self.paid_at is Some
    }

    /// Whether the lines of the order can still change.
    pub open spec fn is_draft(self) -> bool {
        !self.is_confirmed
    }
}

} // verus!
