//! The rules of the order settlement engine, as decisions on rows.
//!
//! Each function takes what a store has read (the order, the line in
//! question, a price, the revenue row of the day) and answers with the
//! change to write, or with the error that forbids it. A line takes the
//! price of its dish at the time it is made. Deleting a dish that the order
//! does not hold changes nothing and is no error.

use crate::calendar::{Date, DateTime};
use crate::db_models::{DishToOrder, Order, Stats};
use crate::errors::ServiceError;
use crate::insertable::{NewOrder, NewStats, OrderDish};
use crate::messages::{AddDishToOrder, CreateOrder};
use vstd::prelude::*;

verus! {

/// What an operation on one dish of a draft order writes.
#[derive(Debug, Clone, Copy, PartialEq, Eq, Structural)]
pub enum LineChange {
    /// A line that was not there is made.
    Insert(OrderDish),
    /// The line with this id gets a new count.
    SetCount { line_id: i64, count: i32 },
    /// The line with this id goes.
    Delete { line_id: i64 },
}

/// What a payment writes to the revenue of its day.
#[derive(Debug, Clone, Copy, PartialEq, Eq, Structural)]
pub enum RevenueChange {
    /// The first payment of the day opens the day's row.
    Insert(NewStats),
    /// A later payment raises the income of the row with this id.
    SetIncome { stats_id: i64, income: i32 },
}

/// The draft order that `CreateOrder` asks for: bound to the table, at no cost.
pub open spec fn spec_draft_order(msg: CreateOrder, now: DateTime) -> NewOrder {
    NewOrder { table_id: msg.0, total_cost: 0, created_at: now }
}

/// The draft order that `CreateOrder` asks for.
pub fn draft_order(msg: CreateOrder, now: DateTime) -> (order: NewOrder)
    ensures
        order == spec_draft_order(msg, now),
{
    NewOrder { table_id: msg.0, total_cost: 0, created_at: now }
}

/// The row that a new order becomes under the id that the store gave it.
pub open spec fn spec_order_row(id: i64, order: NewOrder) -> Order {
    Order {
        id,
        table_id: order.table_id,
        total_cost: order.total_cost,
        is_confirmed: false,
        is_paid: false,
        is_cooked: false,
        created_at: order.created_at,
        cooked_at: None,
        confirmed_at: None,
        paid_at: None,
    }
}

/// The row that a new order becomes under the id that the store gave it.
pub fn order_row(id: i64, order: NewOrder) -> (row: Order)
    ensures
        row == spec_order_row(id, order),
        row.wf(),
        row.is_draft(),
{
    Order {
        id,
        table_id: order.table_id,
        total_cost: order.total_cost,
        is_confirmed: false,
        is_paid: false,
        is_cooked: false,
        created_at: order.created_at,
        cooked_at: None,
        confirmed_at: None,
        paid_at: None,
    }
}

impl Order {
    /// Confirming: refused where the order is confirmed already.
    pub open spec fn spec_confirm(self, now: DateTime) -> Result<Order, ServiceError> {
        if self.is_confirmed {
            Err(ServiceError::OrderAlreadyConfirmed)
        } else {
            Ok(Order { is_confirmed: true, confirmed_at: Some(now), ..self })
        }
    }

    /// Cooking: refused before the order is confirmed and where it is cooked already.
    pub open spec fn spec_cook(self, now: DateTime) -> Result<Order, ServiceError> {
        if !self.is_confirmed {
            Err(ServiceError::OrderNotConfirmed)
        } else if self.is_cooked {
            Err(ServiceError::AlreadyCooked)
        } else {
            Ok(Order { is_cooked: true, cooked_at: Some(now), ..self })
        }
    }

    /// Paying: refused before the order is confirmed and where it is paid already.
    pub open spec fn spec_pay(self, now: DateTime) -> Result<Order, ServiceError> {
        if !self.is_confirmed {
            Err(ServiceError::OrderNotConfirmed)
        } else if self.is_paid {
            Err(ServiceError::AlreadyPaid)
        } else {
            Ok(Order { is_paid: true, paid_at: Some(now), ..self })
        }
    }

    /// Whether the lines of the order may change: they may until it is confirmed.
    pub fn ensure_draft(&self) -> (outcome: Result<(), ServiceError>)
        ensures
            outcome == (if self.is_confirmed {
                Err::<(), ServiceError>(ServiceError::OrderAlreadyConfirmed)
            } else {
                Ok::<(), ServiceError>(())
            }),
    {
        if self.is_confirmed {
            Err(ServiceError::OrderAlreadyConfirmed)
        } else {
            Ok(())
        }
    }

    /// The order as confirmed at `now`.
    pub fn confirm(&self, now: DateTime) -> (outcome: Result<Order, ServiceError>)
        ensures
            outcome == self.spec_confirm(now),
            outcome is Ok <==> !self.is_confirmed,
            self.wf() && outcome is Ok ==> outcome->Ok_0.wf(),
    {
        if self.is_confirmed {
            Err(ServiceError::OrderAlreadyConfirmed)
        } else {
            let mut next = *self;
            next.is_confirmed = true;
            next.confirmed_at = Some(now);
            Ok(next)
        }
    }

    /// The order as cooked at `now`.
    pub fn cook(&self, now: DateTime) -> (outcome: Result<Order, ServiceError>)
        ensures
            outcome == self.spec_cook(now),
            outcome is Ok <==> self.is_confirmed && !self.is_cooked,
            self.wf() && outcome is Ok ==> outcome->Ok_0.wf(),
    {
        if !self.is_confirmed {
            Err(ServiceError::OrderNotConfirmed)
        } else if self.is_cooked {
            Err(ServiceError::AlreadyCooked)
        } else {
            let mut next = *self;
            next.is_cooked = true;
            next.cooked_at = Some(now);
            Ok(next)
        }
    }

    /// The order as paid at `now`.
    pub fn pay(&self, now: DateTime) -> (outcome: Result<Order, ServiceError>)
        ensures
            outcome == self.spec_pay(now),
            outcome is Ok <==> self.is_confirmed && !self.is_paid,
            self.wf() && outcome is Ok ==> outcome->Ok_0.wf(),
    {
        if !self.is_confirmed {
            Err(ServiceError::OrderNotConfirmed)
        } else if self.is_paid {
            Err(ServiceError::AlreadyPaid)
        } else {
            let mut next = *self;
            next.is_paid = true;
            next.paid_at = Some(now);
            Ok(next)
        }
    }
}

/// Adding a dish: a line that is there counts one more, else a line of one
/// portion is made at the dish's price.
pub open spec fn spec_plan_add_dish(
    order: Order,
    line: Option<DishToOrder>,
    msg: AddDishToOrder,
    price: Option<i32>,
) -> Result<LineChange, ServiceError> {
    if order.is_confirmed {
        Err(ServiceError::OrderAlreadyConfirmed)
    } else {
        match line {
            Some(found) => if found.count == i32::MAX {
                Err(ServiceError::OutOfRange)
            } else {
                Ok(LineChange::SetCount { line_id: found.id, count: (found.count + 1) as i32 })
            },
            None => match price {
                Some(price) => Ok(
                    LineChange::Insert(
                        OrderDish { dish_id: msg.dish_id, order_id: msg.order_id, count: 1, price },
                    ),
                ),
                None => Err(ServiceError::DishNotFound),
            },
        }
    }
}

/// What adding a dish writes. `line` is the order's line for the dish, if
/// it has one; `price` is the price of the dish, `None` where the catalog
/// does not know the dish (it is read only where there is no line yet).
pub fn plan_add_dish(
    order: &Order,
    line: Option<DishToOrder>,
    msg: AddDishToOrder,
    price: Option<i32>,
) -> (plan: Result<LineChange, ServiceError>)
    ensures
        plan == spec_plan_add_dish(*order, line, msg, price),
{
    if order.is_confirmed {
        return Err(ServiceError::OrderAlreadyConfirmed);
    }
    match line {
        Some(found) => {
            if found.count == i32::MAX {
                Err(ServiceError::OutOfRange)
            } else {
                Ok(LineChange::SetCount { line_id: found.id, count: found.count + 1 })
            }
        },
        None => match price {
            Some(price) => Ok(
                LineChange::Insert(
                    OrderDish { dish_id: msg.dish_id, order_id: msg.order_id, count: 1, price },
                ),
            ),
            None => Err(ServiceError::DishNotFound),
        },
    }
}

/// Taking one portion back: the last portion takes the line with it (and
/// so does a count below one, which no line should have).
pub open spec fn spec_plan_decrement_dish(order: Order, line: Option<DishToOrder>) -> Result<
    LineChange,
    ServiceError,
> {
    if order.is_confirmed {
        Err(ServiceError::OrderAlreadyConfirmed)
    } else {
        match line {
            Some(found) => if found.count <= 1 {
                Ok(LineChange::Delete { line_id: found.id })
            } else {
                Ok(LineChange::SetCount { line_id: found.id, count: (found.count - 1) as i32 })
            },
            None => Err(ServiceError::LineNotFound),
        }
    }
}

/// What taking one portion back writes.
pub fn plan_decrement_dish(order: &Order, line: Option<DishToOrder>) -> (plan: Result<
    LineChange,
    ServiceError,
>)
    ensures
        plan == spec_plan_decrement_dish(*order, line),
{
    if order.is_confirmed {
        return Err(ServiceError::OrderAlreadyConfirmed);
    }
    match line {
        Some(found) => {
            if found.count <= 1 {
                Ok(LineChange::Delete { line_id: found.id })
            } else {
                Ok(LineChange::SetCount { line_id: found.id, count: found.count - 1 })
            }
        },
        None => Err(ServiceError::LineNotFound),
    }
}

/// A payment on a day: the day's row is opened with the cost, or its
/// income grows by the cost.
pub open spec fn spec_plan_revenue(today: Option<Stats>, day: Date, cost: i32) -> Result<
    RevenueChange,
    ServiceError,
> {
    match today {
        None => Ok(RevenueChange::Insert(NewStats { day, income: cost })),
        Some(row) => if i32::MIN <= row.income + cost <= i32::MAX {
            Ok(RevenueChange::SetIncome { stats_id: row.id, income: (row.income + cost) as i32 })
        } else {
            Err(ServiceError::OutOfRange)
        },
    }
}

/// What a payment of `cost` on `day` writes to the revenue; `today` is the
/// row of that day, if it has one.
pub fn plan_revenue(today: Option<Stats>, day: Date, cost: i32) -> (plan: Result<
    RevenueChange,
    ServiceError,
>)
    ensures
        plan == spec_plan_revenue(today, day, cost),
{
    match today {
        None => Ok(RevenueChange::Insert(NewStats { day, income: cost })),
        Some(row) => match row.income.checked_add(cost) {
            Some(income) => Ok(RevenueChange::SetIncome { stats_id: row.id, income }),
            None => Err(ServiceError::OutOfRange),
        },
    }
}

/// The stock that is left of a product after `used` grams went: refused
/// where the figure does not fit the column. A negative stock is accepted.
pub open spec fn spec_stock_after(in_stock_g: i32, used: int) -> Result<i32, ServiceError> {
    if i32::MIN <= in_stock_g - used <= i32::MAX {
        Ok((in_stock_g - used) as i32)
    } else {
        Err(ServiceError::OutOfRange)
    }
}

/// The stock that is left of a product after `used` grams went.
pub fn stock_after(in_stock_g: i32, used: i128) -> (left: Result<i32, ServiceError>)
    ensures
        left == spec_stock_after(in_stock_g, used as int),
{
    if used < -0x1_0000_0000i128 || used > 0x1_0000_0000i128 {
        return Err(ServiceError::OutOfRange);
    }
    let left: i128 = in_stock_g as i128 - used;
    if left < i32::MIN as i128 || left > i32::MAX as i128 {
        Err(ServiceError::OutOfRange)
    } else {
        Ok(left as i32)
    }
}

} // verus!
