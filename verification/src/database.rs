//! An in-memory relational store that answers the requests of the
//! settlement engine by the rules of `settlement` and `stock`.
//!
//! The tables are plain vectors of rows. A request looks a row up as the
//! first one with the key in question, so every request has an answer
//! whatever the tables hold; `Tables::wf` says what holds of tables that
//! only these requests have written.

use crate::calendar::{Date, DateTime};
use crate::db_models::{Dish, DishToOrder, DishToProduct, Order, Product, Stats, Table, Waiter};
use crate::errors::ServiceError;
use crate::lookup::{
    as_place, every_row, first_index, is_first, lemma_first_index_is, lemma_first_index_none,
    pairwise,
};
use crate::messages::{
    AddDishToOrder, ConfirmOrder, CookOrder, CreateOrder, DecrementDishInOrder,
    DeleteDishFromOrder, PayForOrder,
};
use crate::settlement::{
    draft_order, order_row, plan_add_dish, plan_decrement_dish, plan_revenue, spec_draft_order,
    spec_order_row, spec_plan_add_dish, spec_plan_decrement_dish, spec_plan_revenue,
    spec_stock_after, stock_after, LineChange, RevenueChange,
};
use crate::stock::{consumption, consumption_of, within_limits, MAX_ROWS};
use vstd::prelude::*;

verus! {

/// The store: its tables, and the id that the next new row gets.
#[derive(Debug, PartialEq, Eq)]
pub struct Database {
    pub orders: Vec<Order>,
    pub dish_to_order: Vec<DishToOrder>,
    pub dishes: Vec<Dish>,
    pub dish_to_product: Vec<DishToProduct>,
    pub products: Vec<Product>,
    pub stats: Vec<Stats>,
    pub tables: Vec<Table>,
    pub waiters: Vec<Waiter>,
    pub next_id: i64,
}

/// What a store holds, as sequences of rows.
#[verifier::ext_equal]
pub struct Tables {
    pub orders: Seq<Order>,
    pub lines: Seq<DishToOrder>,
    pub dishes: Seq<Dish>,
    pub usages: Seq<DishToProduct>,
    pub products: Seq<Product>,
    pub stats: Seq<Stats>,
    pub tables: Seq<Table>,
    pub waiters: Seq<Waiter>,
    pub next_id: i64,
}

impl View for Database {
    type V = Tables;

    open spec fn view(&self) -> Tables {
        Tables {
            orders: self.orders@,
            lines: self.dish_to_order@,
            dishes: self.dishes@,
            usages: self.dish_to_product@,
            products: self.products@,
            stats: self.stats@,
            tables: self.tables@,
            waiters: self.waiters@,
            next_id: self.next_id,
        }
    }
}

/// The orders with the given id.
pub open spec fn order_with(id: i64) -> spec_fn(Order) -> bool {
    |order: Order| order.id == id
}

/// The lines of the given order for the given dish.
pub open spec fn line_of(order_id: i64, dish_id: i64) -> spec_fn(DishToOrder) -> bool {
    |line: DishToOrder| line.order_id == order_id && line.dish_id == dish_id
}

/// The lines that are not of the given order for the given dish.
pub open spec fn line_not_of(order_id: i64, dish_id: i64) -> spec_fn(DishToOrder) -> bool {
    |line: DishToOrder| !(line.order_id == order_id && line.dish_id == dish_id)
}

/// The dishes with the given id.
pub open spec fn dish_with(id: i64) -> spec_fn(Dish) -> bool {
    |dish: Dish| dish.id == id
}

/// The tables with the given id.
pub open spec fn table_with(id: i64) -> spec_fn(Table) -> bool {
    |table: Table| table.id == id
}

/// The products with the given id.
pub open spec fn product_with(id: i64) -> spec_fn(Product) -> bool {
    |product: Product| product.id == id
}

/// The revenue rows of the given day.
pub open spec fn stats_of(day: Date) -> spec_fn(Stats) -> bool {
    |row: Stats| row.day == day
}

/// The line that an inserted row becomes under the id that the store gave it.
pub open spec fn line_row(id: i64, row: crate::insertable::OrderDish) -> DishToOrder {
    DishToOrder {
        id,
        dish_id: row.dish_id,
        order_id: row.order_id,
        count: row.count,
        price: row.price,
    }
}

/// Two orders have different ids.
pub open spec fn distinct_orders() -> spec_fn(Order, Order) -> bool {
    |a: Order, b: Order| a.id != b.id
}

/// Two lines are not of one order for one dish.
pub open spec fn distinct_lines() -> spec_fn(DishToOrder, DishToOrder) -> bool {
    |a: DishToOrder, b: DishToOrder| !(a.order_id == b.order_id && a.dish_id == b.dish_id)
}

/// Two revenue rows are of different days.
pub open spec fn distinct_days() -> spec_fn(Stats, Stats) -> bool {
    |a: Stats, b: Stats| a.day != b.day
}

/// The flags of the order agree and its id was given out already.
pub open spec fn sound_order(next_id: i64) -> spec_fn(Order) -> bool {
    |order: Order| order.wf() && order.id < next_id
}

/// The line counts at least one portion.
pub open spec fn positive_count() -> spec_fn(DishToOrder) -> bool {
    |line: DishToOrder| line.count >= 1
}

impl Tables {
    /// What holds of tables that only the requests of this module have
    /// written: every order has agreeing flags and an id of its own, an
    /// order has at most one line for a dish, every line counts at least
    /// one portion, and a day has at most one revenue row.
    pub open spec fn wf(self) -> bool {
        &&& every_row(self.orders, sound_order(self.next_id))
        &&& pairwise(self.orders, distinct_orders())
        &&& pairwise(self.lines, distinct_lines())
        &&& every_row(self.lines, positive_count())
        &&& pairwise(self.stats, distinct_days())
    }

    /// The place of the order.
    pub open spec fn order_at(self, id: i64) -> Option<int> {
        first_index(self.orders, order_with(id))
    }

    /// The order with the given id.
    pub open spec fn order(self, id: i64) -> Option<Order> {
        match self.order_at(id) {
            Some(i) => Some(self.orders[i]),
            None => None,
        }
    }

    /// The place of the order's line for the dish.
    pub open spec fn line_at(self, order_id: i64, dish_id: i64) -> Option<int> {
        first_index(self.lines, line_of(order_id, dish_id))
    }

    /// The order's line for the dish.
    pub open spec fn line(self, order_id: i64, dish_id: i64) -> Option<DishToOrder> {
        match self.line_at(order_id, dish_id) {
            Some(i) => Some(self.lines[i]),
            None => None,
        }
    }

    /// The price of the dish in the catalog.
    pub open spec fn price_of(self, dish_id: i64) -> Option<i32> {
        match first_index(self.dishes, dish_with(dish_id)) {
            Some(i) => Some(self.dishes[i].price),
            None => None,
        }
    }

    /// Whether there is a table with the id.
    pub open spec fn has_table(self, id: i64) -> bool {
        first_index(self.tables, table_with(id)) is Some
    }

    /// The place of the revenue row of the day.
    pub open spec fn stats_at(self, day: Date) -> Option<int> {
        first_index(self.stats, stats_of(day))
    }

    /// The revenue row of the day.
    pub open spec fn stats_row(self, day: Date) -> Option<Stats> {
        match self.stats_at(day) {
            Some(i) => Some(self.stats[i]),
            None => None,
        }
    }

    /// `CreateOrder`: a draft order for a table that exists.
    pub open spec fn create_order(self, msg: CreateOrder, now: DateTime) -> (Tables, Result<
        i64,
        ServiceError,
    >) {
        if !self.has_table(msg.0) {
            (self, Err(ServiceError::TableNotFound))
        } else if self.next_id == i64::MAX {
            (self, Err(ServiceError::OutOfRange))
        } else {
            (
                Tables {
                    orders: self.orders.push(
                        spec_order_row(self.next_id, spec_draft_order(msg, now)),
                    ),
                    next_id: (self.next_id + 1) as i64,
                    ..self
                },
                Ok(self.next_id),
            )
        }
    }

    /// The tables after a change to the order's line for the dish.
    pub open spec fn with_line_change(
        self,
        order_id: i64,
        dish_id: i64,
        change: LineChange,
    ) -> (Tables, Result<i64, ServiceError>) {
        match change {
            LineChange::Insert(row) => if self.next_id == i64::MAX {
                (self, Err(ServiceError::OutOfRange))
            } else {
                (
                    Tables {
                        lines: self.lines.push(line_row(self.next_id, row)),
                        next_id: (self.next_id + 1) as i64,
                        ..self
                    },
                    Ok(order_id),
                )
            },
            LineChange::SetCount { count, .. } => match self.line_at(order_id, dish_id) {
                Some(i) => (
                    Tables {
                        lines: self.lines.update(i, DishToOrder { count, ..self.lines[i] }),
                        ..self
                    },
                    Ok(order_id),
                ),
                None => (self, Ok(order_id)),
            },
            LineChange::Delete { .. } => match self.line_at(order_id, dish_id) {
                Some(i) => (Tables { lines: self.lines.remove(i), ..self }, Ok(order_id)),
                None => (self, Ok(order_id)),
            },
        }
    }

    /// `AddDishToOrder`.
    pub open spec fn add_dish_to_order(self, msg: AddDishToOrder) -> (Tables, Result<
        i64,
        ServiceError,
    >) {
        match self.order(msg.order_id) {
            None => (self, Err(ServiceError::OrderNotFound)),
            Some(order) => match spec_plan_add_dish(
                order,
                self.line(msg.order_id, msg.dish_id),
                msg,
                self.price_of(msg.dish_id),
            ) {
                Err(error) => (self, Err(error)),
                Ok(change) => self.with_line_change(msg.order_id, msg.dish_id, change),
            },
        }
    }

    /// `DecrementDishInOrder`.
    pub open spec fn decrement_dish_in_order(self, msg: DecrementDishInOrder) -> (Tables, Result<
        i64,
        ServiceError,
    >) {
        match self.order(msg.order_id) {
            None => (self, Err(ServiceError::OrderNotFound)),
            Some(order) => match spec_plan_decrement_dish(
                order,
                self.line(msg.order_id, msg.dish_id),
            ) {
                Err(error) => (self, Err(error)),
                Ok(change) => self.with_line_change(msg.order_id, msg.dish_id, change),
            },
        }
    }

    /// `DeleteDishFromOrder`: every line of the order for the dish goes.
    pub open spec fn delete_dish_from_order(self, msg: DeleteDishFromOrder) -> (Tables, Result<
        i64,
        ServiceError,
    >) {
        match self.order(msg.order_id) {
            None => (self, Err(ServiceError::OrderNotFound)),
            Some(order) => if order.is_confirmed {
                (self, Err(ServiceError::OrderAlreadyConfirmed))
            } else {
                (
                    Tables {
                        lines: self.lines.filter(line_not_of(msg.order_id, msg.dish_id)),
                        ..self
                    },
                    Ok(msg.order_id),
                )
            },
        }
    }

    /// The stock that is left of the product in row `i` after the order took its share.
    pub open spec fn stock_left(self, order_id: i64, i: int) -> Result<i32, ServiceError> {
        spec_stock_after(
            self.products[i].in_stock_g,
            consumption(self.lines, self.usages, order_id, self.products[i].id),
        )
    }

    /// Whether the stock of every product stays within its column after
    /// the order took its share.
    pub open spec fn stock_in_range(self, order_id: i64) -> bool {
        forall|i: int| 0 <= i < self.products.len() ==> (#[trigger] self.stock_left(order_id, i)) is Ok
    }

    /// The products after the order took its share of each.
    pub open spec fn products_after(self, order_id: i64) -> Seq<Product> {
        Seq::new(
            self.products.len(),
            |i: int|
                Product {
                    id: self.products[i].id,
                    name: self.products[i].name,
                    in_stock_g: (self.products[i].in_stock_g - consumption(
                        self.lines,
                        self.usages,
                        order_id,
                        self.products[i].id,
                    )) as i32,
                },
        )
    }

    /// `ConfirmOrder`: the order is confirmed and the stock of every
    /// product falls by what the order takes of it, or nothing changes.
    pub open spec fn confirm_order(self, msg: ConfirmOrder, now: DateTime) -> (Tables, Result<
        (),
        ServiceError,
    >) {
        match self.order_at(msg.0) {
            None => (self, Err(ServiceError::OrderNotFound)),
            Some(at) => match self.orders[at].spec_confirm(now) {
                Err(error) => (self, Err(error)),
                Ok(confirmed) => if within_limits(self.lines, self.usages) && self.stock_in_range(
                    msg.0,
                ) {
                    (
                        Tables {
                            orders: self.orders.update(at, confirmed),
                            products: self.products_after(msg.0),
                            ..self
                        },
                        Ok(()),
                    )
                } else {
                    (self, Err(ServiceError::OutOfRange))
                },
            },
        }
    }

    /// `CookOrder`.
    pub open spec fn cook_order(self, msg: CookOrder, now: DateTime) -> (Tables, Result<
        (),
        ServiceError,
    >) {
        match self.order_at(msg.0) {
            None => (self, Err(ServiceError::OrderNotFound)),
            Some(at) => match self.orders[at].spec_cook(now) {
                Err(error) => (self, Err(error)),
                Ok(cooked) => (Tables { orders: self.orders.update(at, cooked), ..self }, Ok(())),
            },
        }
    }

    /// The tables after a change to the revenue of a day.
    pub open spec fn with_revenue_change(self, day: Date, change: RevenueChange) -> (Tables, Result<
        (),
        ServiceError,
    >) {
        match change {
            RevenueChange::Insert(row) => if self.next_id == i64::MAX {
                (self, Err(ServiceError::OutOfRange))
            } else {
                (
                    Tables {
                        stats: self.stats.push(
                            Stats { id: self.next_id, day: row.day, income: row.income },
                        ),
                        next_id: (self.next_id + 1) as i64,
                        ..self
                    },
                    Ok(()),
                )
            },
            RevenueChange::SetIncome { income, .. } => match self.stats_at(day) {
                Some(i) => (
                    Tables {
                        stats: self.stats.update(i, Stats { income, ..self.stats[i] }),
                        ..self
                    },
                    Ok(()),
                ),
                None => (self, Ok(())),
            },
        }
    }

    /// `PayForOrder`: the order is paid and its cost is added to the
    /// revenue of the day of `now`, or nothing changes.
    pub open spec fn pay_for_order(self, msg: PayForOrder, now: DateTime) -> (Tables, Result<
        (),
        ServiceError,
    >) {
        match self.order_at(msg.0) {
            None => (self, Err(ServiceError::OrderNotFound)),
            Some(at) => match self.orders[at].spec_pay(now) {
                Err(error) => (self, Err(error)),
                Ok(paid) => match spec_plan_revenue(
                    self.stats_row(now.date),
                    now.date,
                    self.orders[at].total_cost,
                ) {
                    Err(error) => (self, Err(error)),
                    Ok(change) => {
                        let (after, outcome) = self.with_revenue_change(now.date, change);
                        match outcome {
                            Err(error) => (self, Err(error)),
                            Ok(_) => (
                                Tables { orders: after.orders.update(at, paid), ..after },
                                Ok(()),
                            ),
                        }
                    },
                },
            },
        }
    }
}

/// The place of the first order with the id.
pub fn find_order(orders: &Vec<Order>, id: i64) -> (found: Option<usize>)
    ensures
        as_place(found) == first_index(orders@, order_with(id)),
        found matches Some(i) ==> i < orders.len(),
{
    let mut i: usize = 0;
    while i < orders.len()
        invariant
            i <= orders.len(),
            forall|k: int| 0 <= k < i ==> !order_with(id)(#[trigger] orders@[k]),
        decreases orders.len() - i,
    {
        if orders[i].id == id {
            proof {
                assert(is_first(orders@, order_with(id), i as int));
                lemma_first_index_is(orders@, order_with(id), i as int);
            }
            return Some(i);
        }
        i = i + 1;
    }
    proof {
        lemma_first_index_none(orders@, order_with(id));
    }
    None
}

/// The place of the first line of the order for the dish.
pub fn find_line(lines: &Vec<DishToOrder>, order_id: i64, dish_id: i64) -> (found: Option<usize>)
    ensures
        as_place(found) == first_index(lines@, line_of(order_id, dish_id)),
        found matches Some(i) ==> i < lines.len(),
{
    let mut i: usize = 0;
    while i < lines.len()
        invariant
            i <= lines.len(),
            forall|k: int| 0 <= k < i ==> !line_of(order_id, dish_id)(#[trigger] lines@[k]),
        decreases lines.len() - i,
    {
        if lines[i].order_id == order_id && lines[i].dish_id == dish_id {
            proof {
                assert(is_first(lines@, line_of(order_id, dish_id), i as int));
                lemma_first_index_is(lines@, line_of(order_id, dish_id), i as int);
            }
            return Some(i);
        }
        i = i + 1;
    }
    proof {
        lemma_first_index_none(lines@, line_of(order_id, dish_id));
    }
    None
}

/// The place of the first dish with the id.
pub fn find_dish(dishes: &Vec<Dish>, id: i64) -> (found: Option<usize>)
    ensures
        as_place(found) == first_index(dishes@, dish_with(id)),
        found matches Some(i) ==> i < dishes.len(),
{
    let mut i: usize = 0;
    while i < dishes.len()
        invariant
            i <= dishes.len(),
            forall|k: int| 0 <= k < i ==> !dish_with(id)(#[trigger] dishes@[k]),
        decreases dishes.len() - i,
    {
        if dishes[i].id == id {
            proof {
                assert(is_first(dishes@, dish_with(id), i as int));
                lemma_first_index_is(dishes@, dish_with(id), i as int);
            }
            return Some(i);
        }
        i = i + 1;
    }
    proof {
        lemma_first_index_none(dishes@, dish_with(id));
    }
    None
}

/// The place of the first table with the id.
pub fn find_table(tables: &Vec<Table>, id: i64) -> (found: Option<usize>)
    ensures
        as_place(found) == first_index(tables@, table_with(id)),
        found matches Some(i) ==> i < tables.len(),
{
    let mut i: usize = 0;
    while i < tables.len()
        invariant
            i <= tables.len(),
            forall|k: int| 0 <= k < i ==> !table_with(id)(#[trigger] tables@[k]),
        decreases tables.len() - i,
    {
        if tables[i].id == id {
            proof {
                assert(is_first(tables@, table_with(id), i as int));
                lemma_first_index_is(tables@, table_with(id), i as int);
            }
            return Some(i);
        }
        i = i + 1;
    }
    proof {
        lemma_first_index_none(tables@, table_with(id));
    }
    None
}

/// The place of the first revenue row of the day.
pub fn find_stats(stats: &Vec<Stats>, day: Date) -> (found: Option<usize>)
    ensures
        as_place(found) == first_index(stats@, stats_of(day)),
        found matches Some(i) ==> i < stats.len(),
{
    let mut i: usize = 0;
    while i < stats.len()
        invariant
            i <= stats.len(),
            forall|k: int| 0 <= k < i ==> !stats_of(day)(#[trigger] stats@[k]),
        decreases stats.len() - i,
    {
        if stats[i].day == day {
            proof {
                assert(is_first(stats@, stats_of(day), i as int));
                lemma_first_index_is(stats@, stats_of(day), i as int);
            }
            return Some(i);
        }
        i = i + 1;
    }
    proof {
        lemma_first_index_none(stats@, stats_of(day));
    }
    None
}

impl Database {
    /// A store with empty tables.
    pub fn new() -> (db: Database)
        ensures
            db@.orders.len() == 0,
            db@.lines.len() == 0,
            db@.dishes.len() == 0,
            db@.usages.len() == 0,
            db@.products.len() == 0,
            db@.stats.len() == 0,
            db@.tables.len() == 0,
            db@.waiters.len() == 0,
            db@.next_id == 1,
            db@.wf(),
    {
        Database {
            orders: Vec::new(),
            dish_to_order: Vec::new(),
            dishes: Vec::new(),
            dish_to_product: Vec::new(),
            products: Vec::new(),
            stats: Vec::new(),
            tables: Vec::new(),
            waiters: Vec::new(),
            next_id: 1,
        }
    }

    /// The price of the dish in the catalog.
    fn price_of(&self, dish_id: i64) -> (price: Option<i32>)
        ensures
            price == self@.price_of(dish_id),
    {
        match find_dish(&self.dishes, dish_id) {
            Some(i) => Some(self.dishes[i].price),
            None => None,
        }
    }

    /// The order's line for the dish.
    fn line(&self, order_id: i64, dish_id: i64) -> (found: Option<DishToOrder>)
        ensures
            found == self@.line(order_id, dish_id),
    {
        match find_line(&self.dish_to_order, order_id, dish_id) {
            Some(i) => Some(self.dish_to_order[i]),
            None => None,
        }
    }

    /// Writes a change to the order's line for the dish.
    fn apply_line_change(&mut self, order_id: i64, dish_id: i64, change: LineChange) -> (outcome:
        Result<i64, ServiceError>)
        ensures
            final(self)@ == old(self)@.with_line_change(order_id, dish_id, change).0,
            outcome == old(self)@.with_line_change(order_id, dish_id, change).1,
    {
        match change {
            LineChange::Insert(row) => {
                if self.next_id == i64::MAX {
                    return Err(ServiceError::OutOfRange);
                }
                self.dish_to_order.push(
                    DishToOrder {
                        id: self.next_id,
                        dish_id: row.dish_id,
                        order_id: row.order_id,
                        count: row.count,
                        price: row.price,
                    },
                );
                self.next_id = self.next_id + 1;
            },
            LineChange::SetCount { line_id: _, count } => {
                match find_line(&self.dish_to_order, order_id, dish_id) {
                    Some(i) => {
                        let mut line = self.dish_to_order[i];
                        line.count = count;
                        self.dish_to_order.set(i, line);
                    },
                    None => {},
                }
            },
            LineChange::Delete { line_id: _ } => {
                match find_line(&self.dish_to_order, order_id, dish_id) {
                    Some(i) => {
                        self.dish_to_order.remove(i);
                    },
                    None => {},
                }
            },
        }
        assert(self@ =~= old(self)@.with_line_change(order_id, dish_id, change).0);
        Ok(order_id)
    }

    /// Opens a draft order at a table and answers with the id of the order.
    pub fn create_order(&mut self, msg: CreateOrder, now: DateTime) -> (outcome: Result<
        i64,
        ServiceError,
    >)
        ensures
            final(self)@ == old(self)@.create_order(msg, now).0,
            outcome == old(self)@.create_order(msg, now).1,
    {
        if find_table(&self.tables, msg.0).is_none() {
            return Err(ServiceError::TableNotFound);
        }
        if self.next_id == i64::MAX {
            return Err(ServiceError::OutOfRange);
        }
        let id = self.next_id;
        self.orders.push(order_row(id, draft_order(msg, now)));
        self.next_id = id + 1;
        assert(self@ =~= old(self)@.create_order(msg, now).0);
        Ok(id)
    }

    /// Adds one portion of a dish to a draft order.
    pub fn add_dish_to_order(&mut self, msg: AddDishToOrder) -> (outcome: Result<
        i64,
        ServiceError,
    >)
        ensures
            final(self)@ == old(self)@.add_dish_to_order(msg).0,
            outcome == old(self)@.add_dish_to_order(msg).1,
    {
        let at = match find_order(&self.orders, msg.order_id) {
            Some(i) => i,
            None => { return Err(ServiceError::OrderNotFound); },
        };
        let line = self.line(msg.order_id, msg.dish_id);
        let price = self.price_of(msg.dish_id);
        match plan_add_dish(&self.orders[at], line, msg, price) {
            Err(error) => Err(error),
            Ok(change) => self.apply_line_change(msg.order_id, msg.dish_id, change),
        }
    }

    /// Takes one portion of a dish from a draft order.
    pub fn decrement_dish_in_order(&mut self, msg: DecrementDishInOrder) -> (outcome: Result<
        i64,
        ServiceError,
    >)
        ensures
            final(self)@ == old(self)@.decrement_dish_in_order(msg).0,
            outcome == old(self)@.decrement_dish_in_order(msg).1,
    {
        let at = match find_order(&self.orders, msg.order_id) {
            Some(i) => i,
            None => { return Err(ServiceError::OrderNotFound); },
        };
        let line = self.line(msg.order_id, msg.dish_id);
        match plan_decrement_dish(&self.orders[at], line) {
            Err(error) => Err(error),
            Ok(change) => self.apply_line_change(msg.order_id, msg.dish_id, change),
        }
    }

    /// Takes a dish from a draft order, however many portions it had.
    pub fn delete_dish_from_order(&mut self, msg: DeleteDishFromOrder) -> (outcome: Result<
        i64,
        ServiceError,
    >)
        ensures
            final(self)@ == old(self)@.delete_dish_from_order(msg).0,
            outcome == old(self)@.delete_dish_from_order(msg).1,
    {
        let at = match find_order(&self.orders, msg.order_id) {
            Some(i) => i,
            None => { return Err(ServiceError::OrderNotFound); },
        };
        match self.orders[at].ensure_draft() {
            Err(error) => { return Err(error); },
            Ok(()) => {},
        }
        let mut kept: Vec<DishToOrder> = Vec::new();
        let mut i: usize = 0;
        while i < self.dish_to_order.len()
            invariant
                i <= self.dish_to_order.len(),
                self.dish_to_order@ == old(self).dish_to_order@,
                kept@ == self.dish_to_order@.take(i as int).filter(
                    line_not_of(msg.order_id, msg.dish_id),
                ),
            decreases self.dish_to_order.len() - i,
        {
            let line = self.dish_to_order[i];
            proof {
                reveal(Seq::filter);
                let next = self.dish_to_order@.take(i + 1);
                assert(next.drop_last() =~= self.dish_to_order@.take(i as int));
                assert(next.last() == line);
            }
            if !(line.order_id == msg.order_id && line.dish_id == msg.dish_id) {
                kept.push(line);
            }
            i = i + 1;
        }
        assert(self.dish_to_order@.take(i as int) =~= self.dish_to_order@);
        self.dish_to_order = kept;
        assert(self@ =~= old(self)@.delete_dish_from_order(msg).0);
        Ok(msg.order_id)
    }

    /// Writes a change to the revenue of a day.
    fn apply_revenue_change(&mut self, day: Date, change: RevenueChange) -> (outcome: Result<
        (),
        ServiceError,
    >)
        ensures
            final(self)@ == old(self)@.with_revenue_change(day, change).0,
            outcome == old(self)@.with_revenue_change(day, change).1,
    {
        match change {
            RevenueChange::Insert(row) => {
                if self.next_id == i64::MAX {
                    return Err(ServiceError::OutOfRange);
                }
                self.stats.push(Stats { id: self.next_id, day: row.day, income: row.income });
                self.next_id = self.next_id + 1;
            },
            RevenueChange::SetIncome { stats_id: _, income } => {
                match find_stats(&self.stats, day) {
                    Some(i) => {
                        let mut row = self.stats[i];
                        row.income = income;
                        self.stats.set(i, row);
                    },
                    None => {},
                }
            },
        }
        assert(self@ =~= old(self)@.with_revenue_change(day, change).0);
        Ok(())
    }

    /// Confirms a draft order at `now` and takes from the stock what its
    /// lines use. Where the stock of a product would leave its column, or
    /// a table is beyond `MAX_ROWS`, nothing changes.
    pub fn confirm_order(&mut self, msg: ConfirmOrder, now: DateTime) -> (outcome: Result<
        (),
        ServiceError,
    >)
        ensures
            final(self)@ == old(self)@.confirm_order(msg, now).0,
            outcome == old(self)@.confirm_order(msg, now).1,
    {
        let at = match find_order(&self.orders, msg.0) {
            Some(i) => i,
            None => { return Err(ServiceError::OrderNotFound); },
        };
        let confirmed = match self.orders[at].confirm(now) {
            Ok(order) => order,
            Err(error) => { return Err(error); },
        };
        if self.dish_to_order.len() > MAX_ROWS || self.dish_to_product.len() > MAX_ROWS {
            return Err(ServiceError::OutOfRange);
        }
        let mut products: Vec<Product> = Vec::new();
        let mut i: usize = 0;
        while i < self.products.len()
            invariant
                i <= self.products.len(),
                *self == *old(self),
                self@.order_at(msg.0) == Some(at as int),
                self@.orders[at as int].spec_confirm(now) is Ok,
                within_limits(self@.lines, self@.usages),
                products.len() == i,
                forall|k: int| 0 <= k < i ==> (#[trigger] self@.stock_left(msg.0, k)) is Ok,
                forall|k: int|
                    0 <= k < i ==> (#[trigger] products@[k]) == self@.products_after(msg.0)[k],
            decreases self.products.len() - i,
        {
            let product = &self.products[i];
            let used = match consumption_of(
                &self.dish_to_order,
                &self.dish_to_product,
                msg.0,
                product.id,
            ) {
                Some(grams) => grams,
                None => { return Err(ServiceError::OutOfRange); },
            };
            let left = match stock_after(product.in_stock_g, used) {
                Ok(left) => left,
                Err(error) => {
                    assert(self@.stock_left(msg.0, i as int) is Err);
                    return Err(error);
                },
            };
            assert(self@.stock_left(msg.0, i as int) is Ok);
            products.push(Product { id: product.id, name: product.name.clone(), in_stock_g: left });
            i = i + 1;
        }
        assert(products@ =~= self@.products_after(msg.0));
        self.products = products;
        self.orders.set(at, confirmed);
        assert(self@ =~= old(self)@.confirm_order(msg, now).0);
        Ok(())
    }

    /// Marks a confirmed order as cooked at `now`.
    pub fn cook_order(&mut self, msg: CookOrder, now: DateTime) -> (outcome: Result<
        (),
        ServiceError,
    >)
        ensures
            final(self)@ == old(self)@.cook_order(msg, now).0,
            outcome == old(self)@.cook_order(msg, now).1,
    {
        let at = match find_order(&self.orders, msg.0) {
            Some(i) => i,
            None => { return Err(ServiceError::OrderNotFound); },
        };
        let cooked = match self.orders[at].cook(now) {
            Ok(order) => order,
            Err(error) => { return Err(error); },
        };
        self.orders.set(at, cooked);
        assert(self@ =~= old(self)@.cook_order(msg, now).0);
        Ok(())
    }

    /// Marks a confirmed order as paid at `now` and adds its cost to the
    /// revenue of that day.
    pub fn pay_for_order(&mut self, msg: PayForOrder, now: DateTime) -> (outcome: Result<
        (),
        ServiceError,
    >)
        ensures
            final(self)@ == old(self)@.pay_for_order(msg, now).0,
            outcome == old(self)@.pay_for_order(msg, now).1,
    {
        let at = match find_order(&self.orders, msg.0) {
            Some(i) => i,
            None => { return Err(ServiceError::OrderNotFound); },
        };
        let paid = match self.orders[at].pay(now) {
            Ok(order) => order,
            Err(error) => { return Err(error); },
        };
        let today = match find_stats(&self.stats, now.date) {
            Some(i) => Some(self.stats[i]),
            None => None,
        };
        let change = match plan_revenue(today, now.date, self.orders[at].total_cost) {
            Ok(change) => change,
            Err(error) => { return Err(error); },
        };
        match self.apply_revenue_change(now.date, change) {
            Ok(()) => {},
            Err(error) => { return Err(error); },
        }
        self.orders.set(at, paid);
        assert(self@ =~= old(self)@.pay_for_order(msg, now).0);
        Ok(())
    }
}

} // verus!