//! What holds of the settlement engine over more than one request.

use crate::calendar::{Date, DateTime};
use crate::database::{
    distinct_days, distinct_lines, distinct_orders, line_not_of, line_of, line_row, order_with,
    positive_count, sound_order, stats_of, Tables,
};
use crate::db_models::{DishToOrder, DishToProduct, Order, Stats};
use crate::errors::{ErrorKind, ServiceError};
use crate::insertable::OrderDish;
use crate::lookup::{
    every_row, first_index, first_row, lemma_filter_drops, lemma_filter_every_row,
    lemma_filter_pairwise, lemma_first_index_none, lemma_first_index_push,
    lemma_first_index_same, lemma_first_index_sound, lemma_first_row_filter,
    lemma_first_row_remove, pairwise,
};
use crate::messages::{
    AddDishToOrder, AddWaiter, ConfirmOrder, CookOrder, CreateDish, CreateOrder,
    DecrementDishInOrder, DeleteDishFromOrder, PayForOrder,
};
use crate::settlement::{spec_plan_revenue, LineChange, RevenueChange};
use crate::stock::{consumption, usage_of_dish};
use vstd::prelude::*;

verus! {

/// An order that is found lies at a place of the table and has the id asked for.
pub proof fn lemma_order_found(tables: Tables, id: i64)
    ensures
        tables.order_at(id) matches Some(at) ==> 0 <= at < tables.orders.len()
            && tables.orders[at].id == id && tables.order(id) == Some(tables.orders[at]),
{
    lemma_first_index_sound(tables.orders, order_with(id));
}

/// An order that is rewritten under its id leaves every order where it was.
pub proof fn lemma_rewritten_order(orders: Seq<Order>, at: int, next: Order, id: i64)
    requires
        0 <= at < orders.len(),
        next.id == orders[at].id,
    ensures
        first_index(orders.update(at, next), order_with(id)) == first_index(
            orders,
            order_with(id),
        ),
{
    let after = orders.update(at, next);
    assert forall|j: int| 0 <= j < after.len() implies order_with(id)(#[trigger] after[j])
        == order_with(id)(orders[j]) by {}
    lemma_first_index_same(after, orders, order_with(id));
}

/// `create_order` keeps the tables well formed.
pub proof fn lemma_create_order_keeps_wf(tables: Tables, msg: CreateOrder, now: DateTime)
    requires
        tables.wf(),
    ensures
        tables.create_order(msg, now).0.wf(),
{
    let after = tables.create_order(msg, now).0;
    if tables.create_order(msg, now).1 is Ok {
        let n = tables.orders.len() as int;
        assert forall|i: int| 0 <= i < after.orders.len() implies sound_order(after.next_id)(
            #[trigger] after.orders[i],
        ) by {
            if i < n {
                assert(after.orders[i] == tables.orders[i]);
                assert(sound_order(tables.next_id)(tables.orders[i]));
            }
        }
        assert forall|i: int, j: int| 0 <= i < j < after.orders.len() implies distinct_orders()(
            #[trigger] after.orders[i],
            #[trigger] after.orders[j],
        ) by {
            assert(after.orders[i] == tables.orders[i]);
            assert(sound_order(tables.next_id)(tables.orders[i]));
            if j < n {
                assert(after.orders[j] == tables.orders[j]);
                assert(distinct_orders()(tables.orders[i], tables.orders[j]));
            }
        }
    }
}

/// A change to a line of a draft order, as the rules plan it, keeps the
/// tables well formed.
pub proof fn lemma_line_change_keeps_wf(
    tables: Tables,
    order_id: i64,
    dish_id: i64,
    change: LineChange,
)
    requires
        tables.wf(),
        match change {
            LineChange::Insert(row) => row.order_id == order_id && row.dish_id == dish_id
                && row.count >= 1 && tables.line(order_id, dish_id) is None,
            LineChange::SetCount { count, .. } => count >= 1,
            LineChange::Delete { .. } => true,
        },
    ensures
        tables.with_line_change(order_id, dish_id, change).0.wf(),
{
    let after = tables.with_line_change(order_id, dish_id, change).0;
    let n = tables.lines.len() as int;
    lemma_first_index_sound(tables.lines, line_of(order_id, dish_id));
    match change {
        LineChange::Insert(row) => {
            if tables.next_id != i64::MAX {
                assert forall|i: int| 0 <= i < after.orders.len() implies sound_order(
                    after.next_id,
                )(#[trigger] after.orders[i]) by {
                    assert(sound_order(tables.next_id)(tables.orders[i]));
                }
                assert forall|i: int| 0 <= i < after.lines.len() implies positive_count()(
                    #[trigger] after.lines[i],
                ) by {
                    if i < n {
                        assert(after.lines[i] == tables.lines[i]);
                        assert(positive_count()(tables.lines[i]));
                    }
                }
                assert forall|i: int, j: int| 0 <= i < j < after.lines.len() implies distinct_lines()(
                    #[trigger] after.lines[i],
                    #[trigger] after.lines[j],
                ) by {
                    assert(after.lines[i] == tables.lines[i]);
                    if j < n {
                        assert(after.lines[j] == tables.lines[j]);
                        assert(distinct_lines()(tables.lines[i], tables.lines[j]));
                    } else {
                        assert(!line_of(order_id, dish_id)(tables.lines[i]));
                    }
                }
            }
        },
        LineChange::SetCount { count, .. } => {
            if let Some(at) = tables.line_at(order_id, dish_id) {
                assert forall|i: int| 0 <= i < after.lines.len() implies positive_count()(
                    #[trigger] after.lines[i],
                ) by {
                    if i != at {
                        assert(positive_count()(tables.lines[i]));
                    }
                }
                assert forall|i: int, j: int| 0 <= i < j < after.lines.len() implies distinct_lines()(
                    #[trigger] after.lines[i],
                    #[trigger] after.lines[j],
                ) by {
                    assert(distinct_lines()(tables.lines[i], tables.lines[j]));
                }
            }
        },
        LineChange::Delete { .. } => {
            if let Some(at) = tables.line_at(order_id, dish_id) {
                assert forall|i: int| 0 <= i < after.lines.len() implies positive_count()(
                    #[trigger] after.lines[i],
                ) by {
                    let k = if i < at { i } else { i + 1 };
                    assert(after.lines[i] == tables.lines[k]);
                    assert(positive_count()(tables.lines[k]));
                }
                assert forall|i: int, j: int| 0 <= i < j < after.lines.len() implies distinct_lines()(
                    #[trigger] after.lines[i],
                    #[trigger] after.lines[j],
                ) by {
                    let k = if i < at { i } else { i + 1 };
                    let l = if j < at { j } else { j + 1 };
                    assert(after.lines[i] == tables.lines[k]);
                    assert(after.lines[j] == tables.lines[l]);
                    assert(distinct_lines()(tables.lines[k], tables.lines[l]));
                }
            }
        },
    }
}

/// `add_dish_to_order` keeps the tables well formed.
pub proof fn lemma_add_dish_keeps_wf(tables: Tables, msg: AddDishToOrder)
    requires
        tables.wf(),
    ensures
        tables.add_dish_to_order(msg).0.wf(),
{
    lemma_first_index_sound(tables.lines, line_of(msg.order_id, msg.dish_id));
    if let Some(order) = tables.order(msg.order_id) {
        let line = tables.line(msg.order_id, msg.dish_id);
        if let Ok(change) = crate::settlement::spec_plan_add_dish(order, line, msg, tables.price_of(msg.dish_id)) {
            if let Some(found) = line {
                let at = tables.line_at(msg.order_id, msg.dish_id)->0;
                assert(positive_count()(tables.lines[at]));
            }
            lemma_line_change_keeps_wf(tables, msg.order_id, msg.dish_id, change);
        }
    }
}

/// `decrement_dish_in_order` keeps the tables well formed.
pub proof fn lemma_decrement_dish_keeps_wf(tables: Tables, msg: DecrementDishInOrder)
    requires
        tables.wf(),
    ensures
        tables.decrement_dish_in_order(msg).0.wf(),
{
    if let Some(order) = tables.order(msg.order_id) {
        let line = tables.line(msg.order_id, msg.dish_id);
        if let Ok(change) = crate::settlement::spec_plan_decrement_dish(order, line) {
            lemma_line_change_keeps_wf(tables, msg.order_id, msg.dish_id, change);
        }
    }
}

/// `delete_dish_from_order` keeps the tables well formed.
pub proof fn lemma_delete_dish_keeps_wf(tables: Tables, msg: DeleteDishFromOrder)
    requires
        tables.wf(),
    ensures
        tables.delete_dish_from_order(msg).0.wf(),
{
    let keep = line_not_of(msg.order_id, msg.dish_id);
    lemma_filter_pairwise(tables.lines, keep, distinct_lines());
    lemma_filter_every_row(tables.lines, keep, positive_count());
}

/// An order that is rewritten under its id, with flags that agree, keeps
/// the orders well formed.
pub proof fn lemma_rewritten_order_keeps_wf(tables: Tables, at: int, next: Order)
    requires
        tables.wf(),
        0 <= at < tables.orders.len(),
        next.id == tables.orders[at].id,
        next.wf(),
    ensures
        every_row(tables.orders.update(at, next), sound_order(tables.next_id)),
        pairwise(tables.orders.update(at, next), distinct_orders()),
{
    let after = tables.orders.update(at, next);
    assert(sound_order(tables.next_id)(tables.orders[at]));
    assert forall|i: int| 0 <= i < after.len() implies sound_order(tables.next_id)(
        #[trigger] after[i],
    ) by {
        if i != at {
            assert(sound_order(tables.next_id)(tables.orders[i]));
        }
    }
    assert forall|i: int, j: int| 0 <= i < j < after.len() implies distinct_orders()(
        #[trigger] after[i],
        #[trigger] after[j],
    ) by {
        assert(distinct_orders()(tables.orders[i], tables.orders[j]));
    }
}

/// `confirm_order` keeps the tables well formed.
pub proof fn lemma_confirm_order_keeps_wf(tables: Tables, msg: ConfirmOrder, now: DateTime)
    requires
        tables.wf(),
    ensures
        tables.confirm_order(msg, now).0.wf(),
{
    lemma_order_found(tables, msg.0);
    if let Some(at) = tables.order_at(msg.0) {
        assert(sound_order(tables.next_id)(tables.orders[at]));
        if let Ok(next) = tables.orders[at].spec_confirm(now) {
            lemma_rewritten_order_keeps_wf(tables, at, next);
        }
    }
}

/// `cook_order` keeps the tables well formed.
pub proof fn lemma_cook_order_keeps_wf(tables: Tables, msg: CookOrder, now: DateTime)
    requires
        tables.wf(),
    ensures
        tables.cook_order(msg, now).0.wf(),
{
    lemma_order_found(tables, msg.0);
    if let Some(at) = tables.order_at(msg.0) {
        assert(sound_order(tables.next_id)(tables.orders[at]));
        if let Ok(next) = tables.orders[at].spec_cook(now) {
            lemma_rewritten_order_keeps_wf(tables, at, next);
        }
    }
}

/// `pay_for_order` keeps the tables well formed.
pub proof fn lemma_pay_for_order_keeps_wf(tables: Tables, msg: PayForOrder, now: DateTime)
    requires
        tables.wf(),
    ensures
        tables.pay_for_order(msg, now).0.wf(),
{
    lemma_order_found(tables, msg.0);
    lemma_first_index_sound(tables.stats, stats_of(now.date));
    if let Some(at) = tables.order_at(msg.0) {
        assert(sound_order(tables.next_id)(tables.orders[at]));
        if let Ok(next) = tables.orders[at].spec_pay(now) {
            lemma_rewritten_order_keeps_wf(tables, at, next);
            if let Ok(change) = spec_plan_revenue(
                tables.stats_row(now.date),
                now.date,
                tables.orders[at].total_cost,
            ) {
                let (mid, outcome) = tables.with_revenue_change(now.date, change);
                if outcome is Ok {
                    let after = tables.pay_for_order(msg, now).0;
                    let n = tables.stats.len() as int;
                    assert forall|i: int| 0 <= i < after.orders.len() implies sound_order(
                        after.next_id,
                    )(#[trigger] after.orders[i]) by {
                        assert(sound_order(tables.next_id)(tables.orders.update(at, next)[i]));
                    }
                    assert forall|i: int, j: int| 0 <= i < j < after.stats.len() implies distinct_days()(
                        #[trigger] after.stats[i],
                        #[trigger] after.stats[j],
                    ) by {
                        match change {
                            RevenueChange::Insert(row) => {
                                assert(after.stats[i] == tables.stats[i]);
                                if j < n {
                                    assert(after.stats[j] == tables.stats[j]);
                                    assert(distinct_days()(tables.stats[i], tables.stats[j]));
                                } else {
                                    assert(!stats_of(now.date)(tables.stats[i]));
                                }
                            },
                            RevenueChange::SetIncome { .. } => {
                                assert(distinct_days()(tables.stats[i], tables.stats[j]));
                            },
                        }
                    }
                }
            }
        }
    }
}

/// One request that writes to the tables, with the time that it was given.
pub enum Request {
    CreateOrder(CreateOrder, DateTime),
    AddDish(AddDishToOrder),
    DecrementDish(DecrementDishInOrder),
    DeleteDish(DeleteDishFromOrder),
    Confirm(ConfirmOrder, DateTime),
    Cook(CookOrder, DateTime),
    Pay(PayForOrder, DateTime),
    AddWaiter(AddWaiter),
    CreateDish(CreateDish),
}

/// The tables after a request.
pub open spec fn after(tables: Tables, request: Request) -> Tables {
    match request {
        Request::CreateOrder(msg, now) => tables.create_order(msg, now).0,
        Request::AddDish(msg) => tables.add_dish_to_order(msg).0,
        Request::DecrementDish(msg) => tables.decrement_dish_in_order(msg).0,
        Request::DeleteDish(msg) => tables.delete_dish_from_order(msg).0,
        Request::Confirm(msg, now) => tables.confirm_order(msg, now).0,
        Request::Cook(msg, now) => tables.cook_order(msg, now).0,
        Request::Pay(msg, now) => tables.pay_for_order(msg, now).0,
        Request::AddWaiter(msg) => tables.add_waiter(msg).0,
        Request::CreateDish(msg) => tables.create_dish(msg).0,
    }
}

/// Every request keeps the tables well formed: the flags of every order
/// agree, an order has at most one line for a dish, every line counts at
/// least one portion, and a day has at most one revenue row.
pub proof fn law_requests_keep_wf(tables: Tables, request: Request)
    requires
        tables.wf(),
    ensures
        after(tables, request).wf(),
{
    match request {
        Request::CreateOrder(msg, now) => lemma_create_order_keeps_wf(tables, msg, now),
        Request::AddDish(msg) => lemma_add_dish_keeps_wf(tables, msg),
        Request::DecrementDish(msg) => lemma_decrement_dish_keeps_wf(tables, msg),
        Request::DeleteDish(msg) => lemma_delete_dish_keeps_wf(tables, msg),
        Request::Confirm(msg, now) => lemma_confirm_order_keeps_wf(tables, msg, now),
        Request::Cook(msg, now) => lemma_cook_order_keeps_wf(tables, msg, now),
        Request::Pay(msg, now) => lemma_pay_for_order_keeps_wf(tables, msg, now),
        Request::AddWaiter(msg) => lemma_later_ids_keep_orders_sound(
            tables.orders,
            tables.next_id,
            after(tables, request).next_id,
        ),
        Request::CreateDish(msg) => lemma_later_ids_keep_orders_sound(
            tables.orders,
            tables.next_id,
            after(tables, request).next_id,
        ),
    }
}

/// Orders whose ids were given out stay so when more ids are given out.
pub proof fn lemma_later_ids_keep_orders_sound(orders: Seq<Order>, next_id: i64, later: i64)
    requires
        every_row(orders, sound_order(next_id)),
        next_id <= later,
    ensures
        every_row(orders, sound_order(later)),
{
    assert forall|i: int| 0 <= i < orders.len() implies sound_order(later)(#[trigger] orders[i]) by {
        assert(sound_order(next_id)(orders[i]));
    }
}

/// No request takes an order away or takes a flag from it: what was
/// confirmed, cooked or paid stays so.
pub proof fn law_flags_are_kept(tables: Tables, request: Request, id: i64)
    requires
        tables.order(id) is Some,
    ensures
        after(tables, request).order(id) is Some,
        tables.order(id)->0.is_confirmed ==> after(tables, request).order(id)->0.is_confirmed,
        tables.order(id)->0.is_cooked ==> after(tables, request).order(id)->0.is_cooked,
        tables.order(id)->0.is_paid ==> after(tables, request).order(id)->0.is_paid,
{
    lemma_order_found(tables, id);
    match request {
        Request::CreateOrder(msg, now) => {
            if tables.create_order(msg, now).1 is Ok {
                lemma_first_index_push(
                    tables.orders,
                    crate::settlement::spec_order_row(
                        tables.next_id,
                        crate::settlement::spec_draft_order(msg, now),
                    ),
                    order_with(id),
                );
            }
        },
        Request::AddDish(msg) => {},
        Request::DecrementDish(msg) => {},
        Request::DeleteDish(msg) => {},
        Request::Confirm(msg, now) => {
            lemma_order_found(tables, msg.0);
            if let Some(at) = tables.order_at(msg.0) {
                if let Ok(next) = tables.orders[at].spec_confirm(now) {
                    lemma_rewritten_order(tables.orders, at, next, id);
                }
            }
        },
        Request::Cook(msg, now) => {
            lemma_order_found(tables, msg.0);
            if let Some(at) = tables.order_at(msg.0) {
                if let Ok(next) = tables.orders[at].spec_cook(now) {
                    lemma_rewritten_order(tables.orders, at, next, id);
                }
            }
        },
        Request::Pay(msg, now) => {
            lemma_order_found(tables, msg.0);
            if let Some(at) = tables.order_at(msg.0) {
                if let Ok(next) = tables.orders[at].spec_pay(now) {
                    lemma_rewritten_order(tables.orders, at, next, id);
                }
            }
        },
        Request::AddWaiter(msg) => {},
        Request::CreateDish(msg) => {},
    }
}

/// Once an order is confirmed, no dish is added to it, taken from it or
/// deleted from it: each such request is refused as an invalid transition
/// and changes nothing.
pub proof fn law_confirmed_order_is_frozen(tables: Tables, order_id: i64, dish_id: i64)
    requires
        tables.order(order_id) is Some,
        tables.order(order_id)->0.is_confirmed,
    ensures
        tables.add_dish_to_order(AddDishToOrder { order_id, dish_id }) == (
            tables,
            Err::<i64, ServiceError>(ServiceError::OrderAlreadyConfirmed),
        ),
        tables.decrement_dish_in_order(DecrementDishInOrder { order_id, dish_id }) == (
            tables,
            Err::<i64, ServiceError>(ServiceError::OrderAlreadyConfirmed),
        ),
        tables.delete_dish_from_order(DeleteDishFromOrder { order_id, dish_id }) == (
            tables,
            Err::<i64, ServiceError>(ServiceError::OrderAlreadyConfirmed),
        ),
        ServiceError::OrderAlreadyConfirmed.spec_kind() == ErrorKind::InvalidTransition,
{
}

/// An order is cooked exactly where it is confirmed and not cooked yet,
/// and cooking it once more is refused as cooked already.
pub proof fn law_cook_once(tables: Tables, msg: CookOrder, now: DateTime, later: DateTime)
    ensures
        tables.cook_order(msg, now).1 is Ok <==> (tables.order(msg.0) matches Some(order)
            && order.is_confirmed && !order.is_cooked),
        tables.cook_order(msg, now).1 is Ok ==> tables.cook_order(msg, now).0.cook_order(
            msg,
            later,
        ).1 == Err::<(), ServiceError>(ServiceError::AlreadyCooked),
{
    lemma_order_found(tables, msg.0);
    if let Some(at) = tables.order_at(msg.0) {
        if let Ok(next) = tables.orders[at].spec_cook(now) {
            lemma_rewritten_order(tables.orders, at, next, msg.0);
        }
    }
}

/// Whether the revenue of the day can take the cost: the income stays
/// within its column, and a new row, where one is needed, gets an id.
pub open spec fn revenue_fits(tables: Tables, day: Date, cost: i32) -> bool {
    match spec_plan_revenue(tables.stats_row(day), day, cost) {
        Ok(change) => tables.with_revenue_change(day, change).1 is Ok,
        Err(_) => false,
    }
}

/// An order is paid exactly where it is confirmed and not paid yet and
/// the revenue of the day can take its cost, and paying it once more is
/// refused as paid already.
pub proof fn law_pay_once(tables: Tables, msg: PayForOrder, now: DateTime, later: DateTime)
    ensures
        tables.pay_for_order(msg, now).1 is Ok <==> (tables.order(msg.0) matches Some(order)
            && order.is_confirmed && !order.is_paid && revenue_fits(
            tables,
            now.date,
            order.total_cost,
        )),
        tables.pay_for_order(msg, now).1 is Ok ==> tables.pay_for_order(msg, now).0.pay_for_order(
            msg,
            later,
        ).1 == Err::<(), ServiceError>(ServiceError::AlreadyPaid),
{
    lemma_order_found(tables, msg.0);
    if let Some(at) = tables.order_at(msg.0) {
        if let Ok(next) = tables.orders[at].spec_pay(now) {
            lemma_rewritten_order(tables.orders, at, next, msg.0);
        }
    }
}

/// Adding a dish twice to an order that had no line for it leaves one
/// line for the dish, of two portions.
pub proof fn law_add_twice_merges(tables: Tables, msg: AddDishToOrder)
    requires
        tables.line(msg.order_id, msg.dish_id) is None,
        tables.add_dish_to_order(msg).1 is Ok,
    ensures
        tables.price_of(msg.dish_id) is Some,
        ({
            let once = tables.add_dish_to_order(msg).0;
            let twice = once.add_dish_to_order(msg);
            let merged = DishToOrder {
                id: tables.next_id,
                dish_id: msg.dish_id,
                order_id: msg.order_id,
                count: 2,
                price: tables.price_of(msg.dish_id)->0,
            };
            &&& twice.1 == Ok::<i64, ServiceError>(msg.order_id)
            &&& twice.0.lines == tables.lines.push(merged)
            &&& forall|i: int|
                0 <= i < twice.0.lines.len() ==> (line_of(msg.order_id, msg.dish_id)(
                    #[trigger] twice.0.lines[i],
                ) <==> i == tables.lines.len())
        }),
{
    let pred = line_of(msg.order_id, msg.dish_id);
    lemma_order_found(tables, msg.order_id);
    lemma_first_index_sound(tables.lines, pred);
    let price = tables.price_of(msg.dish_id)->0;
    let first = line_row(
        tables.next_id,
        OrderDish { dish_id: msg.dish_id, order_id: msg.order_id, count: 1, price },
    );
    let once = tables.add_dish_to_order(msg).0;
    assert(once.lines == tables.lines.push(first));
    lemma_first_index_push(tables.lines, first, pred);
    assert(once.line_at(msg.order_id, msg.dish_id) == Some(tables.lines.len() as int));
    let twice = once.add_dish_to_order(msg);
    let merged = DishToOrder { count: 2, ..first };
    assert(twice.0.lines =~= tables.lines.push(merged));
    assert forall|i: int| 0 <= i < twice.0.lines.len() implies (pred(#[trigger] twice.0.lines[i])
        <==> i == tables.lines.len()) by {
        if i < tables.lines.len() {
            assert(twice.0.lines[i] == tables.lines[i]);
            assert(!pred(tables.lines[i]));
        }
    }
}

/// Taking the only portion of a dish back takes the line away, and
/// taking one more back finds no line.
pub proof fn law_last_portion_takes_the_line(tables: Tables, msg: DecrementDishInOrder)
    requires
        tables.wf(),
        tables.order(msg.order_id) is Some,
        !tables.order(msg.order_id)->0.is_confirmed,
        tables.line(msg.order_id, msg.dish_id) is Some,
        tables.line(msg.order_id, msg.dish_id)->0.count == 1,
    ensures
        ({
            let once = tables.decrement_dish_in_order(msg);
            &&& once.1 == Ok::<i64, ServiceError>(msg.order_id)
            &&& once.0.lines == tables.lines.remove(tables.line_at(msg.order_id, msg.dish_id)->0)
            &&& once.0.line(msg.order_id, msg.dish_id) is None
            &&& once.0.decrement_dish_in_order(msg) == (
                once.0,
                Err::<i64, ServiceError>(ServiceError::LineNotFound),
            )
        }),
{
    let pred = line_of(msg.order_id, msg.dish_id);
    lemma_first_index_sound(tables.lines, pred);
    let at = tables.line_at(msg.order_id, msg.dish_id)->0;
    let once = tables.decrement_dish_in_order(msg);
    let left = tables.lines.remove(at);
    assert(once.0.lines == left);
    assert forall|k: int| 0 <= k < left.len() implies !pred(#[trigger] left[k]) by {
        let j = if k < at { k } else { k + 1 };
        assert(left[k] == tables.lines[j]);
        if j < at {
            assert(distinct_lines()(tables.lines[j], tables.lines[at]));
        } else {
            assert(distinct_lines()(tables.lines[at], tables.lines[j]));
        }
    }
    lemma_first_index_none(left, pred);
}

/// An order of two dishes that both hold one product takes of it the
/// weight in the first dish times the count of the first, and the weight
/// in the second dish times the count of the second.
pub proof fn law_two_dishes_one_product(
    first: DishToOrder,
    second: DishToOrder,
    first_usage: DishToProduct,
    second_usage: DishToProduct,
)
    requires
        first.order_id == second.order_id,
        first.dish_id != second.dish_id,
        first_usage.dish_id == first.dish_id,
        second_usage.dish_id == second.dish_id,
        first_usage.product_id == second_usage.product_id,
    ensures
        consumption(
            seq![first, second],
            seq![first_usage, second_usage],
            first.order_id,
            first_usage.product_id,
        ) == first_usage.weight_g * first.count + second_usage.weight_g * second.count,
{
    let lines = seq![first, second];
    let usages = seq![first_usage, second_usage];
    let order_id = first.order_id;
    let product_id = first_usage.product_id;
    assert(usages.drop_last() =~= seq![first_usage]);
    assert(usages.drop_last().drop_last() =~= Seq::<DishToProduct>::empty());
    assert(lines.drop_last() =~= seq![first]);
    assert(lines.drop_last().drop_last() =~= Seq::<DishToOrder>::empty());
    reveal_with_fuel(usage_of_dish, 3);
    assert(usage_of_dish(usages, first.dish_id, product_id) == first_usage.weight_g);
    assert(usage_of_dish(usages, second.dish_id, product_id) == second_usage.weight_g);
    reveal_with_fuel(consumption, 3);
    assert(consumption(lines.drop_last(), usages, order_id, product_id) == first.count
        * usage_of_dish(usages, first.dish_id, product_id));
    assert(first.count * first_usage.weight_g == first_usage.weight_g * first.count)
        by (nonlinear_arith);
    assert(second.count * second_usage.weight_g == second_usage.weight_g * second.count)
        by (nonlinear_arith);
}

/// Confirming an order takes from the stock of every product exactly
/// what the order takes of it, and changes nothing else of the product.
pub proof fn law_confirm_takes_consumption(
    tables: Tables,
    msg: ConfirmOrder,
    now: DateTime,
    row: int,
)
    requires
        tables.confirm_order(msg, now).1 is Ok,
        0 <= row < tables.products.len(),
    ensures
        ({
            let after = tables.confirm_order(msg, now).0;
            &&& after.products.len() == tables.products.len()
            &&& after.products[row].id == tables.products[row].id
            &&& after.products[row].name == tables.products[row].name
            &&& after.products[row].in_stock_g == tables.products[row].in_stock_g - consumption(
                tables.lines,
                tables.usages,
                msg.0,
                tables.products[row].id,
            )
            &&& after.lines == tables.lines
            &&& after.usages == tables.usages
        }),
{
    assert(tables.stock_left(msg.0, row) is Ok);
}

/// Two orders that are confirmed one after the other take from the
/// stock of every product the sum of what each takes of it, whichever of
/// the two is confirmed first.
pub proof fn law_two_confirmations_add_up(
    tables: Tables,
    first: ConfirmOrder,
    second: ConfirmOrder,
    now: DateTime,
    later: DateTime,
    row: int,
)
    requires
        tables.confirm_order(first, now).1 is Ok,
        tables.confirm_order(first, now).0.confirm_order(second, later).1 is Ok,
        0 <= row < tables.products.len(),
    ensures
        tables.confirm_order(first, now).0.confirm_order(second, later).0.products[row].in_stock_g
            == tables.products[row].in_stock_g - (consumption(
            tables.lines,
            tables.usages,
            first.0,
            tables.products[row].id,
        ) + consumption(tables.lines, tables.usages, second.0, tables.products[row].id)),
{
    let mid = tables.confirm_order(first, now).0;
    law_confirm_takes_consumption(tables, first, now, row);
    law_confirm_takes_consumption(mid, second, later, row);
}

/// Two payments on one day that had no revenue yet leave one row for the
/// day, and its income is the sum of the two costs.
pub proof fn law_same_day_payments_share_a_row(
    tables: Tables,
    first: PayForOrder,
    second: PayForOrder,
    now: DateTime,
    later: DateTime,
)
    requires
        later.date == now.date,
        tables.stats_row(now.date) is None,
        tables.pay_for_order(first, now).1 is Ok,
        tables.pay_for_order(first, now).0.pay_for_order(second, later).1 is Ok,
    ensures
        tables.order(first.0) is Some,
        tables.order(second.0) is Some,
        tables.pay_for_order(first, now).0.pay_for_order(second, later).0.stats
            == tables.stats.push(
            Stats {
                id: tables.next_id,
                day: now.date,
                income: (tables.order(first.0)->0.total_cost + tables.order(
                    second.0,
                )->0.total_cost) as i32,
            },
        ),
        i32::MIN <= tables.order(first.0)->0.total_cost + tables.order(second.0)->0.total_cost
            <= i32::MAX,
{
    let day = now.date;
    lemma_order_found(tables, first.0);
    lemma_order_found(tables, second.0);
    lemma_first_index_sound(tables.stats, stats_of(day));
    let at = tables.order_at(first.0)->0;
    let paid = tables.orders[at].spec_pay(now)->Ok_0;
    let mid = tables.pay_for_order(first, now).0;
    let opened = Stats { id: tables.next_id, day, income: tables.orders[at].total_cost };
    assert(mid.stats == tables.stats.push(opened));
    lemma_rewritten_order(tables.orders, at, paid, second.0);
    lemma_order_found(mid, second.0);
    lemma_first_index_push(tables.stats, opened, stats_of(day));
    assert(mid.stats_at(day) == Some(tables.stats.len() as int));
    let last = tables.pay_for_order(first, now).0.pay_for_order(second, later).0;
    assert(second.0 != first.0);
    let other = mid.order_at(second.0)->0;
    assert(other != at);
    assert(mid.orders[other] == tables.orders[other]);
    assert(last.stats =~= tables.stats.push(
        Stats {
            id: tables.next_id,
            day,
            income: (tables.orders[at].total_cost + tables.orders[other].total_cost) as i32,
        },
    ));
}

/// Two payments on two days that had no revenue yet leave one row for
/// each day, each with the cost of its payment.
pub proof fn law_other_day_payments_open_rows(
    tables: Tables,
    first: PayForOrder,
    second: PayForOrder,
    now: DateTime,
    later: DateTime,
)
    requires
        later.date != now.date,
        tables.stats_row(now.date) is None,
        tables.stats_row(later.date) is None,
        tables.pay_for_order(first, now).1 is Ok,
        tables.pay_for_order(first, now).0.pay_for_order(second, later).1 is Ok,
    ensures
        tables.order(first.0) is Some,
        tables.order(second.0) is Some,
        tables.pay_for_order(first, now).0.pay_for_order(second, later).0.stats
            == tables.stats.push(
            Stats {
                id: tables.next_id,
                day: now.date,
                income: tables.order(first.0)->0.total_cost,
            },
        ).push(
            Stats {
                id: (tables.next_id + 1) as i64,
                day: later.date,
                income: tables.order(second.0)->0.total_cost,
            },
        ),
{
    lemma_order_found(tables, first.0);
    lemma_order_found(tables, second.0);
    lemma_first_index_sound(tables.stats, stats_of(now.date));
    lemma_first_index_sound(tables.stats, stats_of(later.date));
    let at = tables.order_at(first.0)->0;
    let paid = tables.orders[at].spec_pay(now)->Ok_0;
    let mid = tables.pay_for_order(first, now).0;
    let opened = Stats { id: tables.next_id, day: now.date, income: tables.orders[at].total_cost };
    assert(mid.stats == tables.stats.push(opened));
    lemma_rewritten_order(tables.orders, at, paid, second.0);
    lemma_order_found(mid, second.0);
    lemma_first_index_push(tables.stats, opened, stats_of(later.date));
    assert(mid.stats_at(later.date) is None);
    assert(second.0 != first.0);
    let other = mid.order_at(second.0)->0;
    assert(other != at);
    assert(mid.orders[other] == tables.orders[other]);
}

/// The tables after a run of requests, one after the other.
pub open spec fn after_all(tables: Tables, requests: Seq<Request>) -> Tables
    decreases requests.len(),
{
    if requests.len() == 0 {
        tables
    } else {
        after(after_all(tables, requests.drop_last()), requests.last())
    }
}

/// Tables that are well formed stay so through every run of requests.
pub proof fn law_runs_keep_wf(tables: Tables, requests: Seq<Request>)
    requires
        tables.wf(),
    ensures
        after_all(tables, requests).wf(),
    decreases requests.len(),
{
    if requests.len() > 0 {
        law_runs_keep_wf(tables, requests.drop_last());
        law_requests_keep_wf(after_all(tables, requests.drop_last()), requests.last());
    }
}

/// An order that is confirmed stays frozen through every run of
/// requests: whatever came after the confirmation, no dish is added to
/// the order, taken from it or deleted from it.
pub proof fn law_confirmed_order_stays_frozen(
    tables: Tables,
    requests: Seq<Request>,
    order_id: i64,
    dish_id: i64,
)
    requires
        tables.order(order_id) is Some,
        tables.order(order_id)->0.is_confirmed,
    ensures
        ({
            let later = after_all(tables, requests);
            &&& later.order(order_id) is Some
            &&& later.order(order_id)->0.is_confirmed
            &&& later.add_dish_to_order(AddDishToOrder { order_id, dish_id }) == (
                later,
                Err::<i64, ServiceError>(ServiceError::OrderAlreadyConfirmed),
            )
            &&& later.decrement_dish_in_order(DecrementDishInOrder { order_id, dish_id }) == (
                later,
                Err::<i64, ServiceError>(ServiceError::OrderAlreadyConfirmed),
            )
            &&& later.delete_dish_from_order(DeleteDishFromOrder { order_id, dish_id }) == (
                later,
                Err::<i64, ServiceError>(ServiceError::OrderAlreadyConfirmed),
            )
        }),
    decreases requests.len(),
{
    if requests.len() > 0 {
        let before = after_all(tables, requests.drop_last());
        law_confirmed_order_stays_frozen(tables, requests.drop_last(), order_id, dish_id);
        law_flags_are_kept(before, requests.last(), order_id);
    }
    law_confirmed_order_is_frozen(after_all(tables, requests), order_id, dish_id);
}

/// The portions of a dish on an order: the count of the order's line for
/// the dish, and none where it has no such line.
pub open spec fn portions(tables: Tables, order_id: i64, dish_id: i64) -> int {
    match tables.line(order_id, dish_id) {
        Some(line) => line.count as int,
        None => 0,
    }
}

/// A change to the order's line for one dish leaves its lines for other
/// dishes, and the lines of other orders, as they were.
pub proof fn lemma_line_change_is_local(
    tables: Tables,
    order_id: i64,
    dish_id: i64,
    change: LineChange,
    other_order: i64,
    other_dish: i64,
)
    requires
        !(other_order == order_id && other_dish == dish_id),
        change matches LineChange::Insert(row) ==> row.order_id == order_id && row.dish_id
            == dish_id,
    ensures
        tables.with_line_change(order_id, dish_id, change).0.line(other_order, other_dish)
            == tables.line(other_order, other_dish),
{
    let other = line_of(other_order, other_dish);
    lemma_first_index_sound(tables.lines, line_of(order_id, dish_id));
    match change {
        LineChange::Insert(row) => {
            if tables.next_id != i64::MAX {
                lemma_first_index_push(tables.lines, line_row(tables.next_id, row), other);
            }
        },
        LineChange::SetCount { count, .. } => {
            if let Some(at) = tables.line_at(order_id, dish_id) {
                let after = tables.lines.update(at, DishToOrder { count, ..tables.lines[at] });
                assert forall|j: int| 0 <= j < after.len() implies other(#[trigger] after[j])
                    == other(tables.lines[j]) by {}
                lemma_first_index_same(after, tables.lines, other);
                lemma_first_index_sound(tables.lines, other);
            }
        },
        LineChange::Delete { .. } => {
            if let Some(at) = tables.line_at(order_id, dish_id) {
                lemma_first_row_remove(tables.lines, at, other);
            }
        },
    }
}

/// Adding a dish, where it succeeds, adds one portion of that dish to
/// that order and touches no other line; where it fails, nothing changes.
pub proof fn law_add_dish_adds_one_portion(
    tables: Tables,
    msg: AddDishToOrder,
    other_order: i64,
    other_dish: i64,
)
    ensures
        ({
            let (after, outcome) = tables.add_dish_to_order(msg);
            &&& outcome is Ok ==> outcome == Ok::<i64, ServiceError>(msg.order_id) && portions(
                after,
                msg.order_id,
                msg.dish_id,
            ) == if tables.line(msg.order_id, msg.dish_id) is Some {
                portions(tables, msg.order_id, msg.dish_id) + 1
            } else {
                1
            }
            &&& outcome is Err ==> after == tables
            &&& !(other_order == msg.order_id && other_dish == msg.dish_id) ==> after.line(
                other_order,
                other_dish,
            ) == tables.line(other_order, other_dish)
            &&& after.orders == tables.orders
            &&& after.products == tables.products
            &&& after.stats == tables.stats
        }),
{
    let pred = line_of(msg.order_id, msg.dish_id);
    lemma_first_index_sound(tables.lines, pred);
    if let Some(order) = tables.order(msg.order_id) {
        let line = tables.line(msg.order_id, msg.dish_id);
        if let Ok(change) = crate::settlement::spec_plan_add_dish(
            order,
            line,
            msg,
            tables.price_of(msg.dish_id),
        ) {
            if !(other_order == msg.order_id && other_dish == msg.dish_id) {
                lemma_line_change_is_local(
                    tables,
                    msg.order_id,
                    msg.dish_id,
                    change,
                    other_order,
                    other_dish,
                );
            }
            match change {
                LineChange::Insert(row) => {
                    if tables.next_id != i64::MAX {
                        lemma_first_index_push(
                            tables.lines,
                            line_row(tables.next_id, row),
                            pred,
                        );
                    }
                },
                LineChange::SetCount { count, .. } => {
                    let at = tables.line_at(msg.order_id, msg.dish_id)->0;
                    let after = tables.lines.update(at, DishToOrder { count, ..tables.lines[at] });
                    assert forall|j: int| 0 <= j < after.len() implies pred(#[trigger] after[j])
                        == pred(tables.lines[j]) by {}
                    lemma_first_index_same(after, tables.lines, pred);
                },
                LineChange::Delete { .. } => {},
            }
        }
    }
}

/// Taking a portion back, where it succeeds on well-formed tables, takes
/// one portion of that dish from that order and touches no other line;
/// where it fails, nothing changes.
pub proof fn law_decrement_takes_one_portion(
    tables: Tables,
    msg: DecrementDishInOrder,
    other_order: i64,
    other_dish: i64,
)
    requires
        tables.wf(),
    ensures
        ({
            let (after, outcome) = tables.decrement_dish_in_order(msg);
            &&& outcome is Ok ==> outcome == Ok::<i64, ServiceError>(msg.order_id) && portions(
                after,
                msg.order_id,
                msg.dish_id,
            ) == portions(tables, msg.order_id, msg.dish_id) - 1
            &&& outcome is Err ==> after == tables
            &&& !(other_order == msg.order_id && other_dish == msg.dish_id) ==> after.line(
                other_order,
                other_dish,
            ) == tables.line(other_order, other_dish)
            &&& after.orders == tables.orders
            &&& after.products == tables.products
            &&& after.stats == tables.stats
        }),
{
    let pred = line_of(msg.order_id, msg.dish_id);
    lemma_first_index_sound(tables.lines, pred);
    if let Some(order) = tables.order(msg.order_id) {
        let line = tables.line(msg.order_id, msg.dish_id);
        if let Ok(change) = crate::settlement::spec_plan_decrement_dish(order, line) {
            if !(other_order == msg.order_id && other_dish == msg.dish_id) {
                lemma_line_change_is_local(
                    tables,
                    msg.order_id,
                    msg.dish_id,
                    change,
                    other_order,
                    other_dish,
                );
            }
            let at = tables.line_at(msg.order_id, msg.dish_id)->0;
            assert(positive_count()(tables.lines[at]));
            match change {
                LineChange::Insert(row) => {},
                LineChange::SetCount { count, .. } => {
                    let after = tables.lines.update(at, DishToOrder { count, ..tables.lines[at] });
                    assert forall|j: int| 0 <= j < after.len() implies pred(#[trigger] after[j])
                        == pred(tables.lines[j]) by {}
                    lemma_first_index_same(after, tables.lines, pred);
                },
                LineChange::Delete { .. } => {
                    let left = tables.lines.remove(at);
                    assert forall|k: int| 0 <= k < left.len() implies !pred(#[trigger] left[k]) by {
                        let j = if k < at { k } else { k + 1 };
                        assert(left[k] == tables.lines[j]);
                        if j < at {
                            assert(distinct_lines()(tables.lines[j], tables.lines[at]));
                        } else {
                            assert(distinct_lines()(tables.lines[at], tables.lines[j]));
                        }
                    }
                    lemma_first_index_none(left, pred);
                },
            }
        }
    }
}

/// Deleting a dish, where it succeeds, leaves the order without a line
/// for the dish and touches no other line; where it fails, nothing changes.
pub proof fn law_delete_takes_the_dish(
    tables: Tables,
    msg: DeleteDishFromOrder,
    other_order: i64,
    other_dish: i64,
)
    ensures
        ({
            let (after, outcome) = tables.delete_dish_from_order(msg);
            &&& outcome is Ok ==> outcome == Ok::<i64, ServiceError>(msg.order_id) && after.line(
                msg.order_id,
                msg.dish_id,
            ) is None
            &&& outcome is Ok <==> tables.order(msg.order_id) is Some && !tables.order(
                msg.order_id,
            )->0.is_confirmed
            &&& outcome is Err ==> after == tables
            &&& !(other_order == msg.order_id && other_dish == msg.dish_id) ==> after.line(
                other_order,
                other_dish,
            ) == tables.line(other_order, other_dish)
            &&& after.orders == tables.orders
            &&& after.products == tables.products
            &&& after.stats == tables.stats
        }),
{
    let keep = line_not_of(msg.order_id, msg.dish_id);
    lemma_filter_drops(tables.lines, keep, line_of(msg.order_id, msg.dish_id));
    if !(other_order == msg.order_id && other_dish == msg.dish_id) {
        lemma_first_row_filter(tables.lines, keep, line_of(other_order, other_dish));
    }
}

} // verus!
