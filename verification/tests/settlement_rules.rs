use restaurant_pos::calendar::{Date, DateTime};
use restaurant_pos::db_models::{DishToOrder, DishToProduct, Order, Stats};
use restaurant_pos::errors::ServiceError;
use restaurant_pos::insertable::{NewStats, OrderDish};
use restaurant_pos::messages::{AddDishToOrder, CreateOrder};
use restaurant_pos::settlement::{
    draft_order, order_row, plan_add_dish, plan_decrement_dish, plan_revenue, stock_after,
    LineChange, RevenueChange,
};
use restaurant_pos::stock::{consumption_of, has_dish, stock_decrements, StockDecrement};

fn at(hour: u32) -> DateTime {
    DateTime { date: Date::from_ymd_opt(2024, 5, 17).unwrap(), secs: hour * 3600, nano: 0 }
}

fn draft() -> Order {
    order_row(7, draft_order(CreateOrder(3), at(9)))
}

fn line(id: i64, order_id: i64, dish_id: i64, count: i32) -> DishToOrder {
    DishToOrder { id, dish_id, order_id, count, price: 100 }
}

fn usage(id: i64, dish_id: i64, product_id: i64, weight_g: i32) -> DishToProduct {
    DishToProduct { id, dish_id, product_id, weight_g }
}

#[test]
fn a_new_order_is_a_draft_at_no_cost() {
    let new = draft_order(CreateOrder(3), at(9));
    assert_eq!(new.table_id, 3);
    assert_eq!(new.total_cost, 0);
    assert_eq!(new.created_at, at(9));
    let order = order_row(7, new);
    assert_eq!(
        order,
        Order {
            id: 7,
            table_id: 3,
            total_cost: 0,
            is_confirmed: false,
            is_paid: false,
            is_cooked: false,
            created_at: at(9),
            cooked_at: None,
            confirmed_at: None,
            paid_at: None,
        }
    );
    assert_eq!(order.ensure_draft(), Ok(()));
}

#[test]
fn an_order_is_confirmed_once() {
    let confirmed = draft().confirm(at(10)).unwrap();
    assert!(confirmed.is_confirmed);
    assert_eq!(confirmed.confirmed_at, Some(at(10)));
    assert!(!confirmed.is_cooked);
    assert!(!confirmed.is_paid);
    assert_eq!(confirmed.confirm(at(11)), Err(ServiceError::OrderAlreadyConfirmed));
    assert_eq!(confirmed.ensure_draft(), Err(ServiceError::OrderAlreadyConfirmed));
}

#[test]
fn an_order_is_cooked_once_and_only_when_confirmed() {
    assert_eq!(draft().cook(at(10)), Err(ServiceError::OrderNotConfirmed));
    let confirmed = draft().confirm(at(10)).unwrap();
    let cooked = confirmed.cook(at(11)).unwrap();
    assert!(cooked.is_cooked);
    assert_eq!(cooked.cooked_at, Some(at(11)));
    assert_eq!(cooked.confirmed_at, Some(at(10)));
    assert_eq!(cooked.cook(at(12)), Err(ServiceError::AlreadyCooked));
}

#[test]
fn an_order_is_paid_once_and_only_when_confirmed() {
    assert_eq!(draft().pay(at(10)), Err(ServiceError::OrderNotConfirmed));
    let confirmed = draft().confirm(at(10)).unwrap();
    let paid = confirmed.pay(at(11)).unwrap();
    assert!(paid.is_paid);
    assert_eq!(paid.paid_at, Some(at(11)));
    assert_eq!(paid.pay(at(12)), Err(ServiceError::AlreadyPaid));
}

#[test]
fn cooking_and_paying_come_in_either_order() {
    let confirmed = draft().confirm(at(10)).unwrap();
    let one = confirmed.cook(at(11)).unwrap().pay(at(12)).unwrap();
    let other = confirmed.pay(at(12)).unwrap().cook(at(11)).unwrap();
    assert_eq!(one, other);
    assert!(one.is_cooked && one.is_paid && one.is_confirmed);
}

#[test]
fn adding_a_dish_makes_a_line_or_raises_its_count() {
    let msg = AddDishToOrder { order_id: 7, dish_id: 4 };
    assert_eq!(
        plan_add_dish(&draft(), None, msg, Some(250)),
        Ok(LineChange::Insert(OrderDish { dish_id: 4, order_id: 7, count: 1, price: 250 }))
    );
    assert_eq!(
        plan_add_dish(&draft(), Some(line(31, 7, 4, 2)), msg, Some(999)),
        Ok(LineChange::SetCount { line_id: 31, count: 3 })
    );
    assert_eq!(
        plan_add_dish(&draft(), Some(line(31, 7, 4, 2)), msg, None),
        Ok(LineChange::SetCount { line_id: 31, count: 3 })
    );
    assert_eq!(plan_add_dish(&draft(), None, msg, None), Err(ServiceError::DishNotFound));
    assert_eq!(
        plan_add_dish(&draft(), Some(line(31, 7, 4, i32::MAX)), msg, Some(1)),
        Err(ServiceError::OutOfRange)
    );
    let confirmed = draft().confirm(at(10)).unwrap();
    assert_eq!(
        plan_add_dish(&confirmed, None, msg, Some(250)),
        Err(ServiceError::OrderAlreadyConfirmed)
    );
    assert_eq!(
        plan_add_dish(&confirmed, Some(line(31, 7, 4, 2)), msg, Some(250)),
        Err(ServiceError::OrderAlreadyConfirmed)
    );
}

#[test]
fn taking_a_portion_back_lowers_the_count_or_takes_the_line() {
    assert_eq!(
        plan_decrement_dish(&draft(), Some(line(31, 7, 4, 3))),
        Ok(LineChange::SetCount { line_id: 31, count: 2 })
    );
    assert_eq!(
        plan_decrement_dish(&draft(), Some(line(31, 7, 4, 2))),
        Ok(LineChange::SetCount { line_id: 31, count: 1 })
    );
    assert_eq!(
        plan_decrement_dish(&draft(), Some(line(31, 7, 4, 1))),
        Ok(LineChange::Delete { line_id: 31 })
    );
    assert_eq!(
        plan_decrement_dish(&draft(), Some(line(31, 7, 4, 0))),
        Ok(LineChange::Delete { line_id: 31 })
    );
    assert_eq!(plan_decrement_dish(&draft(), None), Err(ServiceError::LineNotFound));
    let confirmed = draft().confirm(at(10)).unwrap();
    assert_eq!(
        plan_decrement_dish(&confirmed, Some(line(31, 7, 4, 3))),
        Err(ServiceError::OrderAlreadyConfirmed)
    );
    assert_eq!(plan_decrement_dish(&confirmed, None), Err(ServiceError::OrderAlreadyConfirmed));
}

#[test]
fn a_payment_opens_the_day_or_adds_to_it() {
    let day = Date::from_ymd_opt(2024, 5, 17).unwrap();
    assert_eq!(
        plan_revenue(None, day, 500),
        Ok(RevenueChange::Insert(NewStats { day, income: 500 }))
    );
    let row = Stats { id: 9, day, income: 500 };
    assert_eq!(
        plan_revenue(Some(row), day, 700),
        Ok(RevenueChange::SetIncome { stats_id: 9, income: 1200 })
    );
    assert_eq!(
        plan_revenue(Some(row), day, -700),
        Ok(RevenueChange::SetIncome { stats_id: 9, income: -200 })
    );
    assert_eq!(plan_revenue(Some(row), day, i32::MAX - 499), Err(ServiceError::OutOfRange));
    assert_eq!(
        plan_revenue(Some(row), day, i32::MAX - 500),
        Ok(RevenueChange::SetIncome { stats_id: 9, income: i32::MAX })
    );
    let low = Stats { id: 9, day, income: -500 };
    assert_eq!(plan_revenue(Some(low), day, i32::MIN), Err(ServiceError::OutOfRange));
}

#[test]
fn stock_may_go_negative_but_not_out_of_range() {
    assert_eq!(stock_after(1000, 300), Ok(700));
    assert_eq!(stock_after(100, 300), Ok(-200));
    assert_eq!(stock_after(100, -300), Ok(400));
    assert_eq!(stock_after(0, 0), Ok(0));
    assert_eq!(stock_after(i32::MIN, 1), Err(ServiceError::OutOfRange));
    assert_eq!(stock_after(i32::MIN, 0), Ok(i32::MIN));
    assert_eq!(stock_after(i32::MAX, -1), Err(ServiceError::OutOfRange));
    assert_eq!(stock_after(-1, i32::MAX as i128), Ok(i32::MIN));
    assert_eq!(stock_after(0, 1i128 << 40), Err(ServiceError::OutOfRange));
    assert_eq!(stock_after(0, -(1i128 << 100)), Err(ServiceError::OutOfRange));
    assert_eq!(stock_after(i32::MAX, (1i128 << 32) - 1), Ok(i32::MIN));
}

#[test]
fn an_order_takes_weight_times_count() {
    let lines = vec![line(1, 7, 10, 3), line(2, 7, 11, 2), line(3, 8, 10, 5)];
    let usages = vec![
        usage(1, 10, 100, 150),
        usage(2, 11, 100, 40),
        usage(3, 10, 101, 20),
        usage(4, 12, 100, 1000),
    ];
    assert_eq!(consumption_of(&lines, &usages, 7, 100), Some(150 * 3 + 40 * 2));
    assert_eq!(consumption_of(&lines, &usages, 7, 101), Some(20 * 3));
    assert_eq!(consumption_of(&lines, &usages, 8, 100), Some(150 * 5));
    assert_eq!(consumption_of(&lines, &usages, 8, 101), Some(20 * 5));
    assert_eq!(consumption_of(&lines, &usages, 7, 102), Some(0));
    assert_eq!(consumption_of(&lines, &usages, 9, 100), Some(0));
    assert_eq!(consumption_of(&Vec::new(), &usages, 7, 100), Some(0));
    assert_eq!(consumption_of(&lines, &Vec::new(), 7, 100), Some(0));
}

#[test]
fn extreme_weights_and_counts_are_summed_exactly() {
    let lines = vec![line(1, 7, 10, i32::MAX), line(2, 7, 11, i32::MIN)];
    let usages = vec![usage(1, 10, 100, i32::MAX), usage(2, 11, 100, i32::MIN)];
    let expected = (i32::MAX as i128) * (i32::MAX as i128) + (i32::MIN as i128) * (i32::MIN as i128);
    assert_eq!(consumption_of(&lines, &usages, 7, 100), Some(expected));
}

#[test]
fn an_order_has_the_dishes_of_its_lines() {
    let lines = vec![line(1, 7, 10, 3), line(2, 8, 11, 2)];
    assert!(has_dish(&lines, 7, 10));
    assert!(has_dish(&lines, 8, 11));
    assert!(!has_dish(&lines, 7, 11));
    assert!(!has_dish(&lines, 8, 10));
    assert!(!has_dish(&Vec::new(), 7, 10));
}

#[test]
fn decrements_name_each_product_once() {
    let lines = vec![line(1, 7, 10, 3), line(2, 7, 11, 2), line(3, 8, 12, 5)];
    let usages = vec![
        usage(1, 10, 100, 150),
        usage(2, 11, 100, 40),
        usage(3, 10, 101, 20),
        usage(4, 12, 102, 1000),
        usage(5, 11, 103, 0),
    ];
    assert_eq!(
        stock_decrements(&lines, &usages, 7),
        Some(vec![
            StockDecrement { product_id: 100, weight_g: 530 },
            StockDecrement { product_id: 101, weight_g: 60 },
            StockDecrement { product_id: 103, weight_g: 0 },
        ])
    );
    assert_eq!(
        stock_decrements(&lines, &usages, 8),
        Some(vec![StockDecrement { product_id: 102, weight_g: 5000 }])
    );
    assert_eq!(stock_decrements(&lines, &usages, 9), Some(Vec::new()));
}
