use restaurant_pos::calendar::{Date, DateTime};
use restaurant_pos::database::{find_line, find_order, find_stats, Database};
use restaurant_pos::db_models::{Dish, DishToOrder, DishToProduct, Order, Product, Stats, Table};
use restaurant_pos::errors::{ErrorKind, ServiceError};
use restaurant_pos::messages::{
    AddDishToOrder, ConfirmOrder, CookOrder, CreateOrder, DecrementDishInOrder,
    DeleteDishFromOrder, PayForOrder,
};
use restaurant_pos::types::DishType;

fn day(day: u32) -> Date {
    Date::from_ymd_opt(2024, 5, day).unwrap()
}

fn at(date: Date, hour: u32) -> DateTime {
    DateTime { date, secs: hour * 3600, nano: 0 }
}

fn noon() -> DateTime {
    at(day(17), 12)
}

fn dish(id: i64, name: &str, price: i32) -> Dish {
    Dish {
        id,
        name: name.to_string(),
        type_: DishType::Main,
        portion_weight_g: 300,
        price,
        approx_cook_time_s: 600,
    }
}

fn table(id: i64) -> Table {
    Table {
        id,
        seat_count: 4,
        is_occupied: false,
        reserved_at: None,
        reserved_by: None,
        waiter_id: None,
    }
}

/// Tables 1 and 2; dishes 10 (soup, 500) and 11 (stew, 700), both with
/// product 100 (150 g and 40 g), the soup also with product 101 (20 g).
fn restaurant() -> Database {
    let mut db = Database::new();
    db.tables.push(table(1));
    db.tables.push(table(2));
    db.dishes.push(dish(10, "soup", 500));
    db.dishes.push(dish(11, "stew", 700));
    db.products.push(Product { id: 100, name: "beef".to_string(), in_stock_g: 10_000 });
    db.products.push(Product { id: 101, name: "salt".to_string(), in_stock_g: 50 });
    db.products.push(Product { id: 102, name: "rice".to_string(), in_stock_g: 7 });
    db.dish_to_product.push(DishToProduct { id: 1, dish_id: 10, product_id: 100, weight_g: 150 });
    db.dish_to_product.push(DishToProduct { id: 2, dish_id: 11, product_id: 100, weight_g: 40 });
    db.dish_to_product.push(DishToProduct { id: 3, dish_id: 10, product_id: 101, weight_g: 20 });
    db.next_id = 1000;
    db
}

fn add(db: &mut Database, order_id: i64, dish_id: i64) -> Result<i64, ServiceError> {
    db.add_dish_to_order(AddDishToOrder { order_id, dish_id })
}

fn lines_of(db: &Database, order_id: i64) -> Vec<(i64, i32)> {
    db.dish_to_order
        .iter()
        .filter(|line| line.order_id == order_id)
        .map(|line| (line.dish_id, line.count))
        .collect()
}

fn stock(db: &Database, product_id: i64) -> i32 {
    db.products.iter().find(|product| product.id == product_id).unwrap().in_stock_g
}

#[test]
fn a_new_database_is_empty() {
    let db = Database::new();
    assert!(db.orders.is_empty());
    assert!(db.dish_to_order.is_empty());
    assert!(db.dishes.is_empty());
    assert!(db.dish_to_product.is_empty());
    assert!(db.products.is_empty());
    assert!(db.stats.is_empty());
    assert!(db.tables.is_empty());
    assert!(db.waiters.is_empty());
    assert_eq!(db.next_id, 1);
}

#[test]
fn an_order_is_created_as_a_draft_of_its_table() {
    let mut db = restaurant();
    let id = db.create_order(CreateOrder(2), noon()).unwrap();
    assert_eq!(id, 1000);
    assert_eq!(
        db.orders,
        vec![Order {
            id: 1000,
            table_id: 2,
            total_cost: 0,
            is_confirmed: false,
            is_paid: false,
            is_cooked: false,
            created_at: noon(),
            cooked_at: None,
            confirmed_at: None,
            paid_at: None,
        }]
    );
    let next = db.create_order(CreateOrder(1), noon()).unwrap();
    assert_eq!(next, 1001);
    assert_eq!(db.orders.len(), 2);
    assert_eq!(find_order(&db.orders, 1001), Some(1));
    assert_eq!(find_order(&db.orders, 1002), None);
}

#[test]
fn an_order_needs_a_table_and_an_id() {
    let mut db = restaurant();
    let before = restaurant();
    assert_eq!(db.create_order(CreateOrder(3), noon()), Err(ServiceError::TableNotFound));
    assert_eq!(db, before);
    db.next_id = i64::MAX;
    assert_eq!(db.create_order(CreateOrder(1), noon()), Err(ServiceError::OutOfRange));
    assert!(db.orders.is_empty());
}

#[test]
fn adding_a_dish_twice_gives_one_line_of_two() {
    let mut db = restaurant();
    let order = db.create_order(CreateOrder(1), noon()).unwrap();
    assert_eq!(add(&mut db, order, 10), Ok(order));
    assert_eq!(add(&mut db, order, 10), Ok(order));
    assert_eq!(
        db.dish_to_order,
        vec![DishToOrder { id: 1001, dish_id: 10, order_id: order, count: 2, price: 500 }]
    );
    assert_eq!(find_line(&db.dish_to_order, order, 10), Some(0));
    assert_eq!(find_line(&db.dish_to_order, order, 11), None);
}

#[test]
fn a_line_keeps_the_price_of_the_time_it_was_made() {
    let mut db = restaurant();
    let order = db.create_order(CreateOrder(1), noon()).unwrap();
    add(&mut db, order, 10).unwrap();
    db.dishes[0].price = 900;
    add(&mut db, order, 10).unwrap();
    assert_eq!(db.dish_to_order[0].price, 500);
    assert_eq!(db.dish_to_order[0].count, 2);
    let other = db.create_order(CreateOrder(2), noon()).unwrap();
    add(&mut db, other, 10).unwrap();
    assert_eq!(db.dish_to_order[1].price, 900);
}

#[test]
fn adding_needs_the_order_and_the_dish() {
    let mut db = restaurant();
    let order = db.create_order(CreateOrder(1), noon()).unwrap();
    assert_eq!(add(&mut db, order + 1, 10), Err(ServiceError::OrderNotFound));
    assert_eq!(add(&mut db, order, 12), Err(ServiceError::DishNotFound));
    assert!(db.dish_to_order.is_empty());
    db.next_id = i64::MAX;
    assert_eq!(add(&mut db, order, 10), Err(ServiceError::OutOfRange));
    assert!(db.dish_to_order.is_empty());
}

#[test]
fn lines_of_different_orders_and_dishes_stay_apart() {
    let mut db = restaurant();
    let one = db.create_order(CreateOrder(1), noon()).unwrap();
    let two = db.create_order(CreateOrder(2), noon()).unwrap();
    add(&mut db, one, 10).unwrap();
    add(&mut db, two, 10).unwrap();
    add(&mut db, one, 11).unwrap();
    add(&mut db, one, 10).unwrap();
    add(&mut db, two, 10).unwrap();
    add(&mut db, two, 10).unwrap();
    assert_eq!(lines_of(&db, one), vec![(10, 2), (11, 1)]);
    assert_eq!(lines_of(&db, two), vec![(10, 3)]);
}

#[test]
fn the_last_portion_takes_the_line_with_it() {
    let mut db = restaurant();
    let order = db.create_order(CreateOrder(1), noon()).unwrap();
    add(&mut db, order, 10).unwrap();
    let msg = DecrementDishInOrder { order_id: order, dish_id: 10 };
    assert_eq!(db.decrement_dish_in_order(msg), Ok(order));
    assert!(db.dish_to_order.is_empty());
    assert_eq!(db.decrement_dish_in_order(msg), Err(ServiceError::LineNotFound));
    assert_eq!(ServiceError::LineNotFound.kind(), ErrorKind::NotFound);
}

#[test]
fn a_portion_is_taken_back_from_a_line_of_many() {
    let mut db = restaurant();
    let order = db.create_order(CreateOrder(1), noon()).unwrap();
    add(&mut db, order, 11).unwrap();
    add(&mut db, order, 10).unwrap();
    add(&mut db, order, 10).unwrap();
    add(&mut db, order, 10).unwrap();
    let msg = DecrementDishInOrder { order_id: order, dish_id: 10 };
    assert_eq!(db.decrement_dish_in_order(msg), Ok(order));
    assert_eq!(lines_of(&db, order), vec![(11, 1), (10, 2)]);
    assert_eq!(
        db.decrement_dish_in_order(DecrementDishInOrder { order_id: order + 5, dish_id: 10 }),
        Err(ServiceError::OrderNotFound)
    );
}

#[test]
fn deleting_a_dish_takes_all_its_portions() {
    let mut db = restaurant();
    let order = db.create_order(CreateOrder(1), noon()).unwrap();
    let other = db.create_order(CreateOrder(2), noon()).unwrap();
    add(&mut db, order, 10).unwrap();
    add(&mut db, order, 10).unwrap();
    add(&mut db, order, 11).unwrap();
    add(&mut db, other, 10).unwrap();
    let msg = DeleteDishFromOrder { order_id: order, dish_id: 10 };
    assert_eq!(db.delete_dish_from_order(msg), Ok(order));
    assert_eq!(lines_of(&db, order), vec![(11, 1)]);
    assert_eq!(lines_of(&db, other), vec![(10, 1)]);
}

#[test]
fn deleting_a_dish_that_is_not_ordered_changes_nothing() {
    let mut db = restaurant();
    let order = db.create_order(CreateOrder(1), noon()).unwrap();
    add(&mut db, order, 11).unwrap();
    let msg = DeleteDishFromOrder { order_id: order, dish_id: 10 };
    assert_eq!(db.delete_dish_from_order(msg), Ok(order));
    assert_eq!(lines_of(&db, order), vec![(11, 1)]);
    assert_eq!(
        db.delete_dish_from_order(DeleteDishFromOrder { order_id: order + 1, dish_id: 10 }),
        Err(ServiceError::OrderNotFound)
    );
}

#[test]
fn a_confirmed_order_is_frozen() {
    let mut db = restaurant();
    let order = db.create_order(CreateOrder(1), noon()).unwrap();
    add(&mut db, order, 10).unwrap();
    db.confirm_order(ConfirmOrder(order), noon()).unwrap();
    let lines = db.dish_to_order.clone();
    let refused = Err(ServiceError::OrderAlreadyConfirmed);
    assert_eq!(add(&mut db, order, 10), refused);
    assert_eq!(add(&mut db, order, 11), refused);
    assert_eq!(
        db.decrement_dish_in_order(DecrementDishInOrder { order_id: order, dish_id: 10 }),
        refused
    );
    assert_eq!(
        db.decrement_dish_in_order(DecrementDishInOrder { order_id: order, dish_id: 11 }),
        refused
    );
    assert_eq!(
        db.delete_dish_from_order(DeleteDishFromOrder { order_id: order, dish_id: 10 }),
        refused
    );
    assert_eq!(db.dish_to_order, lines);
    assert_eq!(ServiceError::OrderAlreadyConfirmed.kind(), ErrorKind::InvalidTransition);
    db.cook_order(CookOrder(order), noon()).unwrap();
    db.pay_for_order(PayForOrder(order), noon()).unwrap();
    assert_eq!(add(&mut db, order, 10), refused);
    assert_eq!(db.dish_to_order, lines);
}

#[test]
fn confirming_takes_weight_times_count_from_the_stock() {
    let mut db = restaurant();
    let order = db.create_order(CreateOrder(1), noon()).unwrap();
    for _ in 0..3 {
        add(&mut db, order, 10).unwrap();
    }
    for _ in 0..2 {
        add(&mut db, order, 11).unwrap();
    }
    let later = at(day(17), 13);
    assert_eq!(db.confirm_order(ConfirmOrder(order), later), Ok(()));
    assert_eq!(stock(&db, 100), 10_000 - (150 * 3 + 40 * 2));
    assert_eq!(stock(&db, 101), 50 - 20 * 3);
    assert_eq!(stock(&db, 102), 7);
    assert_eq!(db.products[0].name, "beef");
    assert_eq!(db.products[1].name, "salt");
    assert!(db.orders[0].is_confirmed);
    assert_eq!(db.orders[0].confirmed_at, Some(later));
    assert_eq!(lines_of(&db, order), vec![(10, 3), (11, 2)]);
}

#[test]
fn an_order_is_confirmed_once_and_takes_its_share_once() {
    let mut db = restaurant();
    let order = db.create_order(CreateOrder(1), noon()).unwrap();
    add(&mut db, order, 10).unwrap();
    db.confirm_order(ConfirmOrder(order), noon()).unwrap();
    let after = stock(&db, 100);
    assert_eq!(after, 10_000 - 150);
    assert_eq!(
        db.confirm_order(ConfirmOrder(order), noon()),
        Err(ServiceError::OrderAlreadyConfirmed)
    );
    assert_eq!(stock(&db, 100), after);
    assert_eq!(
        db.confirm_order(ConfirmOrder(order + 1), noon()),
        Err(ServiceError::OrderNotFound)
    );
}

#[test]
fn two_confirmations_take_the_sum_of_their_shares() {
    let mut one_first = restaurant();
    let mut two_first = restaurant();
    for db in [&mut one_first, &mut two_first] {
        let one = db.create_order(CreateOrder(1), noon()).unwrap();
        let two = db.create_order(CreateOrder(2), noon()).unwrap();
        add(db, one, 10).unwrap();
        add(db, one, 10).unwrap();
        add(db, two, 11).unwrap();
        add(db, two, 10).unwrap();
    }
    one_first.confirm_order(ConfirmOrder(1000), noon()).unwrap();
    one_first.confirm_order(ConfirmOrder(1001), noon()).unwrap();
    two_first.confirm_order(ConfirmOrder(1001), noon()).unwrap();
    two_first.confirm_order(ConfirmOrder(1000), noon()).unwrap();
    assert_eq!(stock(&one_first, 100), 10_000 - (150 * 2) - (40 + 150));
    assert_eq!(stock(&one_first, 101), 50 - (20 * 2) - 20);
    assert_eq!(one_first.products, two_first.products);
}

#[test]
fn confirming_is_all_or_nothing() {
    let mut db = restaurant();
    db.products[1].in_stock_g = i32::MIN + 10;
    let order = db.create_order(CreateOrder(1), noon()).unwrap();
    add(&mut db, order, 10).unwrap();
    let before = db.products.clone();
    assert_eq!(db.confirm_order(ConfirmOrder(order), noon()), Err(ServiceError::OutOfRange));
    assert_eq!(db.products, before);
    assert!(!db.orders[0].is_confirmed);
    assert_eq!(db.orders[0].confirmed_at, None);
    assert_eq!(add(&mut db, order, 11), Ok(order));
}

#[test]
fn an_order_without_lines_is_confirmed_and_takes_nothing() {
    let mut db = restaurant();
    let order = db.create_order(CreateOrder(1), noon()).unwrap();
    let before = db.products.clone();
    assert_eq!(db.confirm_order(ConfirmOrder(order), noon()), Ok(()));
    assert_eq!(db.products, before);
    assert!(db.orders[0].is_confirmed);
}

#[test]
fn cooking_needs_a_confirmed_order_and_happens_once() {
    let mut db = restaurant();
    let order = db.create_order(CreateOrder(1), noon()).unwrap();
    assert_eq!(db.cook_order(CookOrder(order), noon()), Err(ServiceError::OrderNotConfirmed));
    assert!(!db.orders[0].is_cooked);
    db.confirm_order(ConfirmOrder(order), noon()).unwrap();
    let later = at(day(17), 14);
    assert_eq!(db.cook_order(CookOrder(order), later), Ok(()));
    assert!(db.orders[0].is_cooked);
    assert_eq!(db.orders[0].cooked_at, Some(later));
    assert_eq!(
        db.cook_order(CookOrder(order), at(day(17), 15)),
        Err(ServiceError::AlreadyCooked)
    );
    assert_eq!(db.orders[0].cooked_at, Some(later));
    assert_eq!(db.cook_order(CookOrder(order + 1), later), Err(ServiceError::OrderNotFound));
    assert_eq!(ServiceError::AlreadyCooked.kind(), ErrorKind::InvalidTransition);
}

#[test]
fn paying_needs_a_confirmed_order_and_happens_once() {
    let mut db = restaurant();
    let order = db.create_order(CreateOrder(1), noon()).unwrap();
    db.orders[0].total_cost = 500;
    assert_eq!(db.pay_for_order(PayForOrder(order), noon()), Err(ServiceError::OrderNotConfirmed));
    assert!(db.stats.is_empty());
    db.confirm_order(ConfirmOrder(order), noon()).unwrap();
    assert_eq!(db.pay_for_order(PayForOrder(order), noon()), Ok(()));
    assert!(db.orders[0].is_paid);
    assert_eq!(db.orders[0].paid_at, Some(noon()));
    assert_eq!(db.pay_for_order(PayForOrder(order), noon()), Err(ServiceError::AlreadyPaid));
    assert_eq!(db.stats.len(), 1);
    assert_eq!(db.stats[0].income, 500);
    assert_eq!(db.pay_for_order(PayForOrder(order + 1), noon()), Err(ServiceError::OrderNotFound));
}

fn two_confirmed_orders(first_cost: i32, second_cost: i32) -> (Database, i64, i64) {
    let mut db = restaurant();
    let one = db.create_order(CreateOrder(1), noon()).unwrap();
    let two = db.create_order(CreateOrder(2), noon()).unwrap();
    db.orders[0].total_cost = first_cost;
    db.orders[1].total_cost = second_cost;
    db.confirm_order(ConfirmOrder(one), noon()).unwrap();
    db.confirm_order(ConfirmOrder(two), noon()).unwrap();
    (db, one, two)
}

#[test]
fn payments_of_one_day_share_a_row() {
    let (mut db, one, two) = two_confirmed_orders(500, 700);
    db.pay_for_order(PayForOrder(one), at(day(17), 12)).unwrap();
    db.pay_for_order(PayForOrder(two), at(day(17), 20)).unwrap();
    assert_eq!(db.stats, vec![Stats { id: 1002, day: day(17), income: 1200 }]);
    assert_eq!(find_stats(&db.stats, day(17)), Some(0));
    assert_eq!(find_stats(&db.stats, day(18)), None);
}

#[test]
fn payments_of_two_days_have_a_row_each() {
    let (mut db, one, two) = two_confirmed_orders(500, 700);
    db.pay_for_order(PayForOrder(one), at(day(17), 12)).unwrap();
    db.pay_for_order(PayForOrder(two), at(day(18), 12)).unwrap();
    assert_eq!(
        db.stats,
        vec![
            Stats { id: 1002, day: day(17), income: 500 },
            Stats { id: 1003, day: day(18), income: 700 },
        ]
    );
}

#[test]
fn a_payment_that_does_not_fit_changes_nothing() {
    let (mut db, one, two) = two_confirmed_orders(i32::MAX, 1);
    db.pay_for_order(PayForOrder(one), noon()).unwrap();
    let before_stats = db.stats.clone();
    assert_eq!(db.pay_for_order(PayForOrder(two), noon()), Err(ServiceError::OutOfRange));
    assert_eq!(db.stats, before_stats);
    assert!(!db.orders[1].is_paid);
    assert_eq!(db.orders[1].paid_at, None);
    assert_eq!(db.pay_for_order(PayForOrder(two), at(day(18), 9)), Ok(()));
    assert!(db.orders[1].is_paid);
}

#[test]
fn cooking_and_paying_are_independent() {
    let (mut db, one, two) = two_confirmed_orders(500, 700);
    db.cook_order(CookOrder(one), noon()).unwrap();
    db.pay_for_order(PayForOrder(one), noon()).unwrap();
    db.pay_for_order(PayForOrder(two), noon()).unwrap();
    db.cook_order(CookOrder(two), noon()).unwrap();
    for order in &db.orders {
        assert!(order.is_confirmed && order.is_cooked && order.is_paid);
    }
}

fn assert_invariants(db: &Database) {
    for (i, a) in db.orders.iter().enumerate() {
        assert!(!a.is_cooked || a.is_confirmed);
        assert!(!a.is_paid || a.is_confirmed);
        assert_eq!(a.is_confirmed, a.confirmed_at.is_some());
        assert_eq!(a.is_cooked, a.cooked_at.is_some());
        assert_eq!(a.is_paid, a.paid_at.is_some());
        assert!(a.id < db.next_id);
        for b in &db.orders[..i] {
            assert_ne!(a.id, b.id);
        }
    }
    for (i, a) in db.dish_to_order.iter().enumerate() {
        assert!(a.count >= 1);
        for b in &db.dish_to_order[..i] {
            assert!(!(a.order_id == b.order_id && a.dish_id == b.dish_id));
        }
    }
    for (i, a) in db.stats.iter().enumerate() {
        for b in &db.stats[..i] {
            assert_ne!(a.day, b.day);
        }
    }
}

#[test]
fn the_tables_stay_well_formed_through_a_long_run() {
    let mut db = restaurant();
    assert_invariants(&db);
    let mut seed: u64 = 0x2545_F491_4F6C_DD1D;
    let mut confirmed_lines: Vec<(i64, Vec<(i64, i32)>)> = Vec::new();
    for step in 0..3000u32 {
        seed ^= seed << 13;
        seed ^= seed >> 7;
        seed ^= seed << 17;
        let order_id = 1000 + (seed >> 8) as i64 % 12;
        let dish_id = 10 + (seed >> 20) as i64 % 3;
        let now = at(day(1 + (step / 400)), (seed >> 30) as u32 % 24);
        let was_confirmed = db.orders.iter().any(|o| o.id == order_id && o.is_confirmed);
        match (seed >> 40) % 9 {
            0 => {
                let _ = db.create_order(CreateOrder(1 + (seed >> 50) as i64 % 3), now);
            }
            1 | 2 | 3 => {
                let outcome = add(&mut db, order_id, dish_id);
                assert!(!(was_confirmed && outcome.is_ok()));
            }
            4 => {
                let outcome =
                    db.decrement_dish_in_order(DecrementDishInOrder { order_id, dish_id });
                assert!(!(was_confirmed && outcome.is_ok()));
            }
            5 => {
                let outcome =
                    db.delete_dish_from_order(DeleteDishFromOrder { order_id, dish_id });
                assert!(!(was_confirmed && outcome.is_ok()));
            }
            6 => {
                if db.confirm_order(ConfirmOrder(order_id), now).is_ok() {
                    confirmed_lines.push((order_id, lines_of(&db, order_id)));
                }
            }
            7 => {
                let _ = db.cook_order(CookOrder(order_id), now);
            }
            _ => {
                let _ = db.pay_for_order(PayForOrder(order_id), now);
            }
        }
        assert_invariants(&db);
    }
    assert!(!confirmed_lines.is_empty());
    for (order_id, lines) in confirmed_lines {
        assert_eq!(lines_of(&db, order_id), lines);
    }
    let used: i32 = db
        .orders
        .iter()
        .filter(|o| o.is_confirmed)
        .map(|o| {
            lines_of(&db, o.id)
                .iter()
                .map(|(dish, count)| match dish {
                    10 => 150 * count,
                    11 => 40 * count,
                    _ => 0,
                })
                .sum::<i32>()
        })
        .sum();
    assert_eq!(stock(&db, 100), 10_000 - used);
}
