//! The requests to the in-memory store that read and fill the catalog
//! and read orders back.

use crate::database::{dish_with, find_dish, find_order, product_with, Database, Tables};
use crate::db_models::{Dish, DishToOrder, DishToProduct, Product, Waiter};
use crate::errors::ServiceError;
use crate::insertable::{DishProductMapping, NewDish, NewWaiter};
use crate::lookup::{
    as_place, first_index, first_row, is_first, lemma_first_index_is, lemma_first_index_none,
};
use crate::messages::{
    AddWaiter, CreateDish, FetchDish, FetchDishIngredients, FetchDishes, FetchOrder, FetchOrders,
    FetchSpecificDishes, FetchWaiters,
};
use crate::selection::{dedup_ids, unique_ids};
use crate::types::{DishWithCount, Ingredient, OrderInfo, RedisDish};
use vstd::prelude::*;
use vstd::string::*;

verus! {

/// The waiter that `AddWaiter` asks for, as a row to insert.
pub fn new_waiter(msg: AddWaiter) -> (row: NewWaiter)
    ensures
        row.first_name == msg.first_name,
        row.last_name == msg.last_name,
{
    NewWaiter { first_name: msg.first_name, last_name: msg.last_name }
}

/// The dish that `CreateDish` asks for, as a row to insert: the category
/// goes in its persisted text.
pub fn new_dish(msg: &CreateDish) -> (row: NewDish)
    ensures
        row.name == msg.dish_name,
        row.type_@ == msg.dish_type.text(),
        row.approx_cook_time_s == msg.approx_cook_time_s,
        row.portion_weight_g == msg.portion_weight_g,
        row.price == msg.price,
{
    NewDish {
        name: msg.dish_name.clone(),
        type_: msg.dish_type.to_string(),
        approx_cook_time_s: msg.approx_cook_time_s,
        portion_weight_g: msg.portion_weight_g,
        price: msg.price,
    }
}

/// The usage row of one ingredient of a dish.
pub open spec fn spec_mapping(dish_id: i64, ingredient: Ingredient) -> DishProductMapping {
    DishProductMapping { dish_id, product_id: ingredient.id, weight_g: ingredient.used_g }
}

/// The usage rows of a dish, one for each ingredient and in their order.
pub fn ingredient_mappings(dish_id: i64, ingredients: &Vec<Ingredient>) -> (rows: Vec<
    DishProductMapping,
>)
    ensures
        rows@ == ingredients@.map_values(|ingredient: Ingredient| spec_mapping(dish_id, ingredient)),
{
    let mut rows: Vec<DishProductMapping> = Vec::new();
    let mut i: usize = 0;
    while i < ingredients.len()
        invariant
            i <= ingredients.len(),
            rows.len() == i,
            forall|k: int| 0 <= k < i ==> (#[trigger] rows@[k]) == spec_mapping(dish_id, ingredients@[k]),
        decreases ingredients.len() - i,
    {
        let ingredient = ingredients[i];
        rows.push(
            DishProductMapping {
                dish_id,
                product_id: ingredient.id,
                weight_g: ingredient.used_g,
            },
        );
        i = i + 1;
    }
    assert(rows@ =~= ingredients@.map_values(
        |ingredient: Ingredient| spec_mapping(dish_id, ingredient),
    ));
    rows
}

/// The dishes whose id is among `ids`.
pub open spec fn dish_among(ids: Seq<i64>) -> spec_fn(Dish) -> bool {
    |dish: Dish| ids.contains(dish.id)
}

/// The ingredient that a usage row of the dish names, where the product is known.
pub open spec fn ingredient_of(products: Seq<Product>, dish_id: i64) -> spec_fn(
    DishToProduct,
) -> Option<(String, i32)> {
    |usage: DishToProduct|
        if usage.dish_id == dish_id {
            match first_row(products, product_with(usage.product_id)) {
                Some(product) => Some((product.name, usage.weight_g)),
                None => None,
            }
        } else {
            None
        }
}

/// The dish with its count that a line of the order names, where the dish is known.
pub open spec fn ordered_dish(dishes: Seq<Dish>, order_id: i64) -> spec_fn(DishToOrder) -> Option<
    (Dish, i32),
> {
    |line: DishToOrder|
        if line.order_id == order_id {
            match first_row(dishes, dish_with(line.dish_id)) {
                Some(dish) => Some((dish, line.count)),
                None => None,
            }
        } else {
            None
        }
}

/// A dish with its count, as a pair.
pub open spec fn as_pair(entry: DishWithCount) -> (Dish, i32) {
    (entry.dish, entry.count)
}

/// The usage row that an ingredient of a new dish becomes under the id
/// that the store gave it.
pub open spec fn usage_row(id: i64, dish_id: i64, ingredient: Ingredient) -> DishToProduct {
    DishToProduct { id, dish_id, product_id: ingredient.id, weight_g: ingredient.used_g }
}

impl Tables {
    /// The dishes of an order with their counts, in the order of its lines.
    pub open spec fn dishes_of(self, order_id: i64) -> Seq<(Dish, i32)> {
        self.lines.filter_map(ordered_dish(self.dishes, order_id))
    }

    /// `AddWaiter`.
    pub open spec fn add_waiter(self, msg: AddWaiter) -> (Tables, Result<(), ServiceError>) {
        if self.next_id == i64::MAX {
            (self, Err(ServiceError::OutOfRange))
        } else {
            (
                Tables {
                    waiters: self.waiters.push(
                        Waiter {
                            id: self.next_id,
                            first_name: msg.first_name,
                            last_name: msg.last_name,
                        },
                    ),
                    next_id: (self.next_id + 1) as i64,
                    ..self
                },
                Ok(()),
            )
        }
    }

    /// The row of the dish that `CreateDish` makes.
    pub open spec fn created_dish(self, msg: CreateDish) -> Dish {
        Dish {
            id: self.next_id,
            name: msg.dish_name,
            type_: msg.dish_type,
            portion_weight_g: msg.portion_weight_g,
            price: msg.price,
            approx_cook_time_s: msg.approx_cook_time_s,
        }
    }

    /// `CreateDish`: the dish and one usage row for each ingredient, or nothing.
    pub open spec fn create_dish(self, msg: CreateDish) -> (Tables, Result<Dish, ServiceError>) {
        if self.next_id + msg.ingredients@.len() >= i64::MAX {
            (self, Err(ServiceError::OutOfRange))
        } else {
            (
                Tables {
                    dishes: self.dishes.push(self.created_dish(msg)),
                    usages: self.usages + Seq::new(
                        msg.ingredients@.len(),
                        |k: int|
                            usage_row(
                                (self.next_id + 1 + k) as i64,
                                self.next_id,
                                msg.ingredients@[k],
                            ),
                    ),
                    next_id: (self.next_id + 1 + msg.ingredients@.len()) as i64,
                    ..self
                },
                Ok(self.created_dish(msg)),
            )
        }
    }
}

/// The place of the first product with the id.
pub fn find_product(products: &Vec<Product>, id: i64) -> (found: Option<usize>)
    ensures
        as_place(found) == first_index(products@, product_with(id)),
        found matches Some(i) ==> i < products.len(),
{
    let mut i: usize = 0;
    while i < products.len()
        invariant
            i <= products.len(),
            forall|k: int| 0 <= k < i ==> !product_with(id)(#[trigger] products@[k]),
        decreases products.len() - i,
    {
        if products[i].id == id {
            proof {
                assert(is_first(products@, product_with(id), i as int));
                lemma_first_index_is(products@, product_with(id), i as int);
            }
            return Some(i);
        }
        i = i + 1;
    }
    proof {
        lemma_first_index_none(products@, product_with(id));
    }
    None
}

/// Whether the list holds the id.
fn holds_id(ids: &Vec<i64>, id: i64) -> (found: bool)
    ensures
        found == ids@.contains(id),
{
    let mut i: usize = 0;
    while i < ids.len()
        invariant
            i <= ids.len(),
            forall|k: int| 0 <= k < i ==> ids@[k] != id,
        decreases ids.len() - i,
    {
        if ids[i] == id {
            return true;
        }
        i = i + 1;
    }
    false
}

impl Database {
    /// All waiters.
    pub fn fetch_waiters(&self, msg: FetchWaiters) -> (outcome: Result<Vec<Waiter>, ServiceError>)
        ensures
            outcome matches Ok(waiters) && waiters@ == self@.waiters,
    {
        let mut waiters: Vec<Waiter> = Vec::new();
        let mut i: usize = 0;
        while i < self.waiters.len()
            invariant
                i <= self.waiters.len(),
                waiters@ == self.waiters@.take(i as int),
            decreases self.waiters.len() - i,
        {
            waiters.push(self.waiters[i].clone());
            assert(waiters@ =~= self.waiters@.take(i + 1));
            i = i + 1;
        }
        assert(self.waiters@.take(i as int) =~= self.waiters@);
        Ok(waiters)
    }

    /// Takes a waiter on.
    pub fn add_waiter(&mut self, msg: AddWaiter) -> (outcome: Result<(), ServiceError>)
        ensures
            final(self)@ == old(self)@.add_waiter(msg).0,
            outcome == old(self)@.add_waiter(msg).1,
    {
        if self.next_id == i64::MAX {
            return Err(ServiceError::OutOfRange);
        }
        let row = new_waiter(msg);
        self.waiters.push(
            Waiter { id: self.next_id, first_name: row.first_name, last_name: row.last_name },
        );
        self.next_id = self.next_id + 1;
        assert(self@ =~= old(self)@.add_waiter(msg).0);
        Ok(())
    }

    /// Puts a dish into the catalog, with what it takes of each product.
    pub fn create_dish(&mut self, msg: CreateDish) -> (outcome: Result<Dish, ServiceError>)
        ensures
            final(self)@ == old(self)@.create_dish(msg).0,
            outcome == old(self)@.create_dish(msg).1,
    {
        let count = msg.ingredients.len();
        if self.next_id as i128 + count as i128 >= i64::MAX as i128 {
            return Err(ServiceError::OutOfRange);
        }
        let id = self.next_id;
        let mappings = ingredient_mappings(id, &msg.ingredients);
        let ghost before = self.dish_to_product@;
        let mut k: usize = 0;
        while k < count
            invariant
                k <= count,
                count == mappings.len(),
                count == msg.ingredients@.len(),
                id + count < i64::MAX,
                id == old(self).next_id,
                before == old(self).dish_to_product@,
                self.orders@ == old(self).orders@,
                self.dish_to_order@ == old(self).dish_to_order@,
                self.dishes@ == old(self).dishes@,
                self.products@ == old(self).products@,
                self.stats@ == old(self).stats@,
                self.tables@ == old(self).tables@,
                self.waiters@ == old(self).waiters@,
                self.next_id == old(self).next_id,
                mappings@ == msg.ingredients@.map_values(
                    |ingredient: Ingredient| spec_mapping(id, ingredient),
                ),
                self.dish_to_product@ == before + Seq::new(
                    k as nat,
                    |j: int| usage_row((id + 1 + j) as i64, id, msg.ingredients@[j]),
                ),
            decreases count - k,
        {
            let row = mappings[k];
            self.dish_to_product.push(
                DishToProduct {
                    id: (id as i128 + 1 + k as i128) as i64,
                    dish_id: row.dish_id,
                    product_id: row.product_id,
                    weight_g: row.weight_g,
                },
            );
            assert(self.dish_to_product@ =~= before + Seq::new(
                (k + 1) as nat,
                |j: int| usage_row((id + 1 + j) as i64, id, msg.ingredients@[j]),
            ));
            k = k + 1;
        }
        let dish = Dish {
            id,
            name: msg.dish_name,
            type_: msg.dish_type,
            portion_weight_g: msg.portion_weight_g,
            price: msg.price,
            approx_cook_time_s: msg.approx_cook_time_s,
        };
        self.dishes.push(dish.clone());
        self.next_id = (id as i128 + 1 + count as i128) as i64;
        assert(self@ =~= old(self)@.create_dish(msg).0);
        Ok(dish)
    }

    /// The dish with the id.
    pub fn fetch_dish(&self, msg: FetchDish) -> (outcome: Result<Dish, ServiceError>)
        ensures
            outcome == match first_row(self@.dishes, dish_with(msg.0)) {
                Some(dish) => Ok::<Dish, ServiceError>(dish),
                None => Err::<Dish, ServiceError>(ServiceError::DishNotFound),
            },
    {
        match find_dish(&self.dishes, msg.0) {
            Some(i) => Ok(self.dishes[i].clone()),
            None => Err(ServiceError::DishNotFound),
        }
    }

    /// All dishes.
    pub fn fetch_dishes(&self, msg: FetchDishes) -> (outcome: Result<Vec<Dish>, ServiceError>)
        ensures
            outcome matches Ok(dishes) && dishes@ == self@.dishes,
    {
        let mut dishes: Vec<Dish> = Vec::new();
        let mut i: usize = 0;
        while i < self.dishes.len()
            invariant
                i <= self.dishes.len(),
                dishes@ == self.dishes@.take(i as int),
            decreases self.dishes.len() - i,
        {
            dishes.push(self.dishes[i].clone());
            assert(dishes@ =~= self.dishes@.take(i + 1));
            i = i + 1;
        }
        assert(self.dishes@.take(i as int) =~= self.dishes@);
        Ok(dishes)
    }

    /// The dishes whose id is among those asked for, in the order of the catalog.
    pub fn fetch_specific_dishes(&self, msg: FetchSpecificDishes) -> (outcome: Result<
        Vec<Dish>,
        ServiceError,
    >)
        ensures
            outcome matches Ok(dishes) && dishes@ == self@.dishes.filter(dish_among(msg.0@)),
    {
        let mut dishes: Vec<Dish> = Vec::new();
        let mut i: usize = 0;
        while i < self.dishes.len()
            invariant
                i <= self.dishes.len(),
                dishes@ == self.dishes@.take(i as int).filter(dish_among(msg.0@)),
            decreases self.dishes.len() - i,
        {
            proof {
                reveal(Seq::filter);
                let next = self.dishes@.take(i + 1);
                assert(next.drop_last() =~= self.dishes@.take(i as int));
                assert(next.last() == self.dishes@[i as int]);
            }
            if holds_id(&msg.0, self.dishes[i].id) {
                dishes.push(self.dishes[i].clone());
            }
            i = i + 1;
        }
        assert(self.dishes@.take(i as int) =~= self.dishes@);
        Ok(dishes)
    }

    /// The ingredients of a dish: for each usage row of the dish whose
    /// product is known, the name of the product and the grams in one portion.
    pub fn fetch_dish_ingredients(&self, msg: FetchDishIngredients) -> (outcome: Result<
        Vec<(String, i32)>,
        ServiceError,
    >)
        ensures
            outcome matches Ok(ingredients) && ingredients@ == self@.usages.filter_map(
                ingredient_of(self@.products, msg.0),
            ),
    {
        let ghost pick = ingredient_of(self@.products, msg.0);
        let mut ingredients: Vec<(String, i32)> = Vec::new();
        let mut i: usize = 0;
        while i < self.dish_to_product.len()
            invariant
                i <= self.dish_to_product.len(),
                pick == ingredient_of(self@.products, msg.0),
                ingredients@ == self.dish_to_product@.take(i as int).filter_map(pick),
            decreases self.dish_to_product.len() - i,
        {
            let usage = self.dish_to_product[i];
            proof {
                let next = self.dish_to_product@.take(i + 1);
                assert(next.drop_last() =~= self.dish_to_product@.take(i as int));
                assert(next.last() == usage);
            }
            if usage.dish_id == msg.0 {
                match find_product(&self.products, usage.product_id) {
                    Some(at) => {
                        ingredients.push((self.products[at].name.clone(), usage.weight_g));
                    },
                    None => {},
                }
            }
            assert(ingredients@ =~= self.dish_to_product@.take(i + 1).filter_map(pick));
            i = i + 1;
        }
        assert(self.dish_to_product@.take(i as int) =~= self.dish_to_product@);
        Ok(ingredients)
    }

    /// The dishes of an order with their counts.
    fn dishes_of(&self, order_id: i64) -> (dishes: Vec<DishWithCount>)
        ensures
            dishes@.map_values(|entry: DishWithCount| as_pair(entry)) == self@.dishes_of(order_id),
    {
        let ghost pick = ordered_dish(self@.dishes, order_id);
        let ghost pair = |entry: DishWithCount| as_pair(entry);
        let mut dishes: Vec<DishWithCount> = Vec::new();
        let mut i: usize = 0;
        assert(dishes@.map_values(pair) =~= self.dish_to_order@.take(0).filter_map(pick));
        while i < self.dish_to_order.len()
            invariant
                i <= self.dish_to_order.len(),
                pick == ordered_dish(self@.dishes, order_id),
                pair == |entry: DishWithCount| as_pair(entry),
                dishes@.map_values(pair) == self.dish_to_order@.take(i as int).filter_map(pick),
            decreases self.dish_to_order.len() - i,
        {
            let line = self.dish_to_order[i];
            let ghost before = dishes@;
            proof {
                let next = self.dish_to_order@.take(i + 1);
                assert(next.drop_last() =~= self.dish_to_order@.take(i as int));
                assert(next.last() == line);
            }
            if line.order_id == order_id {
                match find_dish(&self.dishes, line.dish_id) {
                    Some(at) => {
                        dishes.push(
                            DishWithCount { dish: self.dishes[at].clone(), count: line.count },
                        );
                        assert(dishes@.map_values(pair) =~= before.map_values(pair) + seq![
                            (self.dishes@[at as int], line.count),
                        ]);
                    },
                    None => {},
                }
            }
            assert(dishes@.map_values(pair) =~= self.dish_to_order@.take(i + 1).filter_map(pick));
            i = i + 1;
        }
        assert(self.dish_to_order@.take(i as int) =~= self.dish_to_order@);
        dishes
    }

    /// An order with its dishes and their counts, in the order of its lines.
    pub fn fetch_order(&self, msg: FetchOrder) -> (outcome: Result<OrderInfo, ServiceError>)
        ensures
            match outcome {
                Ok(info) => self@.order(msg.0) == Some(info.order) && info.dishes@.map_values(
                    |entry: DishWithCount| as_pair(entry),
                ) == self@.dishes_of(msg.0),
                Err(error) => self@.order(msg.0) is None && error == ServiceError::OrderNotFound,
            },
    {
        match find_order(&self.orders, msg.0) {
            Some(at) => Ok(OrderInfo { order: self.orders[at], dishes: self.dishes_of(msg.0) }),
            None => Err(ServiceError::OrderNotFound),
        }
    }

    /// Every order with its dishes and their counts.
    pub fn fetch_orders(&self, msg: FetchOrders) -> (outcome: Result<Vec<OrderInfo>, ServiceError>)
        ensures
            outcome matches Ok(infos) && infos.len() == self@.orders.len() && forall|i: int|
                0 <= i < infos.len() ==> (#[trigger] infos@[i]).order == self@.orders[i]
                    && infos@[i].dishes@.map_values(|entry: DishWithCount| as_pair(entry))
                    == self@.dishes_of(self@.orders[i].id),
    {
        let mut infos: Vec<OrderInfo> = Vec::new();
        let mut i: usize = 0;
        while i < self.orders.len()
            invariant
                i <= self.orders.len(),
                infos.len() == i,
                forall|k: int|
                    0 <= k < i ==> (#[trigger] infos@[k]).order == self@.orders[k]
                        && infos@[k].dishes@.map_values(|entry: DishWithCount| as_pair(entry))
                        == self@.dishes_of(self@.orders[k].id),
            decreases self.orders.len() - i,
        {
            let order = self.orders[i];
            infos.push(OrderInfo { order, dishes: self.dishes_of(order.id) });
            i = i + 1;
        }
        Ok(infos)
    }

    /// The ingredients of a dish.
    fn ingredients_of(&self, dish_id: i64) -> (ingredients: Vec<(String, i32)>)
        ensures
            ingredients@ == self@.usages.filter_map(ingredient_of(self@.products, dish_id)),
    {
        match self.fetch_dish_ingredients(FetchDishIngredients(dish_id)) {
            Ok(ingredients) => ingredients,
            Err(_) => Vec::new(),
        }
    }

    /// What a menu of the dishes asked for holds: the dishes of the
    /// catalog whose id is among `dish_ids`, each once and in the order of
    /// the catalog, each with its ingredients.
    pub fn menu_dishes(&self, dish_ids: Vec<i64>) -> (entries: Vec<RedisDish>)
        ensures
            entries@.len() == self@.dishes.filter(dish_among(unique_ids(dish_ids@))).len(),
            forall|i: int|
                0 <= i < entries@.len() ==> (#[trigger] entries@[i]).dish == self@.dishes.filter(
                    dish_among(unique_ids(dish_ids@)),
                )[i] && entries@[i].ingredients@ == self@.usages.filter_map(
                    ingredient_of(self@.products, entries@[i].dish.id),
                ),
    {
        let ids = dedup_ids(dish_ids);
        let dishes = match self.fetch_specific_dishes(FetchSpecificDishes(ids)) {
            Ok(dishes) => dishes,
            Err(_) => Vec::new(),
        };
        let mut entries: Vec<RedisDish> = Vec::new();
        let mut i: usize = 0;
        while i < dishes.len()
            invariant
                i <= dishes.len(),
                entries.len() == i,
                forall|k: int|
                    0 <= k < i ==> (#[trigger] entries@[k]).dish == dishes@[k]
                        && entries@[k].ingredients@ == self@.usages.filter_map(
                        ingredient_of(self@.products, entries@[k].dish.id),
                    ),
            decreases dishes.len() - i,
        {
            let dish = dishes[i].clone();
            let ingredients = self.ingredients_of(dish.id);
            entries.push(RedisDish { dish, ingredients });
            i = i + 1;
        }
        entries
    }
}

} // verus!