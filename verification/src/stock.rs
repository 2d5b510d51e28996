//! What an order takes from the stock: for each product, the grams that
//! its lines use, summed over the dishes that hold the product.

use crate::db_models::{DishToOrder, DishToProduct};
use vstd::prelude::*;

verus! {

/// The most rows of a table over which the sums are taken.
pub const MAX_ROWS: usize = 0xFFFF_FFFF;

/// The grams of a product that one portion of a dish takes: the sum of
/// the weights of all usage rows of the dish for the product.
pub open spec fn usage_of_dish(usages: Seq<DishToProduct>, dish_id: i64, product_id: i64) -> int
    decreases usages.len(),
{
    if usages.len() == 0 {
        0
    } else {
        usage_of_dish(usages.drop_last(), dish_id, product_id) + if usages.last().dish_id
            == dish_id && usages.last().product_id == product_id {
            usages.last().weight_g as int
        } else {
            0
        }
    }
}

/// The grams of a product that an order takes: over the lines of the
/// order, the count of the line times what one portion of its dish takes.
pub open spec fn consumption(
    lines: Seq<DishToOrder>,
    usages: Seq<DishToProduct>,
    order_id: i64,
    product_id: i64,
) -> int
    decreases lines.len(),
{
    if lines.len() == 0 {
        0
    } else {
        consumption(lines.drop_last(), usages, order_id, product_id) + if lines.last().order_id
            == order_id {
            lines.last().count * usage_of_dish(usages, lines.last().dish_id, product_id)
        } else {
            0
        }
    }
}

/// Whether the order has a line for the dish.
pub open spec fn dish_on_order(lines: Seq<DishToOrder>, order_id: i64, dish_id: i64) -> bool {
    exists|i: int|
        0 <= i < lines.len() && (#[trigger] lines[i]).order_id == order_id && lines[i].dish_id
            == dish_id
}

/// Whether a dish of the order holds the product.
pub open spec fn is_affected(
    lines: Seq<DishToOrder>,
    usages: Seq<DishToProduct>,
    order_id: i64,
    product_id: i64,
) -> bool {
    exists|j: int|
        0 <= j < usages.len() && (#[trigger] usages[j]).product_id == product_id && dish_on_order(
            lines,
            order_id,
            usages[j].dish_id,
        )
}

/// Whether both tables are small enough for the sums to be taken.
pub open spec fn within_limits(lines: Seq<DishToOrder>, usages: Seq<DishToProduct>) -> bool {
    lines.len() <= MAX_ROWS && usages.len() <= MAX_ROWS
}

/// What is to be taken from the stock of one product.
#[derive(Debug, Clone, Copy, PartialEq, Eq, Structural)]
pub struct StockDecrement {
    pub product_id: i64,
    pub weight_g: i128,
}

/// Whether a list says what the order takes from the stock: each product
/// once, each with the grams that the order takes of it, and no product
/// left out that a dish of the order holds.
pub open spec fn is_decrement_plan(
    list: Seq<StockDecrement>,
    lines: Seq<DishToOrder>,
    usages: Seq<DishToProduct>,
    order_id: i64,
) -> bool {
    &&& forall|a: int, b: int|
        0 <= a < b < list.len() ==> (#[trigger] list[a]).product_id != (
        #[trigger] list[b]).product_id
    &&& forall|a: int|
        0 <= a < list.len() ==> (#[trigger] list[a]).weight_g == consumption(
            lines,
            usages,
            order_id,
            list[a].product_id,
        ) && is_affected(lines, usages, order_id, list[a].product_id)
    &&& forall|product_id: i64| #[trigger]
        is_affected(lines, usages, order_id, product_id) ==> names(list, product_id)
}

/// Whether the list has an entry for the product.
pub open spec fn names(list: Seq<StockDecrement>, product_id: i64) -> bool {
    exists|a: int| 0 <= a < list.len() && (#[trigger] list[a]).product_id == product_id
}

/// A dish without a usage row for the product takes nothing of it.
pub proof fn lemma_usage_zero(usages: Seq<DishToProduct>, dish_id: i64, product_id: i64)
    requires
        forall|j: int|
            0 <= j < usages.len() ==> !((#[trigger] usages[j]).dish_id == dish_id
                && usages[j].product_id == product_id),
    ensures
        usage_of_dish(usages, dish_id, product_id) == 0,
    decreases usages.len(),
{
    if usages.len() > 0 {
        let head = usages.drop_last();
        assert forall|j: int| 0 <= j < head.len() implies !((#[trigger] head[j]).dish_id
            == dish_id && head[j].product_id == product_id) by {
            assert(head[j] == usages[j]);
        }
        lemma_usage_zero(head, dish_id, product_id);
        assert(usages.last() == usages[usages.len() - 1]);
    }
}

/// An order takes nothing of a product that none of its dishes holds.
pub proof fn lemma_unaffected_takes_nothing(
    lines: Seq<DishToOrder>,
    usages: Seq<DishToProduct>,
    order_id: i64,
    product_id: i64,
)
    requires
        !is_affected(lines, usages, order_id, product_id),
    ensures
        consumption(lines, usages, order_id, product_id) == 0,
    decreases lines.len(),
{
    if lines.len() > 0 {
        let head = lines.drop_last();
        let last = lines.last();
        assert(last == lines[lines.len() - 1]);
        if is_affected(head, usages, order_id, product_id) {
            let j = choose|j: int|
                0 <= j < usages.len() && (#[trigger] usages[j]).product_id == product_id
                    && dish_on_order(head, order_id, usages[j].dish_id);
            let i = choose|i: int|
                0 <= i < head.len() && (#[trigger] head[i]).order_id == order_id
                    && head[i].dish_id == usages[j].dish_id;
            assert(lines[i] == head[i]);
            assert(dish_on_order(lines, order_id, usages[j].dish_id));
            assert(false);
        }
        lemma_unaffected_takes_nothing(head, usages, order_id, product_id);
        if last.order_id == order_id {
            assert(dish_on_order(lines, order_id, last.dish_id));
            assert forall|j: int| 0 <= j < usages.len() implies !((#[trigger] usages[j]).dish_id
                == last.dish_id && usages[j].product_id == product_id) by {
                if usages[j].dish_id == last.dish_id && usages[j].product_id == product_id {
                    assert(is_affected(lines, usages, order_id, product_id));
                }
            }
            lemma_usage_zero(usages, last.dish_id, product_id);
        }
    }
}

/// The grams of a product that one portion of a dish takes.
fn dish_usage(usages: &Vec<DishToProduct>, dish_id: i64, product_id: i64) -> (grams: i128)
    requires
        usages.len() <= MAX_ROWS,
    ensures
        grams == usage_of_dish(usages@, dish_id, product_id),
        -0x8000_0000_0000_0000 <= grams <= 0x8000_0000_0000_0000,
{
    let mut grams: i128 = 0;
    let mut j: usize = 0;
    while j < usages.len()
        invariant
            j <= usages.len() <= MAX_ROWS,
            grams == usage_of_dish(usages@.take(j as int), dish_id, product_id),
            -0x8000_0000 * j <= grams <= 0x8000_0000 * j,
        decreases usages.len() - j,
    {
        let row = &usages[j];
        proof {
            let next = usages@.take(j + 1);
            assert(next.drop_last() =~= usages@.take(j as int));
            assert(next.last() == usages@[j as int]);
        }
        if row.dish_id == dish_id && row.product_id == product_id {
            grams = grams + row.weight_g as i128;
        }
        j = j + 1;
    }
    assert(usages@.take(usages.len() as int) =~= usages@);
    grams
}

/// The grams of a product that an order takes, where both tables are
/// within `MAX_ROWS`; `None` where one is not.
pub fn consumption_of(
    lines: &Vec<DishToOrder>,
    usages: &Vec<DishToProduct>,
    order_id: i64,
    product_id: i64,
) -> (grams: Option<i128>)
    ensures
        grams == (if within_limits(lines@, usages@) {
            Some(consumption(lines@, usages@, order_id, product_id) as i128)
        } else {
            None
        }),
        grams matches Some(g) ==> g == consumption(lines@, usages@, order_id, product_id),
{
    if lines.len() > MAX_ROWS || usages.len() > MAX_ROWS {
        return None;
    }
    let mut grams: i128 = 0;
    let mut i: usize = 0;
    while i < lines.len()
        invariant
            i <= lines.len() <= MAX_ROWS,
            usages.len() <= MAX_ROWS,
            grams == consumption(lines@.take(i as int), usages@, order_id, product_id),
            -0x4000_0000_0000_0000_0000_0000 * i <= grams <= 0x4000_0000_0000_0000_0000_0000 * i,
        decreases lines.len() - i,
    {
        let line = &lines[i];
        proof {
            let next = lines@.take(i + 1);
            assert(next.drop_last() =~= lines@.take(i as int));
            assert(next.last() == lines@[i as int]);
        }
        if line.order_id == order_id {
            let portion = dish_usage(usages, line.dish_id, product_id);
            let count = line.count as i128;
            assert(-0x4000_0000_0000_0000_0000_0000 <= count * portion
                <= 0x4000_0000_0000_0000_0000_0000) by (nonlinear_arith)
                requires
                    -0x8000_0000 <= count <= 0x8000_0000,
                    -0x8000_0000_0000_0000 <= portion <= 0x8000_0000_0000_0000,
            ;
            grams = grams + count * portion;
        }
        i = i + 1;
    }
    assert(lines@.take(lines.len() as int) =~= lines@);
    Some(grams)
}

/// Whether the order has a line for the dish.
pub fn has_dish(lines: &Vec<DishToOrder>, order_id: i64, dish_id: i64) -> (found: bool)
    ensures
        found == dish_on_order(lines@, order_id, dish_id),
{
    let mut i: usize = 0;
    while i < lines.len()
        invariant
            i <= lines.len(),
            forall|k: int|
                0 <= k < i ==> !((#[trigger] lines@[k]).order_id == order_id && lines@[k].dish_id
                    == dish_id),
        decreases lines.len() - i,
    {
        if lines[i].order_id == order_id && lines[i].dish_id == dish_id {
            return true;
        }
        i = i + 1;
    }
    false
}

/// What an order takes from the stock: one entry for each product that a
/// dish of the order holds, each product once, with the grams to take.
/// A hash set remembers the products that are named already. `None`
/// where a table is beyond `MAX_ROWS`.
pub fn stock_decrements(lines: &Vec<DishToOrder>, usages: &Vec<DishToProduct>, order_id: i64) -> (plan:
    Option<Vec<StockDecrement>>)
    ensures
        plan is Some <==> within_limits(lines@, usages@),
        plan matches Some(list) ==> is_decrement_plan(list@, lines@, usages@, order_id),
{
    if lines.len() > MAX_ROWS || usages.len() > MAX_ROWS {
        return None;
    }
    broadcast use vstd::std_specs::hash::group_hash_axioms;

    let mut named: std::collections::HashSet<i64> = std::collections::HashSet::new();
    let mut list: Vec<StockDecrement> = Vec::new();
    let mut j: usize = 0;
    assert forall|product_id: i64| !names(list@, product_id) by {}
    while j < usages.len()
        invariant
            j <= usages.len(),
            within_limits(lines@, usages@),
            forall|product_id: i64| named@.contains(product_id) <==> names(list@, product_id),
            forall|a: int, b: int|
                0 <= a < b < list.len() ==> (#[trigger] list@[a]).product_id != (
                #[trigger] list@[b]).product_id,
            forall|a: int|
                0 <= a < list.len() ==> (#[trigger] list@[a]).weight_g == consumption(
                    lines@,
                    usages@,
                    order_id,
                    list@[a].product_id,
                ) && is_affected(lines@, usages@, order_id, list@[a].product_id),
            forall|k: int|
                0 <= k < j && dish_on_order(lines@, order_id, (#[trigger] usages@[k]).dish_id)
                    ==> names(list@, usages@[k].product_id),
        decreases usages.len() - j,
    {
        let row = &usages[j];
        if has_dish(lines, order_id, row.dish_id) && named.insert(row.product_id) {
            let grams = consumption_of(lines, usages, order_id, row.product_id);
            let ghost before = list@;
            assert(!names(before, row.product_id));
            match grams {
                Some(weight_g) => {
                    list.push(StockDecrement { product_id: row.product_id, weight_g });
                },
                None => {},
            }
            proof {
                let last = before.len() as int;
                assert(list@[last].product_id == row.product_id);
                assert(is_affected(lines@, usages@, order_id, row.product_id));
                assert forall|k: int|
                    0 <= k < j + 1 && dish_on_order(
                        lines@,
                        order_id,
                        (#[trigger] usages@[k]).dish_id,
                    ) implies names(list@, usages@[k].product_id) by {
                    if k < j {
                        let a = choose|a: int|
                            0 <= a < before.len() && (#[trigger] before[a]).product_id
                                == usages@[k].product_id;
                        assert(list@[a] == before[a]);
                    } else {
                        assert(list@[last].product_id == usages@[k].product_id);
                    }
                }
                assert forall|a: int, b: int| 0 <= a < b < list.len() implies (
                #[trigger] list@[a]).product_id != (#[trigger] list@[b]).product_id by {
                    if b < last {
                        assert(list@[a] == before[a] && list@[b] == before[b]);
                    } else {
                        assert(list@[a] == before[a]);
                    }
                }
                assert forall|product_id: i64| named@.contains(product_id) <==> names(
                    list@,
                    product_id,
                ) by {
                    if names(list@, product_id) {
                        let a = choose|a: int|
                            0 <= a < list@.len() && (#[trigger] list@[a]).product_id
                                == product_id;
                        if a < last {
                            assert(before[a].product_id == product_id);
                            assert(names(before, product_id));
                        }
                    }
                    if names(before, product_id) {
                        let a = choose|a: int|
                            0 <= a < before.len() && (#[trigger] before[a]).product_id
                                == product_id;
                        assert(list@[a].product_id == product_id);
                    }
                }
            }
        }
        j = j + 1;
    }
    proof {
        assert forall|product_id: i64| #[trigger]
            is_affected(lines@, usages@, order_id, product_id) implies names(
            list@,
            product_id,
        ) by {
            let k = choose|k: int|
                0 <= k < usages@.len() && (#[trigger] usages@[k]).product_id == product_id
                    && dish_on_order(lines@, order_id, usages@[k].dish_id);
            assert(dish_on_order(lines@, order_id, usages@[k].dish_id));
        }
    }
    Some(list)
}

} // verus!
