//! Choosing what goes on a menu: the ids asked for, each once, and one
//! dish for each category.

use crate::db_models::Dish;
use crate::types::DishType;
use vstd::prelude::*;

verus! {

/// The ids in the order in which each comes first, each once.
pub open spec fn unique_ids(ids: Seq<i64>) -> Seq<i64>
    decreases ids.len(),
{
    if ids.len() == 0 {
        ids
    } else {
        let head = unique_ids(ids.drop_last());
        if head.contains(ids.last()) {
            head
        } else {
            head.push(ids.last())
        }
    }
}

/// Whether a dish of the category is among the dishes.
pub open spec fn has_type(dishes: Seq<Dish>, category: DishType) -> bool {
    exists|i: int| 0 <= i < dishes.len() && (#[trigger] dishes[i]).type_ == category
}

/// The first dish of each category, in the order of the dishes.
pub open spec fn one_of_each_type(dishes: Seq<Dish>) -> Seq<Dish>
    decreases dishes.len(),
{
    if dishes.len() == 0 {
        dishes
    } else {
        let head = one_of_each_type(dishes.drop_last());
        if has_type(head, dishes.last().type_) {
            head
        } else {
            head.push(dishes.last())
        }
    }
}

/// `unique_ids` names each id once, and names exactly the ids it was given.
pub proof fn lemma_unique_ids(ids: Seq<i64>)
    ensures
        unique_ids(ids).no_duplicates(),
        forall|id: i64| #[trigger] unique_ids(ids).contains(id) <==> ids.contains(id),
        unique_ids(ids).len() <= ids.len(),
    decreases ids.len(),
{
    if ids.len() > 0 {
        let head_ids = ids.drop_last();
        let head = unique_ids(head_ids);
        let last = ids.last();
        let all = unique_ids(ids);
        lemma_unique_ids(head_ids);
        assert forall|id: i64| #[trigger] all.contains(id) <==> ids.contains(id) by {
            if all.contains(id) {
                let k = choose|k: int| 0 <= k < all.len() && all[k] == id;
                if k < head.len() {
                    assert(head[k] == id);
                    assert(head.contains(id));
                    let j = choose|j: int| 0 <= j < head_ids.len() && head_ids[j] == id;
                    assert(ids[j] == id);
                } else {
                    assert(ids[ids.len() - 1] == id);
                }
            }
            if ids.contains(id) {
                let j = choose|j: int| 0 <= j < ids.len() && ids[j] == id;
                if j < head_ids.len() {
                    assert(head_ids[j] == id);
                    assert(head.contains(id));
                    let k = choose|k: int| 0 <= k < head.len() && head[k] == id;
                    assert(all[k] == id);
                } else if head.contains(last) {
                } else {
                    assert(all[head.len() as int] == id);
                }
            }
        }
    }
}

/// `one_of_each_type` holds one dish of each category that the dishes
/// have, and each of its dishes is one of them.
pub proof fn lemma_one_of_each_type(dishes: Seq<Dish>)
    ensures
        forall|a: int, b: int|
            0 <= a < b < one_of_each_type(dishes).len() ==> (#[trigger] one_of_each_type(
                dishes,
            )[a]).type_ != (#[trigger] one_of_each_type(dishes)[b]).type_,
        forall|category: DishType| #[trigger]
            has_type(one_of_each_type(dishes), category) <==> has_type(dishes, category),
        forall|a: int|
            0 <= a < one_of_each_type(dishes).len() ==> dishes.contains(
                #[trigger] one_of_each_type(dishes)[a],
            ),
    decreases dishes.len(),
{
    if dishes.len() > 0 {
        let head_dishes = dishes.drop_last();
        let head = one_of_each_type(head_dishes);
        let last = dishes.last();
        let all = one_of_each_type(dishes);
        lemma_one_of_each_type(head_dishes);
        assert forall|a: int, b: int| 0 <= a < b < all.len() implies (#[trigger] all[a]).type_ != (
        #[trigger] all[b]).type_ by {
            if b < head.len() {
                assert(all[a] == head[a] && all[b] == head[b]);
            } else {
                assert(all[a] == head[a]);
            }
        }
        assert forall|category: DishType| #[trigger]
            has_type(all, category) <==> has_type(dishes, category) by {
            if has_type(all, category) {
                let k = choose|k: int| 0 <= k < all.len() && (#[trigger] all[k]).type_ == category;
                if k < head.len() {
                    assert(head[k].type_ == category);
                    assert(has_type(head_dishes, category));
                    let j = choose|j: int|
                        0 <= j < head_dishes.len() && (#[trigger] head_dishes[j]).type_
                            == category;
                    assert(dishes[j].type_ == category);
                } else {
                    assert(dishes[dishes.len() - 1].type_ == category);
                }
            }
            if has_type(dishes, category) {
                let j = choose|j: int|
                    0 <= j < dishes.len() && (#[trigger] dishes[j]).type_ == category;
                if j < head_dishes.len() {
                    assert(head_dishes[j].type_ == category);
                    assert(has_type(head, category));
                    let k = choose|k: int|
                        0 <= k < head.len() && (#[trigger] head[k]).type_ == category;
                    assert(all[k].type_ == category);
                } else if has_type(head, last.type_) {
                    let k = choose|k: int|
                        0 <= k < head.len() && (#[trigger] head[k]).type_ == last.type_;
                    assert(all[k].type_ == category);
                } else {
                    assert(all[head.len() as int].type_ == category);
                }
            }
        }
        assert forall|a: int| 0 <= a < all.len() implies dishes.contains(#[trigger] all[a]) by {
            if a < head.len() {
                assert(all[a] == head[a]);
                assert(head_dishes.contains(head[a]));
                let j = choose|j: int| 0 <= j < head_dishes.len() && head_dishes[j] == head[a];
                assert(dishes[j] == all[a]);
            } else {
                assert(dishes[dishes.len() - 1] == all[a]);
            }
        }
    }
}

/// Whether a dish of the category is among the dishes.
fn holds_type(dishes: &Vec<Dish>, category: DishType) -> (found: bool)
    ensures
        found == has_type(dishes@, category),
{
    let mut i: usize = 0;
    while i < dishes.len()
        invariant
            i <= dishes.len(),
            forall|k: int| 0 <= k < i ==> (#[trigger] dishes@[k]).type_ != category,
        decreases dishes.len() - i,
    {
        if dishes[i].type_ == category {
            return true;
        }
        i = i + 1;
    }
    false
}

/// The ids in the order in which each comes first, each once. A hash set
/// remembers the ids that were seen.
pub fn dedup_ids(ids: Vec<i64>) -> (unique: Vec<i64>)
    ensures
        unique@ == unique_ids(ids@),
        unique@.no_duplicates(),
        forall|id: i64| #[trigger] unique@.contains(id) <==> ids@.contains(id),
{
    broadcast use vstd::std_specs::hash::group_hash_axioms;

    let mut seen: std::collections::HashSet<i64> = std::collections::HashSet::new();
    let mut unique: Vec<i64> = Vec::new();
    let mut i: usize = 0;
    while i < ids.len()
        invariant
            i <= ids.len(),
            unique@ == unique_ids(ids@.take(i as int)),
            forall|id: i64| seen@.contains(id) <==> unique@.contains(id),
        decreases ids.len() - i,
    {
        let id = ids[i];
        let ghost before = unique@;
        proof {
            let next = ids@.take(i + 1);
            assert(next.drop_last() =~= ids@.take(i as int));
            assert(next.last() == id);
        }
        if seen.insert(id) {
            unique.push(id);
            proof {
                assert forall|other: i64| seen@.contains(other) <==> unique@.contains(other) by {
                    if unique@.contains(other) {
                        let k = choose|k: int| 0 <= k < unique@.len() && unique@[k] == other;
                        if k < before.len() {
                            assert(before[k] == other);
                            assert(before.contains(other));
                        }
                    }
                    if before.contains(other) {
                        let k = choose|k: int| 0 <= k < before.len() && before[k] == other;
                        assert(unique@[k] == other);
                    }
                    if other == id {
                        assert(unique@[before.len() as int] == other);
                    }
                }
            }
        }
        i = i + 1;
    }
    proof {
        assert(ids@.take(i as int) =~= ids@);
        lemma_unique_ids(ids@);
    }
    unique
}

/// The first dish of each category, in the order of the dishes.
pub fn first_of_each_type(dishes: Vec<Dish>) -> (chosen: Vec<Dish>)
    ensures
        chosen@ == one_of_each_type(dishes@),
        forall|a: int, b: int|
            0 <= a < b < chosen@.len() ==> (#[trigger] chosen@[a]).type_ != (
            #[trigger] chosen@[b]).type_,
        forall|category: DishType| #[trigger]
            has_type(chosen@, category) <==> has_type(dishes@, category),
{
    let mut chosen: Vec<Dish> = Vec::new();
    let mut i: usize = 0;
    while i < dishes.len()
        invariant
            i <= dishes.len(),
            chosen@ == one_of_each_type(dishes@.take(i as int)),
        decreases dishes.len() - i,
    {
        proof {
            let next = dishes@.take(i + 1);
            assert(next.drop_last() =~= dishes@.take(i as int));
            assert(next.last() == dishes@[i as int]);
        }
        if !holds_type(&chosen, dishes[i].type_) {
            chosen.push(dishes[i].clone());
        }
        i = i + 1;
    }
    proof {
        assert(dishes@.take(i as int) =~= dishes@);
        lemma_one_of_each_type(dishes@);
    }
    chosen
}

} // verus!
